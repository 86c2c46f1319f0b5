//! The bounded priority queue of waiting jobs and the table of running ones.
//!
//! The queue decides; a dispatcher acts. The dispatcher asks
//! [`JobQueue::next_job`] for work whenever it is woken, starts a task for
//! each job it is given, and reports with [`JobQueue::job_finished`] when a
//! task ends.

use vstd::prelude::*;
use crate::job::{later_of, now_millis, timestamp_in_range, Job, JobView};
use crate::text::{chars_of, decimal, push_decimal, push_str, same_chars, str_eq, string_of};

verus! {

/// How urgent a job is. Higher levels are dispatched first.
#[derive(Debug, Clone, Copy, PartialEq, Eq, Hash, Structural)]
pub enum JobPriority {
    Low,
    Normal,
    High,
}

/// The level of a priority: 1 for `Low`, 2 for `Normal`, 3 for `High`.
pub open spec fn priority_level(p: JobPriority) -> int {
    match p {
        JobPriority::Low => 1,
        JobPriority::Normal => 2,
        JobPriority::High => 3,
    }
}

/// The priority that a request names: `high`, `low`, and `Normal` for
/// anything else or nothing.
pub open spec fn priority_named(name: Option<Seq<char>>) -> JobPriority {
    match name {
        Some(n) => if n == "high"@ {
            JobPriority::High
        } else if n == "low"@ {
            JobPriority::Low
        } else {
            JobPriority::Normal
        },
        None => JobPriority::Normal,
    }
}

impl JobPriority {
    /// The level of this priority, from 1 to 3.
    pub fn level(&self) -> (n: u8)
        ensures
            n == priority_level(*self),
    {
        match self {
            JobPriority::Low => 1,
            JobPriority::Normal => 2,
            JobPriority::High => 3,
        }
    }

    /// Reads the priority of a request.
    pub fn parse(name: Option<&str>) -> (p: JobPriority)
        ensures
            p == priority_named(
                match name {
                    Some(n) => Some(n@),
                    None => None,
                },
            ),
    {
        match name {
            Some(n) => if str_eq(n, "high") {
                JobPriority::High
            } else if str_eq(n, "low") {
                JobPriority::Low
            } else {
                JobPriority::Normal
            },
            None => JobPriority::Normal,
        }
    }
}

/// A job waiting in the queue, with its priority and the instant it was queued.
#[derive(Debug, Clone)]
pub struct QueuedJob {
    pub job: Job,
    pub priority: JobPriority,
    pub queued_at: i64,
}

/// The mathematical content of a [`QueuedJob`].
pub struct QueuedJobView {
    pub job: JobView,
    pub priority: JobPriority,
    pub queued_at: int,
}

impl View for QueuedJob {
    type V = QueuedJobView;

    open spec fn view(&self) -> QueuedJobView {
        QueuedJobView { job: self.job@, priority: self.priority, queued_at: self.queued_at as int }
    }
}

/// `a` is dispatched before `b`: it has the higher priority, or the same
/// priority and was queued earlier.
pub open spec fn dispatches_before(a: QueuedJobView, b: QueuedJobView) -> bool {
    priority_level(a.priority) > priority_level(b.priority) || (a.priority == b.priority
        && a.queued_at < b.queued_at)
}

/// The position of the entry that is dispatched next: none is dispatched
/// before it, and of several that tie, it is the one that was added first.
pub open spec fn best_index(s: Seq<QueuedJobView>) -> int
    decreases s.len(),
{
    if s.len() <= 1 {
        0
    } else {
        let b = best_index(s.drop_last());
        if dispatches_before(s.last(), s[b]) {
            s.len() - 1
        } else {
            b
        }
    }
}

/// What [`best_index`] finds: a position in range, with no entry that is
/// dispatched before it, and ahead of every earlier entry.
pub proof fn lemma_best_index(s: Seq<QueuedJobView>)
    requires
        s.len() > 0,
    ensures
        0 <= best_index(s) < s.len(),
        forall|j: int| 0 <= j < s.len() ==> !dispatches_before(#[trigger] s[j], s[best_index(s)]),
        forall|j: int|
            0 <= j < best_index(s) ==> dispatches_before(s[best_index(s)], #[trigger] s[j]),
    decreases s.len(),
{
    if s.len() > 1 {
        let t = s.drop_last();
        lemma_best_index(t);
        let b = best_index(t);
        assert(forall|j: int| 0 <= j < t.len() ==> t[j] == s[j]);
        assert(t[b] == s[b]);
    }
}

/// Jobs leave the queue in dispatch order: of two jobs handed out one
/// after the other with nothing queued in between, the second is not
/// dispatched before the first.
pub proof fn lemma_dispatch_is_ordered(s: Seq<QueuedJobView>)
    requires
        s.len() >= 2,
    ensures
        ({
            let first = best_index(s);
            let rest = s.remove(first);
            !dispatches_before(rest[best_index(rest)], s[first])
        }),
{
    lemma_best_index(s);
    let first = best_index(s);
    let rest = s.remove(first);
    lemma_best_index(rest);
    let second = best_index(rest);
    let from = if second < first {
        second
    } else {
        second + 1
    };
    assert(rest[second] == s[from]);
}

/// The entries stand in the order of their arrival: none was queued
/// earlier than an entry before it.
pub open spec fn in_arrival_order(s: Seq<QueuedJobView>) -> bool {
    forall|i: int, j: int|
        0 <= i <= j < s.len() ==> (#[trigger] s[i]).queued_at <= (#[trigger] s[j]).queued_at
}

/// The instant with which an entry that arrives at `now` is queued: `now`,
/// or the latest instant among the entries that wait, if that is later.
/// An entry so stamped is never queued earlier than one that came before
/// it, even where the clock has stepped back.
pub open spec fn arrival_stamp(s: Seq<QueuedJobView>, now: int) -> int
    decreases s.len(),
{
    if s.len() == 0 {
        now
    } else {
        later_of(arrival_stamp(s.drop_last(), now), s.last().queued_at)
    }
}

/// The arrival stamp is no earlier than `now` and than any waiting entry.
pub proof fn lemma_arrival_stamp(s: Seq<QueuedJobView>, now: int)
    ensures
        arrival_stamp(s, now) >= now,
        forall|i: int| 0 <= i < s.len() ==> (#[trigger] s[i]).queued_at <= arrival_stamp(s, now),
    decreases s.len(),
{
    if s.len() > 0 {
        lemma_arrival_stamp(s.drop_last(), now);
        assert forall|i: int| 0 <= i < s.len() implies (#[trigger] s[i]).queued_at
            <= arrival_stamp(s, now) by {
            if i < s.len() - 1 {
                assert(s.drop_last()[i] == s[i]);
            }
        }
    }
}

/// A queue in arrival order stays so when an entry with the arrival stamp joins it.
pub proof fn lemma_arrival_keeps_order(s: Seq<QueuedJobView>, entry: QueuedJobView, now: int)
    requires
        in_arrival_order(s),
        entry.queued_at == arrival_stamp(s, now),
    ensures
        in_arrival_order(s.push(entry)),
{
    lemma_arrival_stamp(s, now);
    let t = s.push(entry);
    assert forall|i: int, j: int| 0 <= i <= j < t.len() implies (#[trigger] t[i]).queued_at <= (
    #[trigger] t[j]).queued_at by {
        if j < s.len() {
            assert(t[i] == s[i]);
            assert(t[j] == s[j]);
        } else if i < s.len() {
            assert(t[i] == s[i]);
        }
    }
}

/// A queue in arrival order stays so when an entry leaves it.
pub proof fn lemma_leaving_keeps_order(s: Seq<QueuedJobView>, k: int)
    requires
        in_arrival_order(s),
        0 <= k < s.len(),
    ensures
        in_arrival_order(s.remove(k)),
{
    let t = s.remove(k);
    assert forall|i: int, j: int| 0 <= i <= j < t.len() implies (#[trigger] t[i]).queued_at <= (
    #[trigger] t[j]).queued_at by {
        let a = if i < k {
            i
        } else {
            i + 1
        };
        let b = if j < k {
            j
        } else {
            j + 1
        };
        assert(t[i] == s[a]);
        assert(t[j] == s[b]);
    }
}

/// A queue in arrival order stays so when the entries of a job are taken out.
pub proof fn lemma_cancel_keeps_order(s: Seq<QueuedJobView>, id: Seq<char>)
    requires
        in_arrival_order(s),
    ensures
        in_arrival_order(without_job(s, id)),
        forall|i: int|
            0 <= i < without_job(s, id).len() ==> s.contains(#[trigger] without_job(s, id)[i]),
    decreases s.len(),
{
    let out = without_job(s, id);
    if s.len() > 0 {
        let front = s.drop_last();
        let inner = without_job(front, id);
        assert forall|i: int, j: int| 0 <= i <= j < front.len() implies (
        #[trigger] front[i]).queued_at <= (#[trigger] front[j]).queued_at by {
            assert(front[i] == s[i]);
            assert(front[j] == s[j]);
        }
        lemma_cancel_keeps_order(front, id);
        assert forall|i: int| 0 <= i < out.len() implies s.contains(#[trigger] out[i]) by {
            if i < inner.len() {
                assert(out[i] == inner[i]);
                assert(front.contains(inner[i]));
                let j = choose|j: int| 0 <= j < front.len() && front[j] == inner[i];
                assert(s[j] == out[i]);
            } else {
                assert(s[s.len() - 1] == out[i]);
            }
        }
        assert forall|i: int, j: int| 0 <= i <= j < out.len() implies (
        #[trigger] out[i]).queued_at <= (#[trigger] out[j]).queued_at by {
            if j < inner.len() {
                assert(out[i] == inner[i]);
                assert(out[j] == inner[j]);
            } else if i < inner.len() {
                assert(out[i] == inner[i]);
                assert(front.contains(inner[i]));
                let a = choose|a: int| 0 <= a < front.len() && front[a] == inner[i];
                assert(s[a] == inner[i]);
                assert(s[s.len() - 1] == out[j]);
            }
        }
    }
}

/// Priority, then first come first served: in a queue that is in arrival
/// order, the job handed out next is the first one of the highest
/// priority that waits. No waiting job has a higher priority, and every
/// job of the same priority came after it.
pub proof fn lemma_arrival_order_is_fifo(s: Seq<QueuedJobView>)
    requires
        s.len() > 0,
        in_arrival_order(s),
    ensures
        0 <= best_index(s) < s.len(),
        forall|j: int|
            0 <= j < s.len() ==> priority_level((#[trigger] s[j]).priority) <= priority_level(
                s[best_index(s)].priority,
            ),
        forall|j: int|
            0 <= j < best_index(s) ==> priority_level((#[trigger] s[j]).priority)
                < priority_level(s[best_index(s)].priority),
{
    lemma_best_index(s);
    let k = best_index(s);
    assert forall|j: int| 0 <= j < k implies priority_level((#[trigger] s[j]).priority)
        < priority_level(s[k].priority) by {
        assert(dispatches_before(s[k], s[j]));
        assert(s[j].queued_at <= s[k].queued_at);
    }
    assert forall|j: int| 0 <= j < s.len() implies priority_level((#[trigger] s[j]).priority)
        <= priority_level(s[k].priority) by {
        assert(!dispatches_before(s[j], s[k]));
    }
}

impl QueuedJob {
    /// A queue entry for `job`, queued now.
    pub fn new(job: Job, priority: JobPriority) -> (q: QueuedJob)
        ensures
            q@.job == job@,
            q@.priority == priority,
            crate::job::timestamp_in_range(q@.queued_at),
    {
        let now = now_millis();
        QueuedJob { job, priority, queued_at: now }
    }

    /// A queue entry for `job`, queued at `now`.
    pub fn new_at(job: Job, priority: JobPriority, now: i64) -> (q: QueuedJob)
        ensures
            q@ == (QueuedJobView { job: job@, priority, queued_at: now as int }),
    {
        QueuedJob { job, priority, queued_at: now }
    }

    /// Whether this entry is dispatched before `other`.
    pub fn dispatches_before(&self, other: &QueuedJob) -> (b: bool)
        ensures
            b == dispatches_before(self@, other@),
    {
        let mine = self.priority.level();
        let theirs = other.priority.level();
        mine > theirs || (mine == theirs && self.queued_at < other.queued_at)
    }
}

/// The number of waiting jobs a queue accepts unless told otherwise.
pub const DEFAULT_MAX_QUEUE_SIZE: usize = 1000;

/// The waiting jobs in the order they were added, the identifiers of the
/// running jobs, the two bounds, and whether the queue has been shut down.
pub struct JobQueue {
    heap: Vec<QueuedJob>,
    active: Vec<String>,
    max_concurrent_jobs: usize,
    max_queue_size: usize,
    is_shutdown: bool,
}

/// The mathematical content of a [`JobQueue`].
pub struct QueueView {
    pub queued: Seq<QueuedJobView>,
    pub active: Seq<Seq<char>>,
    pub max_concurrent_jobs: nat,
    pub max_queue_size: nat,
    pub shutting_down: bool,
}

/// Counts of what a queue holds.
#[derive(Debug, Clone, Copy, PartialEq, Eq)]
pub struct PriorityBreakdown {
    pub low: usize,
    pub normal: usize,
    pub high: usize,
}

/// A snapshot of a queue for reporting.
#[derive(Debug, Clone, Copy, PartialEq, Eq)]
pub struct QueueStats {
    pub queued_jobs: usize,
    pub active_jobs: usize,
    pub max_concurrent_jobs: usize,
    pub priority_breakdown: PriorityBreakdown,
}

/// The entries of `s` whose job is not `id`, in their order.
pub open spec fn without_job(s: Seq<QueuedJobView>, id: Seq<char>) -> Seq<QueuedJobView>
    decreases s.len(),
{
    if s.len() == 0 {
        s
    } else if s.last().job.id == id {
        without_job(s.drop_last(), id)
    } else {
        without_job(s.drop_last(), id).push(s.last())
    }
}

/// The identifiers in `s` other than `id`, in their order.
pub open spec fn without_id(s: Seq<Seq<char>>, id: Seq<char>) -> Seq<Seq<char>>
    decreases s.len(),
{
    if s.len() == 0 {
        s
    } else if s.last() == id {
        without_id(s.drop_last(), id)
    } else {
        without_id(s.drop_last(), id).push(s.last())
    }
}

/// `s` with `id` added at the end unless it is there already.
pub open spec fn with_id(s: Seq<Seq<char>>, id: Seq<char>) -> Seq<Seq<char>> {
    if s.contains(id) {
        s
    } else {
        s.push(id)
    }
}

/// Some waiting job has the identifier `id`.
pub open spec fn is_queued(s: Seq<QueuedJobView>, id: Seq<char>) -> bool {
    exists|i: int| 0 <= i < s.len() && (#[trigger] s[i]).job.id == id
}

/// The number of entries of `s` with priority `p`.
pub open spec fn count_priority(s: Seq<QueuedJobView>, p: JobPriority) -> nat
    decreases s.len(),
{
    if s.len() == 0 {
        0
    } else {
        count_priority(s.drop_last(), p) + if s.last().priority == p {
            1nat
        } else {
            0nat
        }
    }
}

/// The words with which a full queue refuses a job.
pub open spec fn queue_full_message(max: nat) -> Seq<char> {
    "Queue is full (max "@ + decimal(max) + " jobs), try again later"@
}

impl QueueView {
    /// A job can be handed to a worker: one is waiting and a slot is free.
    pub open spec fn can_dispatch(self) -> bool {
        self.queued.len() > 0 && self.active.len() < self.max_concurrent_jobs
    }

    /// The words with which the queue refuses a new job, or `None` where it
    /// takes one: it refuses once shut down, and when it is full.
    pub open spec fn refusal(self) -> Option<Seq<char>> {
        if self.shutting_down {
            Some("Job queue is shutting down"@)
        } else if self.queued.len() >= self.max_queue_size {
            Some(queue_full_message(self.max_queue_size))
        } else {
            None
        }
    }

    /// The bounds hold: no more waiting jobs than the queue accepts, no
    /// more running jobs than may run, and no running job listed twice.
    pub open spec fn within_bounds(self) -> bool {
        &&& self.queued.len() <= self.max_queue_size
        &&& self.active.len() <= self.max_concurrent_jobs
        &&& self.active.no_duplicates()
    }
}

impl View for JobQueue {
    type V = QueueView;

    closed spec fn view(&self) -> QueueView {
        QueueView {
            queued: Seq::new(self.heap@.len(), |i: int| self.heap@[i]@),
            active: Seq::new(self.active@.len(), |i: int| self.active@[i]@),
            max_concurrent_jobs: self.max_concurrent_jobs as nat,
            max_queue_size: self.max_queue_size as nat,
            shutting_down: self.is_shutdown,
        }
    }
}

impl JobQueue {
    /// The bounds hold. Every constructor gives a queue for which they do,
    /// and every operation keeps them.
    pub open spec fn wf(&self) -> bool {
        self@.within_bounds()
    }

    /// The numbers of waiting and of running jobs.
    pub fn get_queue_info(&self) -> (r: (usize, usize))
        ensures
            r.0 == self@.queued.len(),
            r.1 == self@.active.len(),
    {
        (self.heap.len(), self.active.len())
    }

    /// An empty queue that lets `max_concurrent_jobs` jobs run at once and
    /// accepts the default number of waiting jobs.
    pub fn new(max_concurrent_jobs: usize) -> (q: JobQueue)
        ensures
            q.wf(),
            q@ == (QueueView {
                queued: Seq::empty(),
                active: Seq::empty(),
                max_concurrent_jobs: max_concurrent_jobs as nat,
                max_queue_size: DEFAULT_MAX_QUEUE_SIZE as nat,
                shutting_down: false,
            }),
    {
        JobQueue::with_limits(max_concurrent_jobs, DEFAULT_MAX_QUEUE_SIZE)
    }

    /// An empty queue with the given bounds.
    pub fn with_limits(max_concurrent_jobs: usize, max_queue_size: usize) -> (q: JobQueue)
        ensures
            q.wf(),
            q@ == (QueueView {
                queued: Seq::empty(),
                active: Seq::empty(),
                max_concurrent_jobs: max_concurrent_jobs as nat,
                max_queue_size: max_queue_size as nat,
                shutting_down: false,
            }),
    {
        let q = JobQueue {
            heap: Vec::new(),
            active: Vec::new(),
            max_concurrent_jobs,
            max_queue_size,
            is_shutdown: false,
        };
        assert(q@.queued =~= Seq::empty());
        assert(q@.active =~= Seq::empty());
        q
    }

    /// Adds `job` to the waiting jobs, queued at `now`. A queue that has
    /// been shut down or is full refuses and stays as it is.
    pub fn enqueue_at(&mut self, job: Job, priority: JobPriority, now: i64) -> (r: Result<
        (),
        String,
    >)
        requires
            old(self).wf(),
        ensures
            final(self).wf(),
            match r {
                Ok(_) => {
                    &&& old(self)@.refusal() is None
                    &&& final(self)@ == (QueueView {
                        queued: old(self)@.queued.push(
                            QueuedJobView { job: job@, priority, queued_at: now as int },
                        ),
                        ..old(self)@
                    })
                },
                Err(words) => {
                    &&& old(self)@.refusal() == Some(words@)
                    &&& final(self)@ == old(self)@
                },
            },
    {
        if self.is_shutdown {
            return Err("Job queue is shutting down".to_owned());
        }
        if self.heap.len() >= self.max_queue_size {
            let mut m: Vec<char> = Vec::new();
            push_str(&mut m, "Queue is full (max ");
            push_decimal(&mut m, self.max_queue_size as u64);
            push_str(&mut m, " jobs), try again later");
            assert(m@ =~= queue_full_message(self.max_queue_size as nat));
            return Err(string_of(&m));
        }
        self.heap.push(QueuedJob::new_at(job, priority, now));
        assert(self@.queued =~= old(self)@.queued.push(
            QueuedJobView { job: job@, priority, queued_at: now as int },
        ));
        assert(self@.active =~= old(self)@.active);
        Ok(())
    }

    fn arrival_stamp_at(&self, now: i64) -> (stamp: i64)
        ensures
            stamp == arrival_stamp(self@.queued, now as int),
    {
        let ghost views = self@.queued;
        let mut stamp: i64 = now;
        let mut i: usize = 0;
        assert(views.take(0).len() == 0);
        while i < self.heap.len()
            invariant
                i <= self.heap@.len(),
                views == self@.queued,
                stamp == arrival_stamp(views.take(i as int), now as int),
            decreases self.heap@.len() - i,
        {
            proof {
                assert(views.take(i + 1).drop_last() =~= views.take(i as int));
                assert(views.take(i + 1).last() == views[i as int]);
            }
            if self.heap[i].queued_at > stamp {
                stamp = self.heap[i].queued_at;
            }
            i += 1;
        }
        assert(views.take(i as int) =~= views);
        stamp
    }

    /// Adds `job` to the waiting jobs as one that arrives at `now`: it is
    /// queued at `now`, or at the latest instant among the waiting jobs if
    /// that is later, so that within a priority jobs leave in the order in
    /// which they came even where the clock has stepped back. A queue that
    /// has been shut down or is full refuses and stays as it is.
    pub fn enqueue_arrival_at(&mut self, job: Job, priority: JobPriority, now: i64) -> (r: Result<
        (),
        String,
    >)
        requires
            old(self).wf(),
        ensures
            final(self).wf(),
            match r {
                Ok(_) => {
                    &&& old(self)@.refusal() is None
                    &&& final(self)@ == (QueueView {
                        queued: old(self)@.queued.push(
                            QueuedJobView {
                                job: job@,
                                priority,
                                queued_at: arrival_stamp(old(self)@.queued, now as int),
                            },
                        ),
                        ..old(self)@
                    })
                },
                Err(words) => {
                    &&& old(self)@.refusal() == Some(words@)
                    &&& final(self)@ == old(self)@
                },
            },
            in_arrival_order(old(self)@.queued) ==> in_arrival_order(final(self)@.queued),
    {
        let stamp = self.arrival_stamp_at(now);
        proof {
            if in_arrival_order(self@.queued) {
                lemma_arrival_keeps_order(
                    self@.queued,
                    QueuedJobView { job: job@, priority, queued_at: stamp as int },
                    now as int,
                );
            }
        }
        self.enqueue_at(job, priority, stamp)
    }

    /// Adds `job` to the waiting jobs as one that arrives now.
    pub fn enqueue(&mut self, job: Job, priority: JobPriority) -> (r: Result<(), String>)
        requires
            old(self).wf(),
        ensures
            final(self).wf(),
            match r {
                Ok(_) => {
                    &&& old(self)@.refusal() is None
                    &&& exists|now: int|
                        timestamp_in_range(now) && final(self)@ == (QueueView {
                            queued: old(self)@.queued.push(
                                QueuedJobView {
                                    job: job@,
                                    priority,
                                    queued_at: #[trigger] arrival_stamp(old(self)@.queued, now),
                                },
                            ),
                            ..old(self)@
                        })
                },
                Err(words) => {
                    &&& old(self)@.refusal() == Some(words@)
                    &&& final(self)@ == old(self)@
                },
            },
            in_arrival_order(old(self)@.queued) ==> in_arrival_order(final(self)@.queued),
    {
        let now = now_millis();
        let r = self.enqueue_arrival_at(job, priority, now);
        proof {
            if r is Ok {
                assert(final(self)@ == (QueueView {
                    queued: old(self)@.queued.push(
                        QueuedJobView {
                            job: job@,
                            priority,
                            queued_at: arrival_stamp(old(self)@.queued, now as int),
                        },
                    ),
                    ..old(self)@
                }));
            }
        }
        r
    }
}

impl JobQueue {
    fn best_position(&self) -> (k: usize)
        requires
            self.heap@.len() > 0,
        ensures
            k == best_index(self@.queued),
            k < self.heap@.len(),
    {
        let ghost views = self@.queued;
        let mut best: usize = 0;
        let mut i: usize = 1;
        assert(views.take(1).len() == 1);
        while i < self.heap.len()
            invariant
                1 <= i <= self.heap@.len(),
                views == self@.queued,
                best < i,
                best == best_index(views.take(i as int)),
            decreases self.heap@.len() - i,
        {
            proof {
                assert(views.take(i + 1).drop_last() =~= views.take(i as int));
                assert(views.take(i + 1).last() == views[i as int]);
                assert(views.take(i as int)[best as int] == views[best as int]);
            }
            if self.heap[i].dispatches_before(&self.heap[best]) {
                best = i;
            }
            i += 1;
        }
        assert(views.take(i as int) =~= views);
        best
    }

    fn position_of_active(&self, job_id: &str) -> (r: Option<usize>)
        ensures
            match r {
                Some(k) => k < self@.active.len() && self@.active[k as int] == job_id@,
                None => !self@.active.contains(job_id@),
            },
    {
        let id = chars_of(job_id);
        let mut i: usize = 0;
        while i < self.active.len()
            invariant
                i <= self.active@.len(),
                id@ == job_id@,
                forall|j: int| 0 <= j < i ==> self@.active[j] != job_id@,
            decreases self.active@.len() - i,
        {
            let other = chars_of(self.active[i].as_str());
            if same_chars(&other, &id) {
                return Some(i);
            }
            i += 1;
        }
        None
    }

    /// Whether a job with this identifier is running.
    pub fn is_active(&self, job_id: &str) -> (b: bool)
        ensures
            b == self@.active.contains(job_id@),
    {
        self.position_of_active(job_id).is_some()
    }

    /// Whether the queue has been shut down.
    pub fn is_shutdown(&self) -> (b: bool)
        ensures
            b == self@.shutting_down,
    {
        self.is_shutdown
    }

    /// Hands out the next job to run, if one is waiting and a slot is free:
    /// the waiting job that no other is dispatched before. The job leaves
    /// the queue and its identifier joins the running ones.
    pub fn next_job(&mut self) -> (r: Option<QueuedJob>)
        requires
            old(self).wf(),
        ensures
            final(self).wf(),
            match r {
                Some(q) => {
                    let k = best_index(old(self)@.queued);
                    &&& old(self)@.can_dispatch()
                    &&& 0 <= k < old(self)@.queued.len()
                    &&& q@ == old(self)@.queued[k]
                    &&& forall|j: int|
                        0 <= j < old(self)@.queued.len() ==> !dispatches_before(
                            #[trigger] old(self)@.queued[j],
                            q@,
                        )
                    &&& final(self)@ == (QueueView {
                        queued: old(self)@.queued.remove(k),
                        active: with_id(old(self)@.active, q@.job.id),
                        ..old(self)@
                    })
                },
                None => !old(self)@.can_dispatch() && final(self)@ == old(self)@,
            },
            in_arrival_order(old(self)@.queued) ==> in_arrival_order(final(self)@.queued),
    {
        if self.heap.len() == 0 || self.active.len() >= self.max_concurrent_jobs {
            return None;
        }
        let k = self.best_position();
        proof {
            lemma_best_index(self@.queued);
        }
        proof {
            if in_arrival_order(self@.queued) {
                lemma_leaving_keeps_order(self@.queued, k as int);
            }
        }
        let q = self.heap.remove(k);
        assert(self@.queued =~= old(self)@.queued.remove(k as int));
        if self.position_of_active(q.job.id.as_str()).is_none() {
            self.active.push(q.job.id.clone());
            assert(self@.active =~= old(self)@.active.push(q@.job.id));
        }
        assert(self@.active =~= with_id(old(self)@.active, q@.job.id));
        Some(q)
    }

    /// Records that the task of a job has ended: its identifier leaves the
    /// running ones, which frees its slot.
    pub fn job_finished(&mut self, job_id: &str)
        requires
            old(self).wf(),
        ensures
            final(self).wf(),
            final(self)@ == (QueueView {
                active: without_id(old(self)@.active, job_id@),
                ..old(self)@
            }),
    {
        let _ = self.drop_active(job_id);
    }

    fn drop_active(&mut self, job_id: &str) -> (was_active: bool)
        requires
            old(self).wf(),
        ensures
            final(self).wf(),
            was_active == old(self)@.active.contains(job_id@),
            final(self)@ == (QueueView {
                active: without_id(old(self)@.active, job_id@),
                ..old(self)@
            }),
    {
        match self.position_of_active(job_id) {
            Some(k) => {
                proof {
                    lemma_without_id_unique(old(self)@.active, job_id@, k as int);
                }
                let _ = self.active.remove(k);
                assert(self@.active =~= old(self)@.active.remove(k as int));
                assert(self@.queued =~= old(self)@.queued);
                proof {
                    old(self)@.active.remove_ensures(k as int);
                    lemma_remove_keeps_distinct(old(self)@.active, k as int);
                }
                true
            },
            None => {
                proof {
                    lemma_without_id_absent(self@.active, job_id@);
                }
                false
            },
        }
    }
}

impl JobQueue {
    fn drop_queued(&mut self, job_id: &str) -> (found: bool)
        requires
            old(self).wf(),
        ensures
            final(self).wf(),
            found == is_queued(old(self)@.queued, job_id@),
            final(self)@ == (QueueView {
                queued: without_job(old(self)@.queued, job_id@),
                ..old(self)@
            }),
    {
        let id = chars_of(job_id);
        let ghost before = self@.queued;
        let mut found = false;
        let mut i: usize = 0;
        let ghost mut k: int = 0;
        assert(before.take(0) =~= Seq::<QueuedJobView>::empty());
        assert(before.skip(0) =~= before);
        assert(without_job(before.take(0), job_id@) + before.skip(0) =~= before);
        while i < self.heap.len()
            invariant
                id@ == job_id@,
                before == old(self)@.queued,
                0 <= k <= before.len(),
                i == without_job(before.take(k), job_id@).len(),
                i <= self.heap@.len(),
                self@.queued == without_job(before.take(k), job_id@) + before.skip(k),
                self@.queued.len() <= before.len(),
                self@.active == old(self)@.active,
                self@.max_concurrent_jobs == old(self)@.max_concurrent_jobs,
                self@.max_queue_size == old(self)@.max_queue_size,
                self@.shutting_down == old(self)@.shutting_down,
                found == is_queued(before.take(k), job_id@),
                i == self.heap@.len() ==> k == before.len(),
            decreases self.heap@.len() - i,
        {
            proof {
                assert(k < before.len()) by {
                    assert(self@.queued.len() == i + (before.len() - k));
                }
                assert(self@.queued[i as int] == before.skip(k)[0]);
                assert(before.take(k + 1).drop_last() =~= before.take(k));
                assert(before.take(k + 1).last() == before[k]);
                lemma_is_queued_step(before, job_id@, k);
            }
            let ghost cur = self@.queued;
            let here = chars_of(self.heap[i].job.id.as_str());
            if same_chars(&here, &id) {
                let _ = self.heap.remove(i);
                found = true;
                proof {
                    assert(self@.queued =~= cur.remove(i as int));
                    assert(cur.remove(i as int) =~= without_job(before.take(k + 1), job_id@)
                        + before.skip(k + 1));
                    assert(self@.active =~= old(self)@.active);
                }
            } else {
                i += 1;
                proof {
                    assert(cur =~= without_job(before.take(k + 1), job_id@) + before.skip(k + 1));
                }
            }
            proof {
                k = k + 1;
            }
        }
        proof {
            assert(before.take(k) =~= before);
            assert(before.skip(k) =~= Seq::<QueuedJobView>::empty());
            assert(self@.queued =~= without_job(before, job_id@));
        }
        found
    }

    /// Cancels a job: takes its identifier off the running ones, where the
    /// caller must abort its task, and takes every entry for it out of the
    /// queue, the other entries keeping their order. `Ok(true)` if the job
    /// was running or waiting, `Ok(false)` if the queue did not know it.
    pub fn cancel_job(&mut self, job_id: &str) -> (r: Result<bool, String>)
        requires
            old(self).wf(),
        ensures
            final(self).wf(),
            r == Ok::<bool, String>(
                old(self)@.active.contains(job_id@) || is_queued(old(self)@.queued, job_id@),
            ),
            final(self)@ == (QueueView {
                queued: without_job(old(self)@.queued, job_id@),
                active: without_id(old(self)@.active, job_id@),
                ..old(self)@
            }),
            in_arrival_order(old(self)@.queued) ==> in_arrival_order(final(self)@.queued),
    {
        proof {
            if in_arrival_order(self@.queued) {
                lemma_cancel_keeps_order(self@.queued, job_id@);
            }
        }
        let was_active = self.drop_active(job_id);
        let was_queued = self.drop_queued(job_id);
        Ok(was_active || was_queued)
    }

    /// Shuts the queue down: no job is accepted afterwards, the waiting
    /// jobs are dropped, and the identifiers of the running jobs are handed
    /// to the caller, who must abort their tasks.
    pub fn shutdown(&mut self) -> (aborted: Vec<String>)
        requires
            old(self).wf(),
        ensures
            final(self).wf(),
            Seq::new(aborted@.len(), |i: int| aborted@[i]@) == old(self)@.active,
            final(self)@ == (QueueView {
                queued: Seq::empty(),
                active: Seq::empty(),
                shutting_down: true,
                ..old(self)@
            }),
    {
        self.is_shutdown = true;
        let mut aborted: Vec<String> = Vec::new();
        let ghost before = self@.active;
        while self.active.len() > 0
            invariant
                before == old(self)@.active,
                self@.queued == old(self)@.queued,
                self@.max_concurrent_jobs == old(self)@.max_concurrent_jobs,
                self@.max_queue_size == old(self)@.max_queue_size,
                self@.shutting_down,
                Seq::new(aborted@.len(), |i: int| aborted@[i]@) + self@.active == before,
            decreases self.active@.len(),
        {
            let ghost done = Seq::new(aborted@.len(), |i: int| aborted@[i]@);
            let ghost rest = self@.active;
            let id = self.active.remove(0);
            aborted.push(id);
            proof {
                assert(self@.active =~= rest.remove(0));
                assert(Seq::new(aborted@.len(), |i: int| aborted@[i]@) =~= done.push(rest[0]));
                assert(done.push(rest[0]) + rest.remove(0) =~= done + rest);
                assert(self@.queued =~= old(self)@.queued);
            }
        }
        self.heap.clear();
        proof {
            assert(self@.queued =~= Seq::empty());
            assert(self@.active =~= Seq::empty());
            assert(Seq::new(aborted@.len(), |i: int| aborted@[i]@) =~= Seq::new(
                aborted@.len(),
                |i: int| aborted@[i]@,
            ) + Seq::<Seq<char>>::empty());
        }
        aborted
    }

    /// A snapshot of the queue: how many jobs wait, how many run, how many
    /// may run, and how many wait at each priority.
    pub fn get_queue_stats(&self) -> (stats: QueueStats)
        ensures
            stats.queued_jobs == self@.queued.len(),
            stats.active_jobs == self@.active.len(),
            stats.max_concurrent_jobs == self@.max_concurrent_jobs,
            stats.priority_breakdown.low == count_priority(self@.queued, JobPriority::Low),
            stats.priority_breakdown.normal == count_priority(self@.queued, JobPriority::Normal),
            stats.priority_breakdown.high == count_priority(self@.queued, JobPriority::High),
    {
        let mut low: usize = 0;
        let mut normal: usize = 0;
        let mut high: usize = 0;
        let mut i: usize = 0;
        let ghost views = self@.queued;
        while i < self.heap.len()
            invariant
                i <= self.heap@.len(),
                views == self@.queued,
                low == count_priority(views.take(i as int), JobPriority::Low),
                normal == count_priority(views.take(i as int), JobPriority::Normal),
                high == count_priority(views.take(i as int), JobPriority::High),
                low + normal + high == i,
            decreases self.heap@.len() - i,
        {
            proof {
                assert(views.take(i + 1).drop_last() =~= views.take(i as int));
                assert(views.take(i + 1).last() == views[i as int]);
            }
            match self.heap[i].priority {
                JobPriority::Low => {
                    low += 1;
                },
                JobPriority::Normal => {
                    normal += 1;
                },
                JobPriority::High => {
                    high += 1;
                },
            }
            i += 1;
        }
        assert(views.take(i as int) =~= views);
        QueueStats {
            queued_jobs: self.heap.len(),
            active_jobs: self.active.len(),
            max_concurrent_jobs: self.max_concurrent_jobs,
            priority_breakdown: PriorityBreakdown { low, normal, high },
        }
    }
}

/// Whether a job waits among the first `k + 1` entries, from whether it
/// waits among the first `k`.
proof fn lemma_is_queued_step(s: Seq<QueuedJobView>, id: Seq<char>, k: int)
    requires
        0 <= k < s.len(),
    ensures
        is_queued(s.take(k + 1), id) == (is_queued(s.take(k), id) || s[k].job.id == id),
{
    let a = s.take(k);
    let b = s.take(k + 1);
    if is_queued(a, id) {
        let i = choose|i: int| 0 <= i < a.len() && (#[trigger] a[i]).job.id == id;
        assert(b[i].job.id == id);
    }
    if s[k].job.id == id {
        assert(b[k].job.id == id);
    }
    if is_queued(b, id) {
        let i = choose|i: int| 0 <= i < b.len() && (#[trigger] b[i]).job.id == id;
        if i < k {
            assert(a[i].job.id == id);
        }
    }
}

/// After the entries of a job have been taken out, none is left, and the
/// entries of every other job are there as before.
pub proof fn lemma_without_job(s: Seq<QueuedJobView>, id: Seq<char>)
    ensures
        !is_queued(without_job(s, id), id),
        forall|other: Seq<char>|
            other != id ==> is_queued(without_job(s, id), other) == #[trigger] is_queued(s, other),
    decreases s.len(),
{
    let out = without_job(s, id);
    if s.len() > 0 {
        let front = s.drop_last();
        let inner = without_job(front, id);
        lemma_without_job(front, id);
        if is_queued(out, id) {
            let i = choose|i: int| 0 <= i < out.len() && (#[trigger] out[i]).job.id == id;
            if i < inner.len() {
                assert(inner[i].job.id == id);
            }
        }
        assert forall|other: Seq<char>| other != id implies is_queued(out, other)
            == #[trigger] is_queued(s, other) by {
            if is_queued(out, other) {
                let i = choose|i: int| 0 <= i < out.len() && (#[trigger] out[i]).job.id == other;
                if i < inner.len() {
                    assert(inner[i].job.id == other);
                    assert(is_queued(inner, other));
                    assert(is_queued(front, other));
                    let j = choose|j: int|
                        0 <= j < front.len() && (#[trigger] front[j]).job.id == other;
                    assert(s[j].job.id == other);
                } else {
                    assert(s[s.len() - 1].job.id == other);
                }
            }
            if is_queued(s, other) {
                let j = choose|j: int| 0 <= j < s.len() && (#[trigger] s[j]).job.id == other;
                if j < front.len() {
                    assert(front[j].job.id == other);
                    assert(is_queued(front, other));
                    assert(is_queued(inner, other));
                    let i = choose|i: int|
                        0 <= i < inner.len() && (#[trigger] inner[i]).job.id == other;
                    assert(out[i].job.id == other);
                } else {
                    assert(out[out.len() - 1].job.id == other);
                }
            }
        }
    }
}

/// After an identifier has been taken out, it is not listed.
pub proof fn lemma_without_id(s: Seq<Seq<char>>, id: Seq<char>)
    ensures
        !without_id(s, id).contains(id),
    decreases s.len(),
{
    let out = without_id(s, id);
    if s.len() > 0 {
        lemma_without_id(s.drop_last(), id);
        let inner = without_id(s.drop_last(), id);
        if out.contains(id) {
            let i = choose|i: int| 0 <= i < out.len() && out[i] == id;
            if i < inner.len() {
                assert(inner[i] == id);
            }
        }
    }
}

/// Removing an identifier that is not listed changes nothing.
pub proof fn lemma_without_id_absent(s: Seq<Seq<char>>, id: Seq<char>)
    requires
        !s.contains(id),
    ensures
        without_id(s, id) == s,
    decreases s.len(),
{
    if s.len() > 0 {
        assert(s.last() == s[s.len() - 1]);
        assert forall|x: Seq<char>| s.drop_last().contains(x) implies s.contains(x) by {
            let i = choose|i: int| 0 <= i < s.drop_last().len() && s.drop_last()[i] == x;
            assert(s[i] == x);
        }
        lemma_without_id_absent(s.drop_last(), id);
        assert(s.drop_last().push(s.last()) =~= s);
    }
}

/// In a list without repeats, removing an identifier removes the one
/// position at which it stands.
pub proof fn lemma_without_id_unique(s: Seq<Seq<char>>, id: Seq<char>, k: int)
    requires
        s.no_duplicates(),
        0 <= k < s.len(),
        s[k] == id,
    ensures
        without_id(s, id) == s.remove(k),
    decreases s.len(),
{
    let t = s.drop_last();
    if k == s.len() - 1 {
        assert forall|x: Seq<char>| t.contains(x) implies x != id by {
            let i = choose|i: int| 0 <= i < t.len() && t[i] == x;
            assert(s[i] == x);
        }
        lemma_without_id_absent(t, id);
        assert(s.remove(k) =~= t);
    } else {
        assert(t.no_duplicates());
        assert(t[k] == id);
        lemma_without_id_unique(t, id, k);
        assert(s.last() != id);
        assert(t.remove(k).push(s.last()) =~= s.remove(k));
    }
}

/// A list without repeats has none after one entry is removed.
pub proof fn lemma_remove_keeps_distinct(s: Seq<Seq<char>>, k: int)
    requires
        s.no_duplicates(),
        0 <= k < s.len(),
    ensures
        s.remove(k).no_duplicates(),
{
    let r = s.remove(k);
    assert forall|i: int, j: int| 0 <= i < r.len() && 0 <= j < r.len() && i != j implies r[i]
        != r[j] by {
        let a = if i < k {
            i
        } else {
            i + 1
        };
        let b = if j < k {
            j
        } else {
            j + 1
        };
        assert(r[i] == s[a]);
        assert(r[j] == s[b]);
    }
}

} // verus!
