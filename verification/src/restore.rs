//! Bringing the queue back after a restart: every pending job is claimed
//! and queued again; jobs that were claimed or with a worker when the
//! process stopped are left as they are.

use vstd::prelude::*;
use crate::engine::{AppState, EngineView};
use crate::job::{later_of, now_millis, timestamp_in_range, JobView};
use crate::queue::{
    arrival_stamp, in_arrival_order, lemma_arrival_keeps_order, JobPriority, QueueView,
    QueuedJobView,
};
use crate::status::JobStatus;
use crate::store::{
    after_cas, cas_applies, find_row, has_row, kept, lemma_find_row_at, lemma_update_keeps_table,
    row_index, status_is, table_ok, views_of,
};

verus! {

/// What a restore did: how many jobs it queued, how many it passed over
/// because they were no longer pending, and how many it had to release
/// again because the queue refused them.
#[derive(Debug, Clone, Copy, PartialEq, Eq)]
pub struct RestoreReport {
    pub restored: usize,
    pub skipped: usize,
    pub failed: usize,
}

/// The table and the queue after one job has been restored at `now`: if
/// its row can be claimed, the row is claimed and the job is queued at
/// normal priority as one that arrives at `now`; if the queue refuses,
/// the claim is undone.
pub open spec fn restore_one(v: EngineView, job: JobView, now: int) -> EngineView {
    if cas_applies(v.rows, job.id, JobStatus::Claimed, Some(JobStatus::Pending)) {
        let claimed = after_cas(
            v.rows,
            job.id,
            JobStatus::Claimed,
            Some(JobStatus::Pending),
            now,
        );
        if v.queue.refusal() is None {
            EngineView {
                rows: claimed,
                queue: QueueView {
                    queued: v.queue.queued.push(
                        QueuedJobView {
                            job,
                            priority: JobPriority::Normal,
                            queued_at: arrival_stamp(v.queue.queued, now),
                        },
                    ),
                    ..v.queue
                },
            }
        } else {
            EngineView {
                rows: after_cas(
                    claimed,
                    job.id,
                    JobStatus::Pending,
                    Some(JobStatus::Claimed),
                    now,
                ),
                queue: v.queue,
            }
        }
    } else {
        v
    }
}

/// The table and the queue after the jobs have been restored in order.
pub open spec fn restore_all(v: EngineView, jobs: Seq<JobView>, now: int) -> EngineView
    decreases jobs.len(),
{
    if jobs.len() == 0 {
        v
    } else {
        restore_one(restore_all(v, jobs.drop_last(), now), jobs.last(), now)
    }
}

/// Restoring one job keeps the table as it should be, touches no row but
/// that of the job, and touches that row only if it is pending.
pub proof fn lemma_restore_one(v: EngineView, job: JobView, now: int, id: Seq<char>)
    requires
        table_ok(v.rows),
    ensures
        table_ok(restore_one(v, job, now).rows),
        has_row(restore_one(v, job, now).rows, id) == has_row(v.rows, id),
        (find_row(v.rows, id) matches Some(row) && (row.status != JobStatus::Pending || job.id
            != id)) ==> find_row(restore_one(v, job, now).rows, id) == find_row(v.rows, id),
{
    if cas_applies(v.rows, job.id, JobStatus::Claimed, Some(JobStatus::Pending)) {
        let k = row_index(v.rows, job.id);
        lemma_find_row_at(v.rows, k);
        let c = JobView {
            status: JobStatus::Claimed,
            updated_at: later_of(v.rows[k].updated_at, now),
            ..v.rows[k]
        };
        lemma_update_keeps_table(v.rows, k, c);
        let claimed = v.rows.update(k, c);
        assert(claimed[k] == c);
        lemma_find_row_at(claimed, k);
        if has_row(v.rows, id) {
            let at = row_index(v.rows, id);
            lemma_find_row_at(v.rows, at);
            if at != k {
                assert(claimed[at] == v.rows[at]);
                lemma_find_row_at(claimed, at);
            }
        }
        if !(v.queue.refusal() is None) {
            let p = JobView {
                status: JobStatus::Pending,
                updated_at: later_of(c.updated_at, now),
                ..c
            };
            lemma_update_keeps_table(claimed, k, p);
            let released = claimed.update(k, p);
            assert(released[k] == p);
            if has_row(v.rows, id) {
                let at = row_index(v.rows, id);
                if at != k {
                    assert(released[at] == v.rows[at]);
                    lemma_find_row_at(released, at);
                }
            }
        }
    }
}

/// A restore never touches a job that is not pending: a row that was
/// claimed, downloading, processing or in a final status before the
/// restore is the same row after it.
pub proof fn lemma_restore_spares_busy_jobs(
    v: EngineView,
    jobs: Seq<JobView>,
    now: int,
    id: Seq<char>,
)
    requires
        table_ok(v.rows),
        find_row(v.rows, id) matches Some(row) && row.status != JobStatus::Pending,
    ensures
        table_ok(restore_all(v, jobs, now).rows),
        find_row(restore_all(v, jobs, now).rows, id) == find_row(v.rows, id),
    decreases jobs.len(),
{
    if jobs.len() > 0 {
        lemma_restore_spares_busy_jobs(v, jobs.drop_last(), now, id);
        lemma_restore_one(restore_all(v, jobs.drop_last(), now), jobs.last(), now, id);
    }
}

/// A pending job is claimed and queued by its restore, if the queue takes
/// it: its row becomes `Claimed` and the job stands last in the queue, at
/// normal priority.
pub proof fn lemma_restore_queues_pending_job(v: EngineView, job: JobView, now: int)
    requires
        table_ok(v.rows),
        find_row(v.rows, job.id) matches Some(row) && row.status == JobStatus::Pending,
        v.queue.refusal() is None,
    ensures
        find_row(restore_one(v, job, now).rows, job.id) matches Some(row) && row.status
            == JobStatus::Claimed,
        restore_one(v, job, now).queue.queued == v.queue.queued.push(
            QueuedJobView {
                job,
                priority: JobPriority::Normal,
                queued_at: arrival_stamp(v.queue.queued, now),
            },
        ),
{
    let k = row_index(v.rows, job.id);
    lemma_find_row_at(v.rows, k);
    let c = JobView {
        status: JobStatus::Claimed,
        updated_at: later_of(v.rows[k].updated_at, now),
        ..v.rows[k]
    };
    lemma_update_keeps_table(v.rows, k, c);
    assert(v.rows.update(k, c)[k] == c);
    lemma_find_row_at(v.rows.update(k, c), k);
}

/// A restore keeps the queue in arrival order.
pub proof fn lemma_restore_keeps_arrival_order(v: EngineView, jobs: Seq<JobView>, now: int)
    requires
        in_arrival_order(v.queue.queued),
    ensures
        in_arrival_order(restore_all(v, jobs, now).queue.queued),
    decreases jobs.len(),
{
    if jobs.len() > 0 {
        lemma_restore_keeps_arrival_order(v, jobs.drop_last(), now);
        let mid = restore_all(v, jobs.drop_last(), now);
        lemma_arrival_keeps_order(
            mid.queue.queued,
            QueuedJobView {
                job: jobs.last(),
                priority: JobPriority::Normal,
                queued_at: arrival_stamp(mid.queue.queued, now),
            },
            now,
        );
    }
}

/// The queue entries that a restore makes of the jobs, all queued at `stamp`.
pub open spec fn restored_entries(jobs: Seq<JobView>, stamp: int) -> Seq<QueuedJobView> {
    Seq::new(
        jobs.len(),
        |i: int| QueuedJobView { job: jobs[i], priority: JobPriority::Normal, queued_at: stamp },
    )
}

/// Entries queued at the arrival stamp do not move it.
proof fn lemma_stamp_stays(s: Seq<QueuedJobView>, t: Seq<QueuedJobView>, now: int)
    requires
        forall|i: int| 0 <= i < t.len() ==> (#[trigger] t[i]).queued_at == arrival_stamp(s, now),
    ensures
        arrival_stamp(s + t, now) == arrival_stamp(s, now),
    decreases t.len(),
{
    if t.len() == 0 {
        assert(s + t =~= s);
    } else {
        let front = t.drop_last();
        assert forall|i: int| 0 <= i < front.len() implies (#[trigger] front[i]).queued_at
            == arrival_stamp(s, now) by {
            assert(front[i] == t[i]);
        }
        lemma_stamp_stays(s, front, now);
        assert((s + t).drop_last() =~= s + front);
        assert((s + t).last() == t[t.len() - 1]);
    }
}

/// What a restore has done after the first `n` of the pending jobs, while
/// the queue has room for all of them.
proof fn lemma_restore_prefix(v: EngineView, pending: Seq<JobView>, n: int, now: int)
    requires
        table_ok(v.rows),
        !v.queue.shutting_down,
        0 <= n <= pending.len(),
        v.queue.queued.len() + pending.len() <= v.queue.max_queue_size,
        forall|i: int|
            0 <= i < pending.len() ==> find_row(v.rows, (#[trigger] pending[i]).id) == Some(
                pending[i],
            ) && pending[i].status == JobStatus::Pending,
        forall|i: int, j: int|
            0 <= i < pending.len() && 0 <= j < pending.len() && i != j ==> (
            #[trigger] pending[i]).id != (#[trigger] pending[j]).id,
    ensures
        ({
            let after = restore_all(v, pending.take(n), now);
            &&& table_ok(after.rows)
            &&& after.queue == (QueueView {
                queued: v.queue.queued + restored_entries(
                    pending.take(n),
                    arrival_stamp(v.queue.queued, now),
                ),
                ..v.queue
            })
            &&& forall|i: int|
                0 <= i < n ==> (find_row(after.rows, (#[trigger] pending[i]).id) matches Some(row)
                    && row.status == JobStatus::Claimed)
            &&& forall|i: int|
                n <= i < pending.len() ==> find_row(after.rows, (#[trigger] pending[i]).id)
                    == Some(pending[i])
        }),
    decreases n,
{
    if n == 0 {
        assert(pending.take(0) =~= Seq::<JobView>::empty());
        assert(v.queue.queued + restored_entries(
            pending.take(0),
            arrival_stamp(v.queue.queued, now),
        ) =~= v.queue.queued);
    } else {
        lemma_restore_prefix(v, pending, n - 1, now);
        let job = pending[n - 1];
        assert(pending.take(n).drop_last() =~= pending.take(n - 1));
        assert(pending.take(n).last() == job);
        let mid = restore_all(v, pending.take(n - 1), now);
        let after = restore_one(mid, job, now);
        assert(after == restore_all(v, pending.take(n), now));
        assert(find_row(mid.rows, job.id) == Some(job));
        assert(mid.queue.queued.len() == v.queue.queued.len() + (n - 1));
        assert(mid.queue.refusal() is None);
        let stamp = arrival_stamp(v.queue.queued, now);
        lemma_stamp_stays(v.queue.queued, restored_entries(pending.take(n - 1), stamp), now);
        lemma_restore_queues_pending_job(mid, job, now);
        assert(after.queue.queued =~= v.queue.queued + restored_entries(pending.take(n), stamp));
        assert forall|i: int| 0 <= i < pending.len() && i != n - 1 implies find_row(
            after.rows,
            (#[trigger] pending[i]).id,
        ) == find_row(mid.rows, pending[i].id) by {
            lemma_restore_one(mid, job, now, pending[i].id);
        }
        lemma_restore_one(mid, job, now, job.id);
    }
}

/// A restore brings every pending job back, oldest first: while the queue
/// is open and has room for all of them, every job that was pending is
/// `Claimed` afterwards, and the queue holds what it held before followed
/// by the pending jobs in the order of their creation, at normal priority
/// and all with the same arrival stamp.
pub proof fn lemma_restore_queues_every_pending_job(v: EngineView, now: int)
    requires
        table_ok(v.rows),
        !v.queue.shutting_down,
        v.queue.queued.len() + kept(v.rows, status_is(Some(JobStatus::Pending))).len()
            <= v.queue.max_queue_size,
    ensures
        ({
            let pending = kept(v.rows, status_is(Some(JobStatus::Pending)));
            let after = restore_all(v, pending, now);
            &&& after.queue.queued == v.queue.queued + restored_entries(
                pending,
                arrival_stamp(v.queue.queued, now),
            )
            &&& forall|i: int|
                0 <= i < pending.len() ==> (find_row(after.rows, (#[trigger] pending[i]).id)
                    matches Some(row) && row.status == JobStatus::Claimed)
        }),
{
    let keep = status_is(Some(JobStatus::Pending));
    let pending = kept(v.rows, keep);
    crate::store::lemma_kept(v.rows, keep);
    assert forall|i: int| 0 <= i < pending.len() implies find_row(
        v.rows,
        (#[trigger] pending[i]).id,
    ) == Some(pending[i]) && pending[i].status == JobStatus::Pending by {
        assert(pending.contains(pending[i]));
        assert(v.rows.contains(pending[i]) && keep(pending[i]));
        let k = choose|k: int| 0 <= k < v.rows.len() && v.rows[k] == pending[i];
        lemma_find_row_at(v.rows, k);
    }
    lemma_restore_prefix(v, pending, pending.len() as int, now);
    assert(pending.take(pending.len() as int) =~= pending);
}

impl AppState {
    /// Restores the queue at `now`: every pending job, oldest first, is
    /// claimed and queued at normal priority; a job that the queue refuses
    /// is released again. Jobs in any other status are not touched.
    pub fn restore_pending_jobs_at(&mut self, now: i64) -> (report: RestoreReport)
        requires
            old(self).wf(),
        ensures
            final(self).wf(),
            final(self).same_services(*old(self)),
            final(self)@ == restore_all(
                old(self)@,
                kept(old(self)@.rows, status_is(Some(JobStatus::Pending))),
                now as int,
            ),
            report.restored + report.skipped + report.failed == kept(
                old(self)@.rows,
                status_is(Some(JobStatus::Pending)),
            ).len(),
            report.restored == final(self)@.queue.queued.len() - old(self)@.queue.queued.len(),
    {
        let pending = self.job_repository.get_pending_jobs();
        let ghost jobs = views_of(pending@);
        let ghost start = self@;
        let mut report = RestoreReport { restored: 0, skipped: 0, failed: 0 };
        let mut i: usize = 0;
        while i < pending.len()
            invariant
                i <= pending@.len(),
                jobs == views_of(pending@),
                start == old(self)@,
                self.wf(),
                self.same_services(*old(self)),
                self@ == restore_all(start, jobs.take(i as int), now as int),
                report.restored + report.skipped + report.failed == i,
                report.restored == self@.queue.queued.len() - start.queue.queued.len(),
            decreases pending@.len() - i,
        {
            proof {
                assert(jobs.take(i + 1).drop_last() =~= jobs.take(i as int));
                assert(jobs.take(i + 1).last() == pending@[i as int]@);
            }
            let job = &pending[i];
            if self.job_repository.try_claim_pending_job_at(job.id.as_str(), now) {
                match self.job_queue.enqueue_arrival_at(
                    job.duplicate(),
                    JobPriority::Normal,
                    now,
                ) {
                    Ok(_) => {
                        report.restored = report.restored + 1;
                    },
                    Err(_) => {
                        let _ = self.job_repository.unclaim_job_at(job.id.as_str(), now);
                        report.failed = report.failed + 1;
                    },
                }
            } else {
                report.skipped = report.skipped + 1;
            }
            i += 1;
        }
        assert(jobs.take(i as int) =~= jobs);
        report
    }

    /// Restores the queue now.
    pub fn restore_pending_jobs(&mut self) -> (report: RestoreReport)
        requires
            old(self).wf(),
        ensures
            final(self).wf(),
            final(self).same_services(*old(self)),
            exists|now: int|
                timestamp_in_range(now) && final(self)@ == #[trigger] restore_all(
                    old(self)@,
                    kept(old(self)@.rows, status_is(Some(JobStatus::Pending))),
                    now,
                ),
            report.restored + report.skipped + report.failed == kept(
                old(self)@.rows,
                status_is(Some(JobStatus::Pending)),
            ).len(),
            report.restored == final(self)@.queue.queued.len() - old(self)@.queue.queued.len(),
    {
        let now = now_millis();
        let report = self.restore_pending_jobs_at(now);
        assert(final(self)@ == restore_all(
            old(self)@,
            kept(old(self)@.rows, status_is(Some(JobStatus::Pending))),
            now as int,
        ));
        report
    }
}

} // verus!
