//! The table of job rows and its rules: one row per identifier, status
//! changes along the legal moves only, and nothing ever leaves a final
//! status.
//!
//! The table lives in memory and is the single writer of job state; a
//! durable backend records each change after the table has accepted it.

use vstd::prelude::*;
use crate::error::{AppError, AppResult, ErrorKind};
use crate::job::{copy_opt_text, later_of, now_millis, timestamp_in_range, Job, JobView};
use crate::status::{is_terminal, may_become, status_name, JobStatus};
use crate::text::{chars_of, push_str, same_chars, string_of};

verus! {

/// The rows of the table, oldest first.
pub struct JobRepository {
    rows: Vec<Job>,
}

/// No two rows share an identifier.
pub open spec fn ids_unique(rows: Seq<JobView>) -> bool {
    forall|i: int, j: int|
        0 <= i < rows.len() && 0 <= j < rows.len() && i != j ==> (#[trigger] rows[i]).id != (
        #[trigger] rows[j]).id
}

/// The rows stand in the order of their creation instants.
pub open spec fn sorted_by_creation(rows: Seq<JobView>) -> bool {
    forall|i: int, j: int|
        0 <= i <= j < rows.len() ==> (#[trigger] rows[i]).created_at <= (
        #[trigger] rows[j]).created_at
}

/// A completed job without its output recorded: what no row may be.
pub open spec fn output_missing(row: JobView) -> bool {
    row.status == JobStatus::Completed && row.processed_path is None
}

/// Every completed job has its output recorded.
pub open spec fn outputs_recorded(rows: Seq<JobView>) -> bool {
    forall|i: int| 0 <= i < rows.len() ==> !output_missing(#[trigger] rows[i])
}

/// A table as it should be: unique identifiers, oldest row first, and the
/// output recorded for every completed job.
pub open spec fn table_ok(rows: Seq<JobView>) -> bool {
    ids_unique(rows) && sorted_by_creation(rows) && outputs_recorded(rows)
}

/// Some row has the identifier `id`.
pub open spec fn has_row(rows: Seq<JobView>, id: Seq<char>) -> bool {
    exists|i: int| 0 <= i < rows.len() && (#[trigger] rows[i]).id == id
}

/// The position of the row with identifier `id`; meaningful where there is one.
pub open spec fn row_index(rows: Seq<JobView>, id: Seq<char>) -> int {
    choose|i: int| 0 <= i < rows.len() && (#[trigger] rows[i]).id == id
}

/// The row with identifier `id`, if there is one.
pub open spec fn find_row(rows: Seq<JobView>, id: Seq<char>) -> Option<JobView> {
    if has_row(rows, id) {
        Some(rows[row_index(rows, id)])
    } else {
        None
    }
}

/// Where a row created at `created_at` goes: after the last row that was
/// created no later.
pub open spec fn insert_position(rows: Seq<JobView>, created_at: int) -> int
    decreases rows.len(),
{
    if rows.len() == 0 {
        0
    } else if rows.last().created_at > created_at {
        insert_position(rows.drop_last(), created_at)
    } else {
        rows.len() as int
    }
}

/// The words with which the table refuses a second row for an identifier.
pub open spec fn duplicate_message(id: Seq<char>) -> Seq<char> {
    "Failed to create job: a job with id "@ + id + " already exists"@
}

/// The words with which the table refuses a completed job without output.
pub open spec fn output_missing_message(id: Seq<char>) -> Seq<char> {
    "Completed job has no processed path: "@ + id
}

/// The failure with which the table refuses a new row, or `None` where it
/// takes it: the identifier must be unused, and a completed job must come
/// with its output.
pub open spec fn create_failure(rows: Seq<JobView>, job: JobView) -> Option<
    (ErrorKind, Seq<char>),
> {
    if has_row(rows, job.id) {
        Some((ErrorKind::Internal, duplicate_message(job.id)))
    } else if output_missing(job) {
        Some((ErrorKind::Internal, output_missing_message(job.id)))
    } else {
        None
    }
}

/// The table after an attempt to add the row `job`.
pub open spec fn after_create(rows: Seq<JobView>, job: JobView) -> Seq<JobView> {
    if create_failure(rows, job) is None {
        rows.insert(insert_position(rows, job.created_at), job)
    } else {
        rows
    }
}

/// The words with which the table reports a missing row.
pub open spec fn not_found_message(id: Seq<char>) -> Seq<char> {
    "Job not found: "@ + id
}

/// The words with which the table refuses an illegal move.
pub open spec fn illegal_move_message(from: JobStatus, to: JobStatus) -> Seq<char> {
    "Illegal status transition: "@ + status_name(from) + " -> "@ + status_name(to)
}

impl View for JobRepository {
    type V = Seq<JobView>;

    closed spec fn view(&self) -> Seq<JobView> {
        Seq::new(self.rows@.len(), |i: int| self.rows@[i]@)
    }
}

/// In a table with unique identifiers, the row found for the identifier of
/// the row at `k` is that row.
pub proof fn lemma_find_row_at(rows: Seq<JobView>, k: int)
    requires
        ids_unique(rows),
        0 <= k < rows.len(),
    ensures
        has_row(rows, rows[k].id),
        row_index(rows, rows[k].id) == k,
        find_row(rows, rows[k].id) == Some(rows[k]),
{
    assert(rows[k].id == rows[k].id);
    let found = row_index(rows, rows[k].id);
    assert(0 <= found < rows.len() && rows[found].id == rows[k].id);
}

impl JobRepository {
    /// The table is as it should be. The constructor gives such a table and
    /// every operation keeps it so.
    pub open spec fn wf(&self) -> bool {
        table_ok(self@)
    }

    /// An empty table.
    pub fn new() -> (t: JobRepository)
        ensures
            t.wf(),
            t@ == Seq::<JobView>::empty(),
    {
        let t = JobRepository { rows: Vec::new() };
        assert(t@ =~= Seq::<JobView>::empty());
        t
    }

    /// The number of rows.
    pub fn len(&self) -> (n: usize)
        ensures
            n == self@.len(),
    {
        self.rows.len()
    }

    fn position_of(&self, job_id: &str) -> (r: Option<usize>)
        ensures
            match r {
                Some(k) => k < self@.len() && self@[k as int].id == job_id@,
                None => !has_row(self@, job_id@),
            },
    {
        let id = chars_of(job_id);
        let mut i: usize = 0;
        while i < self.rows.len()
            invariant
                i <= self.rows@.len(),
                id@ == job_id@,
                forall|j: int| 0 <= j < i ==> (#[trigger] self@[j]).id != job_id@,
            decreases self.rows@.len() - i,
        {
            let here = chars_of(self.rows[i].id.as_str());
            if same_chars(&here, &id) {
                return Some(i);
            }
            i += 1;
        }
        None
    }

    /// The row with the given identifier, if there is one.
    pub fn get_job(&self, job_id: &str) -> (r: Option<Job>)
        requires
            self.wf(),
        ensures
            match r {
                Some(job) => find_row(self@, job_id@) == Some(job@),
                None => find_row(self@, job_id@) is None,
            },
    {
        match self.position_of(job_id) {
            Some(k) => {
                proof {
                    lemma_find_row_at(self@, k as int);
                }
                Some(self.rows[k].duplicate())
            },
            None => None,
        }
    }

    fn position_for(&self, created_at: i64) -> (p: usize)
        ensures
            p == insert_position(self@, created_at as int),
            p <= self@.len(),
            forall|j: int| p <= j < self@.len() ==> (#[trigger] self@[j]).created_at > created_at,
            p > 0 ==> self@[p - 1].created_at <= created_at,
    {
        let ghost rows = self@;
        let mut i: usize = self.rows.len();
        assert(rows.take(i as int) =~= rows);
        while i > 0 && self.rows[i - 1].created_at > created_at
            invariant
                i <= self.rows@.len(),
                rows == self@,
                insert_position(rows, created_at as int) == insert_position(
                    rows.take(i as int),
                    created_at as int,
                ),
                forall|j: int| i <= j < rows.len() ==> (#[trigger] rows[j]).created_at > created_at,
            decreases i,
        {
            proof {
                assert(rows.take(i as int).drop_last() =~= rows.take(i - 1));
                assert(rows.take(i as int).last() == rows[i - 1]);
            }
            i -= 1;
        }
        proof {
            if i > 0 {
                assert(rows.take(i as int).last() == rows[i - 1]);
            }
        }
        i
    }

    /// Adds a row. Fails, and changes nothing, if a row with the same
    /// identifier exists or if the job is completed without its output;
    /// otherwise the row goes after the last row that was created no later
    /// than it.
    pub fn create_job(&mut self, job: &Job) -> (r: AppResult<()>)
        requires
            old(self).wf(),
        ensures
            final(self).wf(),
            crate::error::failure_of(r) == create_failure(old(self)@, job@),
            final(self)@ == after_create(old(self)@, job@),
    {
        if self.position_of(job.id.as_str()).is_some() {
            let mut m: Vec<char> = Vec::new();
            push_str(&mut m, "Failed to create job: a job with id ");
            push_str(&mut m, job.id.as_str());
            push_str(&mut m, " already exists");
            assert(m@ =~= duplicate_message(job@.id));
            return Err(AppError::Internal(string_of(&m)));
        }
        if job.status == JobStatus::Completed && job.processed_path.is_none() {
            let mut m: Vec<char> = Vec::new();
            push_str(&mut m, "Completed job has no processed path: ");
            push_str(&mut m, job.id.as_str());
            assert(m@ =~= output_missing_message(job@.id));
            return Err(AppError::Internal(string_of(&m)));
        }
        let p = self.position_for(job.created_at);
        self.rows.insert(p, job.duplicate());
        proof {
            let before = old(self)@;
            let after = self@;
            assert(after =~= before.insert(p as int, job@));
            assert forall|i: int, j: int|
                0 <= i < after.len() && 0 <= j < after.len() && i != j implies (
            #[trigger] after[i]).id != (#[trigger] after[j]).id by {
                let a = if i < p {
                    i
                } else {
                    i - 1
                };
                let b = if j < p {
                    j
                } else {
                    j - 1
                };
                if i != p {
                    assert(after[i] == before[a]);
                }
                if j != p {
                    assert(after[j] == before[b]);
                }
            }
            assert forall|i: int, j: int| 0 <= i <= j < after.len() implies (
            #[trigger] after[i]).created_at <= (#[trigger] after[j]).created_at by {
                let a = if i < p {
                    i
                } else {
                    i - 1
                };
                let b = if j < p {
                    j
                } else {
                    j - 1
                };
                if i != p {
                    assert(after[i] == before[a]);
                }
                if j != p {
                    assert(after[j] == before[b]);
                }
                if p > 0 && i < p {
                    assert(before[i].created_at <= before[p - 1].created_at);
                }
            }
            assert forall|i: int| 0 <= i < after.len() implies !output_missing(
                #[trigger] after[i],
            ) by {
                if i < p {
                    assert(after[i] == before[i]);
                } else if i > p {
                    assert(after[i] == before[i - 1]);
                }
            }
        }
        Ok(())
    }
}

/// The row `row` after it has been rewritten from `job` at `now`: the
/// status, the two paths, the message and the duration come from `job`;
/// identifier, URL and creation instant stay; the instant of the last
/// change moves forward to `now`.
pub open spec fn rewritten(row: JobView, job: JobView, now: int) -> JobView {
    JobView {
        status: job.status,
        updated_at: later_of(row.updated_at, now),
        downloaded_path: job.downloaded_path,
        processed_path: job.processed_path,
        error_message: job.error_message,
        processing_time_seconds: job.processing_time_seconds,
        ..row
    }
}

/// The failure with which the table refuses to rewrite the row of `job`,
/// or `None` where it accepts: the row must exist, its status must stay
/// or make a legal move, and a completed job must come with its output.
pub open spec fn update_failure(rows: Seq<JobView>, job: JobView) -> Option<
    (ErrorKind, Seq<char>),
> {
    match find_row(rows, job.id) {
        None => Some((ErrorKind::NotFound, not_found_message(job.id))),
        Some(row) => if !may_become(row.status, job.status) {
            Some((ErrorKind::Internal, illegal_move_message(row.status, job.status)))
        } else if output_missing(job) {
            Some((ErrorKind::Internal, output_missing_message(job.id)))
        } else {
            None
        },
    }
}

/// The table after an attempt to rewrite the row of `job` at `now`.
pub open spec fn after_update(rows: Seq<JobView>, job: JobView, now: int) -> Seq<JobView> {
    if update_failure(rows, job) is None {
        let k = row_index(rows, job.id);
        rows.update(k, rewritten(rows[k], job, now))
    } else {
        rows
    }
}

/// Whether a conditional status change takes effect: the row exists, has
/// the expected status if one is given, may take the new status, and has
/// its output recorded if the new status is `Completed`.
pub open spec fn cas_applies(
    rows: Seq<JobView>,
    id: Seq<char>,
    new_status: JobStatus,
    expected: Option<JobStatus>,
) -> bool {
    match find_row(rows, id) {
        None => false,
        Some(row) => (expected matches Some(e) ==> row.status == e) && may_become(
            row.status,
            new_status,
        ) && !output_missing(JobView { status: new_status, ..row }),
    }
}

/// The table after a conditional status change attempted at `now`.
pub open spec fn after_cas(
    rows: Seq<JobView>,
    id: Seq<char>,
    new_status: JobStatus,
    expected: Option<JobStatus>,
    now: int,
) -> Seq<JobView> {
    if cas_applies(rows, id, new_status, expected) {
        let k = row_index(rows, id);
        rows.update(
            k,
            JobView {
                status: new_status,
                updated_at: later_of(rows[k].updated_at, now),
                ..rows[k]
            },
        )
    } else {
        rows
    }
}

/// Replacing a row by one with the same identifier and creation instant
/// keeps the table as it should be, and the row is found where it was.
pub proof fn lemma_update_keeps_table(rows: Seq<JobView>, k: int, row: JobView)
    requires
        table_ok(rows),
        0 <= k < rows.len(),
        row.id == rows[k].id,
        row.created_at == rows[k].created_at,
        !output_missing(row),
    ensures
        table_ok(rows.update(k, row)),
        forall|id: Seq<char>| has_row(rows.update(k, row), id) == has_row(rows, id),
        forall|id: Seq<char>|
            has_row(rows, id) ==> row_index(rows.update(k, row), id) == row_index(rows, id),
{
    let after = rows.update(k, row);
    assert forall|i: int, j: int|
        0 <= i < after.len() && 0 <= j < after.len() && i != j implies (#[trigger] after[i]).id != (
    #[trigger] after[j]).id by {
        assert(after[i].id == rows[i].id);
        assert(after[j].id == rows[j].id);
    }
    assert forall|i: int, j: int| 0 <= i <= j < after.len() implies (
    #[trigger] after[i]).created_at <= (#[trigger] after[j]).created_at by {
        assert(after[i].created_at == rows[i].created_at);
        assert(after[j].created_at == rows[j].created_at);
    }
    assert forall|i: int| 0 <= i < after.len() implies !output_missing(#[trigger] after[i]) by {
        if i != k {
            assert(after[i] == rows[i]);
        }
    }
    assert forall|id: Seq<char>| has_row(after, id) == has_row(rows, id) by {
        if has_row(after, id) {
            let i = choose|i: int| 0 <= i < after.len() && (#[trigger] after[i]).id == id;
            assert(rows[i].id == id);
        }
        if has_row(rows, id) {
            let i = choose|i: int| 0 <= i < rows.len() && (#[trigger] rows[i]).id == id;
            assert(after[i].id == id);
        }
    }
    assert forall|id: Seq<char>| has_row(rows, id) implies row_index(after, id) == row_index(
        rows,
        id,
    ) by {
        let i = row_index(rows, id);
        assert(rows[i].id == id);
        assert(after[i].id == id);
        lemma_find_row_at(after, i);
    }
}

impl JobRepository {
    /// Rewrites the row of `job` at `now`. Fails, and changes nothing, if
    /// there is no such row or if the row would make an illegal move; a row
    /// in a final status therefore keeps that status.
    pub fn update_job_at(&mut self, job: &Job, now: i64) -> (r: AppResult<()>)
        requires
            old(self).wf(),
        ensures
            final(self).wf(),
            crate::error::failure_of(r) == update_failure(old(self)@, job@),
            final(self)@ == after_update(old(self)@, job@, now as int),
    {
        let k = match self.position_of(job.id.as_str()) {
            Some(k) => k,
            None => {
                let mut m: Vec<char> = Vec::new();
                push_str(&mut m, "Job not found: ");
                push_str(&mut m, job.id.as_str());
                assert(m@ =~= not_found_message(job@.id));
                return Err(AppError::NotFound(string_of(&m)));
            },
        };
        proof {
            lemma_find_row_at(self@, k as int);
        }
        let current = self.rows[k].status;
        if !(current == job.status || current.can_transition_to(job.status)) {
            let mut m: Vec<char> = Vec::new();
            push_str(&mut m, "Illegal status transition: ");
            push_str(&mut m, current.as_str());
            push_str(&mut m, " -> ");
            push_str(&mut m, job.status.as_str());
            assert(m@ =~= illegal_move_message(current, job@.status));
            return Err(AppError::Internal(string_of(&m)));
        }
        if job.status == JobStatus::Completed && job.processed_path.is_none() {
            let mut m: Vec<char> = Vec::new();
            push_str(&mut m, "Completed job has no processed path: ");
            push_str(&mut m, job.id.as_str());
            assert(m@ =~= output_missing_message(job@.id));
            return Err(AppError::Internal(string_of(&m)));
        }
        let row = &self.rows[k];
        let updated = Job {
            id: row.id.clone(),
            url: row.url.clone(),
            status: job.status,
            created_at: row.created_at,
            updated_at: if now > row.updated_at {
                now
            } else {
                row.updated_at
            },
            downloaded_path: copy_opt_text(&job.downloaded_path),
            processed_path: copy_opt_text(&job.processed_path),
            error_message: copy_opt_text(&job.error_message),
            processing_time_seconds: job.processing_time_seconds,
        };
        self.rows.set(k, updated);
        proof {
            let before = old(self)@;
            let next = rewritten(before[k as int], job@, now as int);
            assert(self@ =~= before.update(k as int, next));
            lemma_update_keeps_table(before, k as int, next);
        }
        Ok(())
    }

    /// Rewrites the row of `job` now.
    pub fn update_job(&mut self, job: &Job) -> (r: AppResult<()>)
        requires
            old(self).wf(),
        ensures
            final(self).wf(),
            crate::error::failure_of(r) == update_failure(old(self)@, job@),
            exists|now: int|
                timestamp_in_range(now) && final(self)@ == #[trigger] after_update(
                    old(self)@,
                    job@,
                    now,
                ),
    {
        let now = now_millis();
        let r = self.update_job_at(job, now);
        assert(final(self)@ == after_update(old(self)@, job@, now as int));
        r
    }

    /// Changes the status of a row at `now` if the row exists, has the
    /// expected status where one is given, and may take the new status.
    /// Says whether the row was changed; otherwise the table stays as it is.
    pub fn update_job_status_at(
        &mut self,
        job_id: &str,
        new_status: JobStatus,
        from_status: Option<JobStatus>,
        now: i64,
    ) -> (changed: bool)
        requires
            old(self).wf(),
        ensures
            final(self).wf(),
            changed == cas_applies(old(self)@, job_id@, new_status, from_status),
            final(self)@ == after_cas(old(self)@, job_id@, new_status, from_status, now as int),
    {
        let k = match self.position_of(job_id) {
            Some(k) => k,
            None => {
                return false;
            },
        };
        proof {
            lemma_find_row_at(self@, k as int);
        }
        let current = self.rows[k].status;
        let expected_ok = match from_status {
            Some(e) => current == e,
            None => true,
        };
        if !expected_ok || !(current == new_status || current.can_transition_to(new_status)) {
            return false;
        }
        if new_status == JobStatus::Completed && self.rows[k].processed_path.is_none() {
            return false;
        }
        let mut updated = self.rows[k].duplicate();
        updated.update_status_at(new_status, now);
        self.rows.set(k, updated);
        proof {
            let before = old(self)@;
            let next = JobView {
                status: new_status,
                updated_at: later_of(before[k as int].updated_at, now as int),
                ..before[k as int]
            };
            assert(self@ =~= before.update(k as int, next));
            lemma_update_keeps_table(before, k as int, next);
        }
        true
    }

    /// Changes the status of a row now, under the same conditions.
    pub fn update_job_status(
        &mut self,
        job_id: &str,
        new_status: JobStatus,
        from_status: Option<JobStatus>,
    ) -> (changed: bool)
        requires
            old(self).wf(),
        ensures
            final(self).wf(),
            changed == cas_applies(old(self)@, job_id@, new_status, from_status),
            exists|now: int|
                timestamp_in_range(now) && final(self)@ == #[trigger] after_cas(
                    old(self)@,
                    job_id@,
                    new_status,
                    from_status,
                    now,
                ),
    {
        let now = now_millis();
        let changed = self.update_job_status_at(job_id, new_status, from_status, now);
        assert(final(self)@ == after_cas(
            old(self)@,
            job_id@,
            new_status,
            from_status,
            now as int,
        ));
        changed
    }

    /// Claims a pending job at `now`: moves it from `Pending` to `Claimed`
    /// and says whether it did.
    pub fn try_claim_pending_job_at(&mut self, job_id: &str, now: i64) -> (claimed: bool)
        requires
            old(self).wf(),
        ensures
            final(self).wf(),
            claimed == cas_applies(
                old(self)@,
                job_id@,
                JobStatus::Claimed,
                Some(JobStatus::Pending),
            ),
            final(self)@ == after_cas(
                old(self)@,
                job_id@,
                JobStatus::Claimed,
                Some(JobStatus::Pending),
                now as int,
            ),
    {
        self.update_job_status_at(job_id, JobStatus::Claimed, Some(JobStatus::Pending), now)
    }

    /// Claims a pending job now.
    pub fn try_claim_pending_job(&mut self, job_id: &str) -> (claimed: bool)
        requires
            old(self).wf(),
        ensures
            final(self).wf(),
            claimed == cas_applies(
                old(self)@,
                job_id@,
                JobStatus::Claimed,
                Some(JobStatus::Pending),
            ),
            exists|now: int|
                timestamp_in_range(now) && final(self)@ == #[trigger] after_cas(
                    old(self)@,
                    job_id@,
                    JobStatus::Claimed,
                    Some(JobStatus::Pending),
                    now,
                ),
    {
        self.update_job_status(job_id, JobStatus::Claimed, Some(JobStatus::Pending))
    }

    /// Releases a claimed job at `now`: moves it from `Claimed` back to
    /// `Pending` and says whether it did.
    pub fn unclaim_job_at(&mut self, job_id: &str, now: i64) -> (released: bool)
        requires
            old(self).wf(),
        ensures
            final(self).wf(),
            released == cas_applies(
                old(self)@,
                job_id@,
                JobStatus::Pending,
                Some(JobStatus::Claimed),
            ),
            final(self)@ == after_cas(
                old(self)@,
                job_id@,
                JobStatus::Pending,
                Some(JobStatus::Claimed),
                now as int,
            ),
    {
        self.update_job_status_at(job_id, JobStatus::Pending, Some(JobStatus::Claimed), now)
    }

    /// Releases a claimed job now.
    pub fn unclaim_job(&mut self, job_id: &str) -> (released: bool)
        requires
            old(self).wf(),
        ensures
            final(self).wf(),
            released == cas_applies(
                old(self)@,
                job_id@,
                JobStatus::Pending,
                Some(JobStatus::Claimed),
            ),
            exists|now: int|
                timestamp_in_range(now) && final(self)@ == #[trigger] after_cas(
                    old(self)@,
                    job_id@,
                    JobStatus::Pending,
                    Some(JobStatus::Claimed),
                    now,
                ),
    {
        self.update_job_status(job_id, JobStatus::Pending, Some(JobStatus::Claimed))
    }
}

/// The rows of `rows` that `keep` accepts, in their order.
pub open spec fn kept(rows: Seq<JobView>, keep: spec_fn(JobView) -> bool) -> Seq<JobView>
    decreases rows.len(),
{
    if rows.len() == 0 {
        rows
    } else if keep(rows.last()) {
        kept(rows.drop_last(), keep).push(rows.last())
    } else {
        kept(rows.drop_last(), keep)
    }
}

/// Every kept row is a row that `keep` accepts, and a selection from a
/// table that is as it should be is so too.
pub proof fn lemma_kept(rows: Seq<JobView>, keep: spec_fn(JobView) -> bool)
    ensures
        kept(rows, keep).len() <= rows.len(),
        forall|x: JobView| #[trigger]
            kept(rows, keep).contains(x) ==> rows.contains(x) && keep(x),
        forall|x: JobView| #[trigger] rows.contains(x) && keep(x) ==> kept(rows, keep).contains(x),
        table_ok(rows) ==> table_ok(kept(rows, keep)),
    decreases rows.len(),
{
    let out = kept(rows, keep);
    if rows.len() > 0 {
        let front = rows.drop_last();
        let last = rows.last();
        lemma_kept(front, keep);
        let inner = kept(front, keep);
        assert forall|x: JobView| #[trigger] out.contains(x) implies rows.contains(x) && keep(
            x,
        ) by {
            let i = choose|i: int| 0 <= i < out.len() && out[i] == x;
            if keep(last) && i == out.len() - 1 {
                assert(rows[rows.len() - 1] == x);
            } else {
                assert(inner[i] == x);
                assert(inner.contains(x));
                assert(front.contains(x));
                let j = choose|j: int| 0 <= j < front.len() && front[j] == x;
                assert(rows[j] == x);
            }
        }
        assert forall|x: JobView| #[trigger] rows.contains(x) && keep(x) implies out.contains(
            x,
        ) by {
            let j = choose|j: int| 0 <= j < rows.len() && rows[j] == x;
            if j == rows.len() - 1 {
                assert(out[out.len() - 1] == x);
            } else {
                assert(front[j] == x);
                assert(front.contains(x));
                assert(inner.contains(x));
                let i = choose|i: int| 0 <= i < inner.len() && inner[i] == x;
                assert(out[i] == x);
            }
        }
        if table_ok(rows) {
            assert(table_ok(front)) by {
                assert forall|i: int, j: int|
                    0 <= i < front.len() && 0 <= j < front.len() && i != j implies (
                #[trigger] front[i]).id != (#[trigger] front[j]).id by {
                    assert(front[i] == rows[i]);
                    assert(front[j] == rows[j]);
                }
                assert forall|i: int, j: int| 0 <= i <= j < front.len() implies (
                #[trigger] front[i]).created_at <= (#[trigger] front[j]).created_at by {
                    assert(front[i] == rows[i]);
                    assert(front[j] == rows[j]);
                }
                assert forall|i: int| 0 <= i < front.len() implies !output_missing(
                    #[trigger] front[i],
                ) by {
                    assert(front[i] == rows[i]);
                }
            }
            assert(rows[rows.len() - 1] == last);
            assert forall|i: int| 0 <= i < out.len() implies !output_missing(#[trigger] out[i]) by {
                if i < inner.len() {
                    assert(out[i] == inner[i]);
                }
            }
            if keep(last) {
                assert forall|i: int| 0 <= i < inner.len() implies (#[trigger] inner[i]).id
                    != last.id && inner[i].created_at <= last.created_at by {
                    assert(inner.contains(inner[i]));
                    assert(front.contains(inner[i]));
                    let j = choose|j: int| 0 <= j < front.len() && front[j] == inner[i];
                    assert(rows[j] == inner[i]);
                    assert(rows[rows.len() - 1] == last);
                }
                assert forall|i: int, j: int|
                    0 <= i < out.len() && 0 <= j < out.len() && i != j implies (
                #[trigger] out[i]).id != (#[trigger] out[j]).id by {
                    if i < inner.len() {
                        assert(out[i] == inner[i]);
                    }
                    if j < inner.len() {
                        assert(out[j] == inner[j]);
                    }
                }
                assert forall|i: int, j: int| 0 <= i <= j < out.len() implies (
                #[trigger] out[i]).created_at <= (#[trigger] out[j]).created_at by {
                    if i < inner.len() {
                        assert(out[i] == inner[i]);
                    }
                    if j < inner.len() {
                        assert(out[j] == inner[j]);
                    }
                }
            }
        }
    }
}

/// The rows with the given status, or all rows where none is given.
pub open spec fn status_is(filter: Option<JobStatus>) -> spec_fn(JobView) -> bool {
    |row: JobView|
        match filter {
            Some(s) => row.status == s,
            None => true,
        }
}

/// The number of pages that `total` rows fill at `page_size` rows a page,
/// counted up to the largest 32-bit number. A page size of zero gives that
/// largest number if there are rows and zero if there are none.
pub open spec fn page_count(total: int, page_size: int) -> int {
    if page_size <= 0 {
        if total > 0 {
            u32::MAX as int
        } else {
            0
        }
    } else {
        let pages = (total + page_size - 1) / page_size;
        if pages > u32::MAX {
            u32::MAX as int
        } else {
            pages
        }
    }
}

/// Page number `page` of the rows, newest first, at `page_size` rows a page.
pub open spec fn page_of(matching: Seq<JobView>, page: int, page_size: int) -> Seq<JobView> {
    let newest_first = matching.reverse();
    let total = newest_first.len() as int;
    let start = if page * page_size < total {
        page * page_size
    } else {
        total
    };
    let end = if start + page_size < total {
        start + page_size
    } else {
        total
    };
    newest_first.subrange(start, end)
}

/// The newest row for `url` that is not in a final status, if there is one.
pub open spec fn newest_active(rows: Seq<JobView>, url: Seq<char>) -> Option<JobView>
    decreases rows.len(),
{
    if rows.len() == 0 {
        None
    } else if rows.last().url == url && !is_terminal(rows.last().status) {
        Some(rows.last())
    } else {
        newest_active(rows.drop_last(), url)
    }
}

/// The rows at the given positions.
pub open spec fn picked(rows: Seq<JobView>, positions: Seq<usize>) -> Seq<JobView> {
    Seq::new(positions.len(), |i: int| rows[positions[i] as int])
}

/// The views of the jobs in a vector.
pub open spec fn views_of(jobs: Seq<Job>) -> Seq<JobView> {
    Seq::new(jobs.len(), |i: int| jobs[i]@)
}

impl JobRepository {
    fn matching(&self, filter: Option<JobStatus>) -> (found: Vec<usize>)
        ensures
            picked(self@, found@) == kept(self@, status_is(filter)),
            forall|i: int| 0 <= i < found@.len() ==> (#[trigger] found@[i]) < self@.len(),
    {
        let ghost rows = self@;
        let ghost keep = status_is(filter);
        let mut found: Vec<usize> = Vec::new();
        let mut i: usize = 0;
        assert(picked(rows, found@) =~= kept(rows.take(0), keep));
        while i < self.rows.len()
            invariant
                i <= self.rows@.len(),
                rows == self@,
                keep == status_is(filter),
                picked(rows, found@) == kept(rows.take(i as int), keep),
                forall|j: int| 0 <= j < found@.len() ==> (#[trigger] found@[j]) < i,
            decreases self.rows@.len() - i,
        {
            proof {
                assert(rows.take(i + 1).drop_last() =~= rows.take(i as int));
                assert(rows.take(i + 1).last() == rows[i as int]);
            }
            let wanted = match filter {
                Some(s) => self.rows[i].status == s,
                None => true,
            };
            let ghost prev = found@;
            if wanted {
                found.push(i);
                assert(picked(rows, found@) =~= picked(rows, prev).push(rows[i as int]));
            }
            i += 1;
        }
        assert(rows.take(i as int) =~= rows);
        found
    }

    /// All rows, newest first.
    pub fn list_all_jobs(&self) -> (jobs: Vec<Job>)
        ensures
            views_of(jobs@) == kept(self@, status_is(None)).reverse(),
    {
        self.newest_first(None)
    }

    /// The rows with the given status, newest first.
    pub fn list_jobs_by_status(&self, status: JobStatus) -> (jobs: Vec<Job>)
        ensures
            views_of(jobs@) == kept(self@, status_is(Some(status))).reverse(),
    {
        self.newest_first(Some(status))
    }

    fn newest_first(&self, filter: Option<JobStatus>) -> (jobs: Vec<Job>)
        ensures
            views_of(jobs@) == kept(self@, status_is(filter)).reverse(),
    {
        let found = self.matching(filter);
        let ghost all = kept(self@, status_is(filter));
        let n = found.len();
        let mut jobs: Vec<Job> = Vec::new();
        let mut t: usize = 0;
        while t < n
            invariant
                t <= n,
                n == found@.len(),
                all == kept(self@, status_is(filter)),
                picked(self@, found@) == all,
                forall|i: int| 0 <= i < found@.len() ==> (#[trigger] found@[i]) < self@.len(),
                views_of(jobs@) == all.reverse().subrange(0, t as int),
            decreases n - t,
        {
            assert(found@.len() == all.len());
            let k = found[n - 1 - t];
            assert(picked(self@, found@)[n - 1 - t] == self@[k as int]);
            let ghost prev = views_of(jobs@);
            jobs.push(self.rows[k].duplicate());
            proof {
                assert(views_of(jobs@) =~= prev.push(self@[k as int]));
                assert(all.reverse()[t as int] == all[n - 1 - t]);
                assert(views_of(jobs@) =~= all.reverse().subrange(0, t + 1));
            }
            t += 1;
        }
        assert(all.reverse().subrange(0, n as int) =~= all.reverse());
        jobs
    }

    /// One page of the rows with the given status (or of all rows), newest
    /// first, and the number of pages there are.
    pub fn list_jobs_paginated(&self, page: u32, page_size: u32, status_filter: Option<JobStatus>)
        -> (r: (Vec<Job>, u32))
        ensures
            views_of(r.0@) == page_of(
                kept(self@, status_is(status_filter)),
                page as int,
                page_size as int,
            ),
            r.1 == page_count(
                kept(self@, status_is(status_filter)).len() as int,
                page_size as int,
            ),
    {
        let found = self.matching(status_filter);
        let ghost all = kept(self@, status_is(status_filter));
        let n: usize = found.len();
        assert(found@.len() == all.len());
        assert(page * page_size <= 0xffff_ffff * 0xffff_ffff) by (nonlinear_arith)
            requires
                0 <= page <= 0xffff_ffff,
                0 <= page_size <= 0xffff_ffff,
        ;
        let offset: u64 = (page as u64) * (page_size as u64);
        let start: usize = if offset < n as u64 {
            offset as usize
        } else {
            n
        };
        let end: usize = if (page_size as u64) < (n - start) as u64 {
            start + page_size as usize
        } else {
            n
        };
        let mut jobs: Vec<Job> = Vec::new();
        let mut t: usize = start;
        while t < end
            invariant
                start <= t <= end <= n,
                n == found@.len(),
                all == kept(self@, status_is(status_filter)),
                picked(self@, found@) == all,
                forall|i: int| 0 <= i < found@.len() ==> (#[trigger] found@[i]) < self@.len(),
                views_of(jobs@) == all.reverse().subrange(start as int, t as int),
            decreases end - t,
        {
            assert(found@.len() == all.len());
            let k = found[n - 1 - t];
            assert(picked(self@, found@)[n - 1 - t] == self@[k as int]);
            let ghost prev = views_of(jobs@);
            jobs.push(self.rows[k].duplicate());
            proof {
                assert(views_of(jobs@) =~= prev.push(self@[k as int]));
                assert(all.reverse()[t as int] == all[n - 1 - t]);
                assert(views_of(jobs@) =~= all.reverse().subrange(start as int, t + 1));
            }
            t += 1;
        }
        let pages: u32 = if page_size == 0 {
            if n > 0 {
                u32::MAX
            } else {
                0
            }
        } else {
            let whole: u64 = (n as u64) / (page_size as u64);
            let rest: u64 = (n as u64) % (page_size as u64);
            assert(rest > 0 ==> whole < n) by (nonlinear_arith)
                requires
                    whole == n as int / page_size as int,
                    rest == n as int % page_size as int,
                    page_size >= 1,
                    n >= 0,
            ;
            let p: u64 = if rest > 0 {
                whole + 1
            } else {
                whole
            };
            proof {
                lemma_ceil_div(n as int, page_size as int);
            }
            if p > u32::MAX as u64 {
                u32::MAX
            } else {
                p as u32
            }
        };
        (jobs, pages)
    }

    /// The pending rows, oldest first.
    pub fn get_pending_jobs(&self) -> (jobs: Vec<Job>)
        ensures
            views_of(jobs@) == kept(self@, status_is(Some(JobStatus::Pending))),
    {
        let found = self.matching(Some(JobStatus::Pending));
        let ghost all = kept(self@, status_is(Some(JobStatus::Pending)));
        let mut jobs: Vec<Job> = Vec::new();
        let mut t: usize = 0;
        assert(found@.len() == all.len());
        while t < found.len()
            invariant
                t <= found@.len(),
                all == kept(self@, status_is(Some(JobStatus::Pending))),
                picked(self@, found@) == all,
                forall|i: int| 0 <= i < found@.len() ==> (#[trigger] found@[i]) < self@.len(),
                views_of(jobs@) == all.subrange(0, t as int),
            decreases found@.len() - t,
        {
            assert(found@.len() == all.len());
            let k = found[t];
            assert(picked(self@, found@)[t as int] == self@[k as int]);
            let ghost prev = views_of(jobs@);
            jobs.push(self.rows[k].duplicate());
            proof {
                assert(views_of(jobs@) =~= prev.push(self@[k as int]));
                assert(views_of(jobs@) =~= all.subrange(0, t + 1));
            }
            t += 1;
        }
        assert(all.subrange(0, all.len() as int) =~= all);
        jobs
    }

    /// The newest row for `url` whose job is still waiting or running.
    pub fn find_active_job_by_url(&self, url: &str) -> (r: Option<Job>)
        ensures
            match r {
                Some(job) => newest_active(self@, url@) == Some(job@),
                None => newest_active(self@, url@) is None,
            },
    {
        let wanted = chars_of(url);
        let ghost rows = self@;
        let mut i: usize = self.rows.len();
        assert(rows.take(i as int) =~= rows);
        while i > 0
            invariant
                i <= self.rows@.len(),
                rows == self@,
                wanted@ == url@,
                newest_active(rows, url@) == newest_active(rows.take(i as int), url@),
            decreases i,
        {
            proof {
                assert(rows.take(i as int).drop_last() =~= rows.take(i - 1));
                assert(rows.take(i as int).last() == rows[i - 1]);
            }
            let row = &self.rows[i - 1];
            let here = chars_of(row.url.as_str());
            if same_chars(&here, &wanted) && !row.status.is_terminal() {
                return Some(row.duplicate());
            }
            i -= 1;
        }
        None
    }
}

/// How many rows have each status.
#[derive(Debug, Clone, Copy, PartialEq, Eq)]
pub struct StatusCounts {
    pub pending: usize,
    pub claimed: usize,
    pub downloading: usize,
    pub processing: usize,
    pub completed: usize,
    pub failed: usize,
    pub cancelled: usize,
}

/// The number of rows with status `s`.
pub open spec fn count_status(rows: Seq<JobView>, s: JobStatus) -> nat
    decreases rows.len(),
{
    if rows.len() == 0 {
        0
    } else {
        count_status(rows.drop_last(), s) + if rows.last().status == s {
            1nat
        } else {
            0nat
        }
    }
}

/// The number of milliseconds in a day.
pub const MILLIS_PER_DAY: i64 = 86_400_000;

/// The instant before which a finished job is due for deletion, given the
/// number of days that finished jobs are kept.
pub open spec fn retention_cutoff(now: int, retention_days: int) -> int {
    now - retention_days * MILLIS_PER_DAY
}

/// A row that retention deletes: in a final status, last changed before the cutoff.
pub open spec fn is_expired(row: JobView, cutoff: int) -> bool {
    is_terminal(row.status) && row.updated_at < cutoff
}

/// The rows that retention deletes.
pub open spec fn expired(cutoff: int) -> spec_fn(JobView) -> bool {
    |row: JobView| is_expired(row, cutoff)
}

/// The rows that retention leaves.
pub open spec fn unexpired(cutoff: int) -> spec_fn(JobView) -> bool {
    |row: JobView| !is_expired(row, cutoff)
}

/// The identifiers of the rows, in their order.
pub open spec fn ids_of(rows: Seq<JobView>) -> Seq<Seq<char>> {
    Seq::new(rows.len(), |i: int| rows[i].id)
}

/// The table without the row for `id`.
pub open spec fn without_row(rows: Seq<JobView>, id: Seq<char>) -> Seq<JobView> {
    if has_row(rows, id) {
        rows.remove(row_index(rows, id))
    } else {
        rows
    }
}

/// Removing a row keeps the table as it should be.
pub proof fn lemma_remove_keeps_table(rows: Seq<JobView>, k: int)
    requires
        table_ok(rows),
        0 <= k < rows.len(),
    ensures
        table_ok(rows.remove(k)),
{
    let after = rows.remove(k);
    assert forall|i: int, j: int|
        0 <= i < after.len() && 0 <= j < after.len() && i != j implies (#[trigger] after[i]).id != (
    #[trigger] after[j]).id by {
        let a = if i < k {
            i
        } else {
            i + 1
        };
        let b = if j < k {
            j
        } else {
            j + 1
        };
        assert(after[i] == rows[a]);
        assert(after[j] == rows[b]);
    }
    assert forall|i: int, j: int| 0 <= i <= j < after.len() implies (
    #[trigger] after[i]).created_at <= (#[trigger] after[j]).created_at by {
        let a = if i < k {
            i
        } else {
            i + 1
        };
        let b = if j < k {
            j
        } else {
            j + 1
        };
        assert(after[i] == rows[a]);
        assert(after[j] == rows[b]);
    }
    assert forall|i: int| 0 <= i < after.len() implies !output_missing(#[trigger] after[i]) by {
        let a = if i < k {
            i
        } else {
            i + 1
        };
        assert(after[i] == rows[a]);
    }
}

impl JobRepository {
    /// How many rows have each status.
    pub fn get_job_stats(&self) -> (c: StatusCounts)
        ensures
            c.pending == count_status(self@, JobStatus::Pending),
            c.claimed == count_status(self@, JobStatus::Claimed),
            c.downloading == count_status(self@, JobStatus::Downloading),
            c.processing == count_status(self@, JobStatus::Processing),
            c.completed == count_status(self@, JobStatus::Completed),
            c.failed == count_status(self@, JobStatus::Failed),
            c.cancelled == count_status(self@, JobStatus::Cancelled),
    {
        let ghost rows = self@;
        let mut c = StatusCounts {
            pending: 0,
            claimed: 0,
            downloading: 0,
            processing: 0,
            completed: 0,
            failed: 0,
            cancelled: 0,
        };
        let mut i: usize = 0;
        while i < self.rows.len()
            invariant
                i <= self.rows@.len(),
                rows == self@,
                c.pending == count_status(rows.take(i as int), JobStatus::Pending),
                c.claimed == count_status(rows.take(i as int), JobStatus::Claimed),
                c.downloading == count_status(rows.take(i as int), JobStatus::Downloading),
                c.processing == count_status(rows.take(i as int), JobStatus::Processing),
                c.completed == count_status(rows.take(i as int), JobStatus::Completed),
                c.failed == count_status(rows.take(i as int), JobStatus::Failed),
                c.cancelled == count_status(rows.take(i as int), JobStatus::Cancelled),
                c.pending + c.claimed + c.downloading + c.processing + c.completed + c.failed
                    + c.cancelled == i,
            decreases self.rows@.len() - i,
        {
            proof {
                assert(rows.take(i + 1).drop_last() =~= rows.take(i as int));
                assert(rows.take(i + 1).last() == rows[i as int]);
            }
            match self.rows[i].status {
                JobStatus::Pending => {
                    c.pending = c.pending + 1;
                },
                JobStatus::Claimed => {
                    c.claimed = c.claimed + 1;
                },
                JobStatus::Downloading => {
                    c.downloading = c.downloading + 1;
                },
                JobStatus::Processing => {
                    c.processing = c.processing + 1;
                },
                JobStatus::Completed => {
                    c.completed = c.completed + 1;
                },
                JobStatus::Failed => {
                    c.failed = c.failed + 1;
                },
                JobStatus::Cancelled => {
                    c.cancelled = c.cancelled + 1;
                },
            }
            i += 1;
        }
        assert(rows.take(i as int) =~= rows);
        c
    }

    /// How many rows are completed, failed and cancelled, in that order.
    pub fn get_cleanup_stats(&self) -> (r: (usize, usize, usize))
        ensures
            r.0 == count_status(self@, JobStatus::Completed),
            r.1 == count_status(self@, JobStatus::Failed),
            r.2 == count_status(self@, JobStatus::Cancelled),
    {
        let c = self.get_job_stats();
        (c.completed, c.failed, c.cancelled)
    }

    /// Deletes the row with the given identifier, if there is one.
    pub fn delete_job(&mut self, job_id: &str)
        requires
            old(self).wf(),
        ensures
            final(self).wf(),
            final(self)@ == without_row(old(self)@, job_id@),
    {
        match self.position_of(job_id) {
            Some(k) => {
                proof {
                    lemma_find_row_at(self@, k as int);
                    lemma_remove_keeps_table(self@, k as int);
                }
                let _ = self.rows.remove(k);
                assert(self@ =~= old(self)@.remove(k as int));
            },
            None => {},
        }
    }

    /// Deletes the finished rows that were last changed more than
    /// `retention_days` days before `now`, and gives their identifiers.
    /// Rows of jobs that wait or run are never deleted, whatever their age.
    pub fn cleanup_old_jobs_at(&mut self, retention_days: u32, now: i64) -> (ids: Vec<String>)
        requires
            old(self).wf(),
        ensures
            final(self).wf(),
            final(self)@ == kept(
                old(self)@,
                unexpired(retention_cutoff(now as int, retention_days as int)),
            ),
            Seq::new(ids@.len(), |i: int| ids@[i]@) == ids_of(
                kept(old(self)@, expired(retention_cutoff(now as int, retention_days as int))),
            ),
    {
        let cutoff: i128 = (now as i128) - (retention_days as i128) * (MILLIS_PER_DAY as i128);
        let ghost cut = retention_cutoff(now as int, retention_days as int);
        let ghost before = self@;
        let ghost stay = unexpired(cut);
        let ghost gone = expired(cut);
        let mut ids: Vec<String> = Vec::new();
        let mut i: usize = 0;
        let ghost mut k: int = 0;
        proof {
            assert(before.take(0) =~= Seq::<JobView>::empty());
            assert(before.skip(0) =~= before);
            assert(kept(before.take(0), stay) + before.skip(0) =~= before);
            assert(Seq::new(ids@.len(), |i: int| ids@[i]@) =~= ids_of(kept(before.take(0), gone)));
        }
        while i < self.rows.len()
            invariant
                before == old(self)@,
                cutoff == cut,
                stay == unexpired(cut),
                gone == expired(cut),
                0 <= k <= before.len(),
                i == kept(before.take(k), stay).len(),
                i <= self.rows@.len(),
                self@ == kept(before.take(k), stay) + before.skip(k),
                Seq::new(ids@.len(), |i: int| ids@[i]@) == ids_of(kept(before.take(k), gone)),
                i == self.rows@.len() ==> k == before.len(),
            decreases self.rows@.len() - i,
        {
            proof {
                assert(k < before.len()) by {
                    assert(self@.len() == i + (before.len() - k));
                }
                assert(self@[i as int] == before.skip(k)[0]);
                assert(before.take(k + 1).drop_last() =~= before.take(k));
                assert(before.take(k + 1).last() == before[k]);
            }
            let ghost cur = self@;
            let ghost listed = Seq::new(ids@.len(), |i: int| ids@[i]@);
            let row = &self.rows[i];
            if row.status.is_terminal() && (row.updated_at as i128) < cutoff {
                let removed = self.rows.remove(i);
                ids.push(removed.id);
                proof {
                    assert(self@ =~= cur.remove(i as int));
                    assert(cur.remove(i as int) =~= kept(before.take(k + 1), stay) + before.skip(
                        k + 1,
                    ));
                    assert(Seq::new(ids@.len(), |i: int| ids@[i]@) =~= listed.push(before[k].id));
                    assert(listed.push(before[k].id) =~= ids_of(kept(before.take(k + 1), gone)));
                }
            } else {
                i += 1;
                proof {
                    assert(cur =~= kept(before.take(k + 1), stay) + before.skip(k + 1));
                }
            }
            proof {
                k = k + 1;
            }
        }
        proof {
            assert(before.take(k) =~= before);
            assert(before.skip(k) =~= Seq::<JobView>::empty());
            assert(self@ =~= kept(before, stay));
            lemma_kept(before, stay);
        }
        ids
    }

    /// Deletes the finished rows that were last changed more than
    /// `retention_days` days ago, and gives their identifiers.
    pub fn cleanup_old_jobs(&mut self, retention_days: u32) -> (ids: Vec<String>)
        requires
            old(self).wf(),
        ensures
            final(self).wf(),
            exists|now: int|
                {
                    &&& timestamp_in_range(now)
                    &&& final(self)@ == kept(
                        old(self)@,
                        unexpired(#[trigger] retention_cutoff(now, retention_days as int)),
                    )
                    &&& Seq::new(ids@.len(), |i: int| ids@[i]@) == ids_of(
                        kept(old(self)@, expired(retention_cutoff(now, retention_days as int))),
                    )
                },
    {
        let now = now_millis();
        let ids = self.cleanup_old_jobs_at(retention_days, now);
        proof {
            let cut = retention_cutoff(now as int, retention_days as int);
            assert(final(self)@ == kept(old(self)@, unexpired(cut)));
        }
        ids
    }
}

/// Whole quotient plus one for a remainder is the quotient rounded up.
proof fn lemma_ceil_div(n: int, d: int)
    requires
        n >= 0,
        d > 0,
    ensures
        (n + d - 1) / d == if n % d > 0 {
            n / d + 1
        } else {
            n / d
        },
{
    let q = n / d;
    let r = n % d;
    assert(n == q * d + r) by {
        vstd::arithmetic::div_mod::lemma_fundamental_div_mod(n, d);
        assert(d * q == q * d) by (nonlinear_arith);
    }
    if r > 0 {
        assert((n + d - 1) == (q + 1) * d + (r - 1)) by (nonlinear_arith)
            requires
                n == q * d + r,
        ;
        vstd::arithmetic::div_mod::lemma_fundamental_div_mod_converse(
            n + d - 1,
            d,
            q + 1,
            r - 1,
        );
    } else {
        assert((n + d - 1) == q * d + (d - 1)) by (nonlinear_arith)
            requires
                n == q * d + r,
                r == 0,
        ;
        vstd::arithmetic::div_mod::lemma_fundamental_div_mod_converse(
            n + d - 1,
            d,
            q,
            d - 1,
        );
    }
}

} // verus!
