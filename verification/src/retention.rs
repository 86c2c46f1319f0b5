//! The retention loop: how often it runs and what one run deletes.

use vstd::prelude::*;
use crate::job::{now_millis, timestamp_in_range};
use crate::status::JobStatus;
use crate::store::{
    count_status, expired, ids_of, kept, retention_cutoff, unexpired, JobRepository,
};

verus! {

/// The settings of the retention loop.
#[derive(Debug, Clone, Copy, PartialEq, Eq)]
pub struct RetentionService {
    retention_days: u32,
    cleanup_interval_hours: u64,
}

/// What one run of the loop did: the numbers of completed, failed and
/// cancelled jobs before it, the identifiers of the jobs it deleted, whose
/// files are to be unlinked, and the same three numbers after it.
#[derive(Debug)]
pub struct RetentionRun {
    pub before: (usize, usize, usize),
    pub deleted: Vec<String>,
    pub after: (usize, usize, usize),
}

/// The delay before the first run, in seconds.
pub const INITIAL_DELAY_SECS: u64 = 60;

/// The numbers of completed, failed and cancelled rows.
pub open spec fn finished_counts(rows: Seq<crate::job::JobView>) -> (nat, nat, nat) {
    (
        count_status(rows, JobStatus::Completed),
        count_status(rows, JobStatus::Failed),
        count_status(rows, JobStatus::Cancelled),
    )
}

impl RetentionService {
    /// The number of days that finished jobs are kept.
    pub closed spec fn days(&self) -> int {
        self.retention_days as int
    }

    /// The number of hours between runs.
    pub closed spec fn hours(&self) -> int {
        self.cleanup_interval_hours as int
    }

    /// The loop for the given settings.
    pub fn new(retention_days: u32, cleanup_interval_hours: u64) -> (s: RetentionService)
        ensures
            s.days() == retention_days,
            s.hours() == cleanup_interval_hours,
    {
        RetentionService { retention_days, cleanup_interval_hours }
    }

    /// The time between runs in seconds, or the largest number of seconds
    /// if that is less.
    pub fn interval_secs(&self) -> (secs: u64)
        ensures
            secs == if self.hours() * 3600 <= u64::MAX {
                self.hours() * 3600
            } else {
                u64::MAX as int
            },
    {
        match self.cleanup_interval_hours.checked_mul(3600) {
            Some(secs) => secs,
            None => u64::MAX,
        }
    }

    /// One run at `now`: deletes the finished jobs that were last changed
    /// before the cutoff, and reports the counts around it. Jobs that wait
    /// or run are never deleted.
    pub fn run_cleanup_at(&self, jobs: &mut JobRepository, now: i64) -> (run: RetentionRun)
        requires
            old(jobs).wf(),
        ensures
            final(jobs).wf(),
            final(jobs)@ == kept(
                old(jobs)@,
                unexpired(retention_cutoff(now as int, self.days())),
            ),
            Seq::new(run.deleted@.len(), |i: int| run.deleted@[i]@) == ids_of(
                kept(old(jobs)@, expired(retention_cutoff(now as int, self.days()))),
            ),
            (run.before.0 as nat, run.before.1 as nat, run.before.2 as nat) == finished_counts(
                old(jobs)@,
            ),
            (run.after.0 as nat, run.after.1 as nat, run.after.2 as nat) == finished_counts(
                final(jobs)@,
            ),
    {
        let before = jobs.get_cleanup_stats();
        let deleted = jobs.cleanup_old_jobs_at(self.retention_days, now);
        let after = jobs.get_cleanup_stats();
        RetentionRun { before, deleted, after }
    }

    /// One run now.
    pub fn run_cleanup(&self, jobs: &mut JobRepository) -> (run: RetentionRun)
        requires
            old(jobs).wf(),
        ensures
            final(jobs).wf(),
            exists|now: int|
                {
                    &&& timestamp_in_range(now)
                    &&& final(jobs)@ == kept(
                        old(jobs)@,
                        unexpired(#[trigger] retention_cutoff(now, self.days())),
                    )
                    &&& Seq::new(run.deleted@.len(), |i: int| run.deleted@[i]@) == ids_of(
                        kept(old(jobs)@, expired(retention_cutoff(now, self.days()))),
                    )
                },
            (run.before.0 as nat, run.before.1 as nat, run.before.2 as nat) == finished_counts(
                old(jobs)@,
            ),
            (run.after.0 as nat, run.after.1 as nat, run.after.2 as nat) == finished_counts(
                final(jobs)@,
            ),
    {
        let now = now_millis();
        let run = self.run_cleanup_at(jobs, now);
        proof {
            let cut = retention_cutoff(now as int, self.days());
            assert(final(jobs)@ == kept(old(jobs)@, unexpired(cut)));
        }
        run
    }

    /// One run now, asked for by hand.
    pub fn cleanup_now(&self, jobs: &mut JobRepository) -> (run: RetentionRun)
        requires
            old(jobs).wf(),
        ensures
            final(jobs).wf(),
            exists|now: int|
                {
                    &&& timestamp_in_range(now)
                    &&& final(jobs)@ == kept(
                        old(jobs)@,
                        unexpired(#[trigger] retention_cutoff(now, self.days())),
                    )
                    &&& Seq::new(run.deleted@.len(), |i: int| run.deleted@[i]@) == ids_of(
                        kept(old(jobs)@, expired(retention_cutoff(now, self.days()))),
                    )
                },
            (run.before.0 as nat, run.before.1 as nat, run.before.2 as nat) == finished_counts(
                old(jobs)@,
            ),
            (run.after.0 as nat, run.after.1 as nat, run.after.2 as nat) == finished_counts(
                final(jobs)@,
            ),
    {
        self.run_cleanup(jobs)
    }
}

} // verus!
