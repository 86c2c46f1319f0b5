//! One job from queue to completion: what is written to the table at each
//! step, and what the worker does next.
//!
//! The worker runs the stages; after each it reports here, and is told how
//! to go on. Every step writes the worker's copy of the job to the table;
//! a write that the table refuses, because the job was cancelled or
//! deleted in the meantime, ends the run.

use vstd::prelude::*;
use crate::engine::AppState;
use crate::error::{display_of, AppError, AppResult, ErrorKind};
use crate::job::{now_millis, timestamp_in_range, Job, JobView};
use crate::retry::{is_retryable_error, retryable};
use crate::status::JobStatus;
use crate::store::{after_update, find_row, update_failure};
use crate::text::{lowercase_of, opt_text, push_str, string_of};

verus! {

/// What the worker does after the download stage.
#[derive(Debug, Clone, Copy, PartialEq, Eq, Structural)]
pub enum AfterDownload {
    /// Run the transcode stage on the downloaded file.
    Transcode,
    /// Stop, and unlink every file of the job.
    CleanupJob,
}

/// What the worker does after the transcode stage.
#[derive(Debug, Clone)]
pub enum AfterTranscode {
    /// The job is complete: unlink the downloaded file, if one is
    /// recorded, and keep the output.
    KeepOutput { remove: Option<String> },
    /// Stop, and unlink every file of the job.
    CleanupJob,
}

/// The failure that a stage reports in the end: a failure that was worth
/// retrying is reported as the stage's own kind, with the given words in
/// front of its printed form; any other failure is reported as it is.
pub open spec fn final_failure(
    kind: ErrorKind,
    lead: Seq<char>,
    failure: (ErrorKind, Seq<char>),
    worth_retrying: bool,
) -> (ErrorKind, Seq<char>) {
    if worth_retrying {
        (kind, lead + display_of(failure.0, failure.1))
    } else {
        failure
    }
}

/// Whether a failure is worth retrying, the message being compared in lower case.
pub open spec fn worth_retrying(failure: (ErrorKind, Seq<char>)) -> bool {
    retryable(failure.0, lowercase_of(failure.1))
}

/// The failure that the download stage reports in the end.
pub open spec fn download_final(failure: (ErrorKind, Seq<char>)) -> (ErrorKind, Seq<char>) {
    final_failure(
        ErrorKind::Download,
        "Download failed after retries: "@,
        failure,
        worth_retrying(failure),
    )
}

/// The failure that the transcode stage reports in the end.
pub open spec fn processing_final(failure: (ErrorKind, Seq<char>)) -> (ErrorKind, Seq<char>) {
    final_failure(
        ErrorKind::Processing,
        "Processing failed after retries: "@,
        failure,
        worth_retrying(failure),
    )
}

/// A status from which the run of a job may start: the job waits, claimed
/// or not. A job that is with a worker already, or has reached a final
/// status, is not started again.
pub open spec fn may_start(status: JobStatus) -> bool {
    status == JobStatus::Pending || status == JobStatus::Claimed
}

/// The worker's copy of a job when the download stage has begun.
pub open spec fn downloading(job: JobView, now: int) -> JobView {
    (JobView { status: JobStatus::Downloading, ..job }).touched(now)
}

/// The worker's copy of a job when the downloaded file has been recorded.
pub open spec fn downloaded(job: JobView, path: Seq<char>, now: int) -> JobView {
    (JobView { downloaded_path: Some(path), ..job }).touched(now)
}

/// The worker's copy of a job when the transcode stage has begun.
pub open spec fn processing(job: JobView, now: int) -> JobView {
    (JobView { status: JobStatus::Processing, ..job }).touched(now)
}

/// The worker's copy of a job that has failed with the given failure.
pub open spec fn failed(job: JobView, failure: (ErrorKind, Seq<char>), now: int) -> JobView {
    (JobView {
        status: JobStatus::Failed,
        error_message: Some(display_of(failure.0, failure.1)),
        ..job
    }).touched(now)
}

/// A duration in whole seconds as the table stores it.
pub open spec fn stored_seconds(seconds: u64) -> int {
    if seconds <= i64::MAX {
        seconds as int
    } else {
        i64::MAX as int
    }
}

/// The worker's copy of a job that is complete.
pub open spec fn completed(job: JobView, output: Seq<char>, seconds: u64, now: int) -> JobView {
    (JobView {
        status: JobStatus::Completed,
        processed_path: Some(output),
        processing_time_seconds: Some(stored_seconds(seconds)),
        ..job
    }).touched(now)
}

/// Gives a failure the final form of its stage, the failure having been
/// classified already.
pub fn finalize_failure(kind: ErrorKind, lead: &str, failure: AppError, worth: bool) -> (e:
    AppError)
    ensures
        e@ == final_failure(kind, lead@, failure@, worth),
{
    if worth {
        let shown = failure.to_display_string();
        let mut m: Vec<char> = Vec::new();
        push_str(&mut m, lead);
        push_str(&mut m, shown.as_str());
        assert(m@ =~= lead@ + display_of(failure.spec_kind(), failure.spec_message()));
        AppError::new(kind, string_of(&m))
    } else {
        failure
    }
}

/// The failure that the download stage reports once its attempts are used up.
pub fn download_final_error(failure: AppError) -> (e: AppError)
    ensures
        e@ == download_final(failure@),
{
    let worth = is_retryable_error(&failure);
    finalize_failure(ErrorKind::Download, "Download failed after retries: ", failure, worth)
}

/// The failure that the transcode stage reports once its attempts are used up.
pub fn processing_final_error(failure: AppError) -> (e: AppError)
    ensures
        e@ == processing_final(failure@),
{
    let worth = is_retryable_error(&failure);
    finalize_failure(ErrorKind::Processing, "Processing failed after retries: ", failure, worth)
}

impl AppState {
    /// Writes the worker's copy of a job to the table at `now` and says
    /// whether the table took it.
    pub fn flush_at(&mut self, job: &Job, now: i64) -> (stored: bool)
        requires
            old(self).wf(),
        ensures
            final(self).wf(),
            final(self).same_services(*old(self)),
            stored == (update_failure(old(self)@.rows, job@) is None),
            final(self)@.rows == after_update(old(self)@.rows, job@, now as int),
            final(self)@.queue == old(self)@.queue,
    {
        self.job_repository.update_job_at(job, now).is_ok()
    }

    /// Starts the run of a job at `now`: reads its row and, if the job
    /// waits (`Pending` or `Claimed`), moves it to `Downloading`. Gives the
    /// worker its copy of the job, or `None` if there is no such job or it
    /// does not wait, in which case the worker drops it and nothing changes.
    pub fn begin_job_at(&mut self, job_id: &str, now: i64) -> (r: Option<Job>)
        requires
            old(self).wf(),
        ensures
            final(self).wf(),
            final(self).same_services(*old(self)),
            final(self)@.queue == old(self)@.queue,
            match r {
                Some(job) => {
                    &&& find_row(old(self)@.rows, job_id@) matches Some(row) && may_start(
                        row.status,
                    ) && job@ == downloading(row, now as int)
                    &&& final(self)@.rows == after_update(old(self)@.rows, job@, now as int)
                    &&& find_row(final(self)@.rows, job_id@) matches Some(stored) && stored.status
                        == JobStatus::Downloading
                },
                None => {
                    &&& final(self)@ == old(self)@
                    &&& find_row(old(self)@.rows, job_id@) matches Some(row) ==> !may_start(
                        row.status,
                    )
                },
            },
    {
        let mut job = match self.job_repository.get_job(job_id) {
            Some(job) => job,
            None => {
                return None;
            },
        };
        if !(job.status == JobStatus::Pending || job.status == JobStatus::Claimed) {
            return None;
        }
        let ghost row = job@;
        job.update_status_at(JobStatus::Downloading, now);
        proof {
            let rows = old(self)@.rows;
            assert(update_failure(rows, job@) is None);
            let k = crate::store::row_index(rows, job_id@);
            crate::store::lemma_find_row_at(rows, k);
            let next = crate::store::rewritten(rows[k], job@, now as int);
            crate::store::lemma_update_keeps_table(rows, k, next);
            crate::store::lemma_find_row_at(rows.update(k, next), k);
        }
        if self.flush_at(&job, now) {
            Some(job)
        } else {
            None
        }
    }

    /// Starts the run of a job now.
    pub fn begin_job(&mut self, job_id: &str) -> (r: Option<Job>)
        requires
            old(self).wf(),
        ensures
            final(self).wf(),
            final(self).same_services(*old(self)),
            final(self)@.queue == old(self)@.queue,
            match r {
                Some(job) => {
                    &&& find_row(old(self)@.rows, job_id@) matches Some(row) && may_start(
                        row.status,
                    ) && exists|now: int|
                        timestamp_in_range(now) && job@ == #[trigger] downloading(row, now)
                            && final(self)@.rows == after_update(old(self)@.rows, job@, now)
                    &&& find_row(final(self)@.rows, job_id@) matches Some(stored) && stored.status
                        == JobStatus::Downloading
                },
                None => {
                    &&& final(self)@ == old(self)@
                    &&& find_row(old(self)@.rows, job_id@) matches Some(row) ==> !may_start(
                        row.status,
                    )
                },
            },
    {
        let now = now_millis();
        let r = self.begin_job_at(job_id, now);
        proof {
            if r is Some {
                let row = find_row(old(self)@.rows, job_id@)->0;
                assert(r->0@ == downloading(row, now as int));
            }
        }
        r
    }

    /// Records the end of the download stage at `now`. On success the
    /// downloaded file is recorded and the job moves to `Processing`; on
    /// failure the job becomes `Failed` with the printed failure as its
    /// message. If the table no longer takes the job, the run ends.
    pub fn finish_download_at(&mut self, job: &mut Job, result: AppResult<String>, now: i64) -> (next:
        AfterDownload)
        requires
            old(self).wf(),
        ensures
            final(self).wf(),
            final(self).same_services(*old(self)),
            final(self)@.queue == old(self)@.queue,
            match result {
                Ok(path) => {
                    let first = downloaded(old(job)@, path@, now as int);
                    let second = processing(first, now as int);
                    let rows = after_update(old(self)@.rows, first, now as int);
                    &&& final(job)@ == second
                    &&& final(self)@.rows == after_update(rows, second, now as int)
                    &&& next == if update_failure(rows, second) is None {
                        AfterDownload::Transcode
                    } else {
                        AfterDownload::CleanupJob
                    }
                },
                Err(e) => {
                    &&& final(job)@ == failed(old(job)@, download_final(e@), now as int)
                    &&& final(self)@.rows == after_update(
                        old(self)@.rows,
                        final(job)@,
                        now as int,
                    )
                    &&& next == AfterDownload::CleanupJob
                },
            },
    {
        match result {
            Ok(path) => {
                job.set_downloaded_path_at(path, now);
                let _ = self.flush_at(job, now);
                job.update_status_at(JobStatus::Processing, now);
                if self.flush_at(job, now) {
                    AfterDownload::Transcode
                } else {
                    AfterDownload::CleanupJob
                }
            },
            Err(e) => {
                let shown = download_final_error(e).to_display_string();
                job.set_error_at(shown, now);
                let _ = self.flush_at(job, now);
                AfterDownload::CleanupJob
            },
        }
    }

    /// Records the end of the transcode stage at `now`, `elapsed_secs`
    /// seconds after the run began. On success the output and the duration
    /// are recorded and the job becomes `Completed`; on failure the job
    /// becomes `Failed` with the printed failure as its message, and never
    /// `Completed`. If the table no longer takes the job, the run ends and
    /// the files of the job are to be unlinked.
    pub fn finish_transcode_at(
        &mut self,
        job: &mut Job,
        result: AppResult<String>,
        elapsed_secs: u64,
        now: i64,
    ) -> (next: AfterTranscode)
        requires
            old(self).wf(),
        ensures
            final(self).wf(),
            final(self).same_services(*old(self)),
            final(self)@.queue == old(self)@.queue,
            final(self)@.rows == after_update(old(self)@.rows, final(job)@, now as int),
            match result {
                Ok(output) => {
                    &&& final(job)@ == completed(old(job)@, output@, elapsed_secs, now as int)
                    &&& match next {
                        AfterTranscode::KeepOutput { remove } => update_failure(
                            old(self)@.rows,
                            final(job)@,
                        ) is None && opt_text(remove) == old(job)@.downloaded_path,
                        AfterTranscode::CleanupJob => update_failure(
                            old(self)@.rows,
                            final(job)@,
                        ) is Some,
                    }
                },
                Err(e) => {
                    &&& final(job)@ == failed(old(job)@, processing_final(e@), now as int)
                    &&& next is CleanupJob
                },
            },
    {
        match result {
            Ok(output) => {
                job.set_processed_path_at(output, now);
                job.update_status_at(JobStatus::Completed, now);
                job.set_processing_time_at(elapsed_secs, now);
                if self.flush_at(job, now) {
                    AfterTranscode::KeepOutput { remove: job.get_downloaded_path() }
                } else {
                    AfterTranscode::CleanupJob
                }
            },
            Err(e) => {
                let shown = processing_final_error(e).to_display_string();
                job.set_error_at(shown, now);
                let _ = self.flush_at(job, now);
                AfterTranscode::CleanupJob
            },
        }
    }
}

} // verus!
