//! The job record: one row of durable state per submitted URL.

use vstd::prelude::*;
use crate::status::{is_terminal, JobStatus};
use crate::text::opt_text;

verus! {

/// The latest instant, in milliseconds since the Unix epoch, that the
/// calendar library can represent: the last millisecond of the year 262142.
pub const MAX_TIMESTAMP_MS: i64 = 8_210_266_876_799_999;

/// A job as the store keeps it. Timestamps are milliseconds since the Unix
/// epoch, in UTC.
#[derive(Debug, Clone)]
pub struct Job {
    pub id: String,
    pub url: String,
    pub status: JobStatus,
    pub created_at: i64,
    pub updated_at: i64,
    pub downloaded_path: Option<String>,
    pub processed_path: Option<String>,
    pub error_message: Option<String>,
    pub processing_time_seconds: Option<i64>,
}

/// The mathematical content of a [`Job`].
pub struct JobView {
    pub id: Seq<char>,
    pub url: Seq<char>,
    pub status: JobStatus,
    pub created_at: int,
    pub updated_at: int,
    pub downloaded_path: Option<Seq<char>>,
    pub processed_path: Option<Seq<char>>,
    pub error_message: Option<Seq<char>>,
    pub processing_time_seconds: Option<int>,
}

/// An optional machine integer as an optional mathematical one.
pub open spec fn opt_int(o: Option<i64>) -> Option<int> {
    match o {
        Some(n) => Some(n as int),
        None => None,
    }
}

/// The later of two instants.
pub open spec fn later_of(a: int, b: int) -> int {
    if a >= b {
        a
    } else {
        b
    }
}

/// The text of a UUID in its usual form: 36 characters, hyphens at
/// positions 8, 13, 18 and 23, lower-case hexadecimal digits elsewhere.
pub open spec fn is_uuid_text(s: Seq<char>) -> bool {
    &&& s.len() == 36
    &&& forall|i: int|
        0 <= i < 36 ==> if i == 8 || i == 13 || i == 18 || i == 23 {
            #[trigger] s[i] == '-'
        } else {
            ('0' <= s[i] && s[i] <= '9') || ('a' <= s[i] && s[i] <= 'f')
        }
}

/// Whether an instant lies between the epoch and the latest instant that
/// can be shown as a date.
pub open spec fn timestamp_in_range(ms: int) -> bool {
    0 <= ms <= MAX_TIMESTAMP_MS
}

/// Draws a random version-4 identifier with `uuid::Uuid::new_v4` and prints
/// it with `to_string`. Whatever is drawn, the text has the usual UUID
/// form; `new_v4` panics where the operating system gives no random bytes.
#[verifier::external_body]
pub(crate) fn fresh_job_id() -> (id: String)
    ensures
        is_uuid_text(id@),
{
    uuid::Uuid::new_v4().to_string()
}

/// Reads the clock with `chrono::Utc::now` and gives the instant as
/// `timestamp_millis` does. Every instant that comes back is not before
/// the epoch and not after the latest representable date: `Utc::now`
/// does not return, but panics, where the system clock stands before the
/// epoch or beyond the calendar.
#[verifier::external_body]
pub(crate) fn now_millis() -> (ms: i64)
    ensures
        timestamp_in_range(ms as int),
{
    chrono::Utc::now().timestamp_millis()
}

/// The present instant in milliseconds since the Unix epoch.
pub fn current_millis() -> (ms: i64)
    ensures
        timestamp_in_range(ms as int),
{
    now_millis()
}

/// A copy of an optional string.
pub fn copy_opt_text(o: &Option<String>) -> (c: Option<String>)
    ensures
        opt_text(c) == opt_text(*o),
{
    match o {
        Some(s) => Some(s.clone()),
        None => None,
    }
}

impl View for Job {
    type V = JobView;

    open spec fn view(&self) -> JobView {
        JobView {
            id: self.id@,
            url: self.url@,
            status: self.status,
            created_at: self.created_at as int,
            updated_at: self.updated_at as int,
            downloaded_path: opt_text(self.downloaded_path),
            processed_path: opt_text(self.processed_path),
            error_message: opt_text(self.error_message),
            processing_time_seconds: opt_int(self.processing_time_seconds),
        }
    }
}

impl JobView {
    /// This record with `updated_at` moved forward to `now`, or left alone
    /// if `now` is earlier.
    pub open spec fn touched(self, now: int) -> JobView {
        JobView { updated_at: later_of(self.updated_at, now), ..self }
    }

    /// A job that has just been submitted.
    pub open spec fn fresh(id: Seq<char>, url: Seq<char>, now: int) -> JobView {
        JobView {
            id,
            url,
            status: JobStatus::Pending,
            created_at: now,
            updated_at: now,
            downloaded_path: None,
            processed_path: None,
            error_message: None,
            processing_time_seconds: None,
        }
    }

    /// Both timestamps can be shown as dates.
    pub open spec fn timestamps_in_range(self) -> bool {
        timestamp_in_range(self.created_at) && timestamp_in_range(self.updated_at)
    }
}

impl Job {
    /// A new pending job for `url`, with a random identifier, created now.
    pub fn new(url: String) -> (job: Job)
        ensures
            is_uuid_text(job@.id),
            timestamp_in_range(job@.created_at),
            job@ == JobView::fresh(job@.id, url@, job@.created_at),
    {
        let id = fresh_job_id();
        let now = now_millis();
        Job::with_id(id, url, now)
    }

    /// A new pending job with the given identifier and creation instant.
    pub fn with_id(id: String, url: String, now: i64) -> (job: Job)
        ensures
            job@ == JobView::fresh(id@, url@, now as int),
    {
        Job {
            id,
            url,
            status: JobStatus::Pending,
            created_at: now,
            updated_at: now,
            downloaded_path: None,
            processed_path: None,
            error_message: None,
            processing_time_seconds: None,
        }
    }

    /// A copy of this job.
    pub fn duplicate(&self) -> (copy: Job)
        ensures
            copy@ == self@,
    {
        Job {
            id: self.id.clone(),
            url: self.url.clone(),
            status: self.status,
            created_at: self.created_at,
            updated_at: self.updated_at,
            downloaded_path: copy_opt_text(&self.downloaded_path),
            processed_path: copy_opt_text(&self.processed_path),
            error_message: copy_opt_text(&self.error_message),
            processing_time_seconds: self.processing_time_seconds,
        }
    }

    /// Moves `updated_at` forward to `now`; an earlier `now` leaves it alone,
    /// so the instant of the last change never goes back.
    pub fn touch(&mut self, now: i64)
        ensures
            final(self)@ == old(self)@.touched(now as int),
    {
        if now > self.updated_at {
            self.updated_at = now;
        }
    }

    /// Sets the status, the change being made at `now`.
    pub fn update_status_at(&mut self, status: JobStatus, now: i64)
        ensures
            final(self)@ == (JobView { status, ..old(self)@ }).touched(now as int),
    {
        self.status = status;
        self.touch(now);
    }

    /// Sets the status, the change being made now.
    pub fn update_status(&mut self, status: JobStatus)
        ensures
            exists|now: int|
                timestamp_in_range(now) && final(self)@.updated_at == #[trigger] later_of(
                    old(self)@.updated_at,
                    now,
                ),
            final(self)@ == (JobView {
                status,
                updated_at: final(self)@.updated_at,
                ..old(self)@
            }),
    {
        let now = now_millis();
        self.update_status_at(status, now);
        assert(self@.updated_at == later_of(old(self)@.updated_at, now as int));
    }

    /// Marks the job as failed with the given message, at `now`.
    pub fn set_error_at(&mut self, error: String, now: i64)
        ensures
            final(self)@ == (JobView {
                status: JobStatus::Failed,
                error_message: Some(error@),
                ..old(self)@
            }).touched(now as int),
    {
        self.status = JobStatus::Failed;
        self.error_message = Some(error);
        self.touch(now);
    }

    /// Marks the job as failed with the given message, now.
    pub fn set_error(&mut self, error: String)
        ensures
            exists|now: int|
                timestamp_in_range(now) && final(self)@.updated_at == #[trigger] later_of(
                    old(self)@.updated_at,
                    now,
                ),
            final(self)@ == (JobView {
                status: JobStatus::Failed,
                error_message: Some(error@),
                updated_at: final(self)@.updated_at,
                ..old(self)@
            }),
    {
        let now = now_millis();
        self.set_error_at(error, now);
        assert(self@.updated_at == later_of(old(self)@.updated_at, now as int));
    }

    /// Marks the job as cancelled with the given message, at `now`.
    pub fn set_cancelled_at(&mut self, reason: String, now: i64)
        ensures
            final(self)@ == (JobView {
                status: JobStatus::Cancelled,
                error_message: Some(reason@),
                ..old(self)@
            }).touched(now as int),
    {
        self.status = JobStatus::Cancelled;
        self.error_message = Some(reason);
        self.touch(now);
    }

    /// Marks the job as completed with its output and duration, at `now`.
    pub fn mark_completed_at(&mut self, output_path: String, processing_time: i64, now: i64)
        ensures
            final(self)@ == (JobView {
                status: JobStatus::Completed,
                processed_path: Some(output_path@),
                processing_time_seconds: Some(processing_time as int),
                ..old(self)@
            }).touched(now as int),
    {
        self.status = JobStatus::Completed;
        self.processed_path = Some(output_path);
        self.processing_time_seconds = Some(processing_time);
        self.touch(now);
    }

    /// Marks the job as completed with its output and duration, now.
    pub fn mark_completed(&mut self, output_path: String, processing_time: i64)
        ensures
            exists|now: int|
                timestamp_in_range(now) && final(self)@.updated_at == #[trigger] later_of(
                    old(self)@.updated_at,
                    now,
                ),
            final(self)@ == (JobView {
                status: JobStatus::Completed,
                processed_path: Some(output_path@),
                processing_time_seconds: Some(processing_time as int),
                updated_at: final(self)@.updated_at,
                ..old(self)@
            }),
    {
        let now = now_millis();
        self.mark_completed_at(output_path, processing_time, now);
        assert(self@.updated_at == later_of(old(self)@.updated_at, now as int));
    }

    /// Records where the downloaded file lies, at `now`.
    pub fn set_downloaded_path_at(&mut self, path: String, now: i64)
        ensures
            final(self)@ == (JobView { downloaded_path: Some(path@), ..old(self)@ }).touched(
                now as int,
            ),
    {
        self.downloaded_path = Some(path);
        self.touch(now);
    }

    /// Records where the downloaded file lies, now.
    pub fn set_downloaded_path(&mut self, path: String)
        ensures
            exists|now: int|
                timestamp_in_range(now) && final(self)@.updated_at == #[trigger] later_of(
                    old(self)@.updated_at,
                    now,
                ),
            final(self)@ == (JobView {
                downloaded_path: Some(path@),
                updated_at: final(self)@.updated_at,
                ..old(self)@
            }),
    {
        let now = now_millis();
        self.set_downloaded_path_at(path, now);
        assert(self@.updated_at == later_of(old(self)@.updated_at, now as int));
    }

    /// Records where the transcoded file lies, at `now`.
    pub fn set_processed_path_at(&mut self, path: String, now: i64)
        ensures
            final(self)@ == (JobView { processed_path: Some(path@), ..old(self)@ }).touched(
                now as int,
            ),
    {
        self.processed_path = Some(path);
        self.touch(now);
    }

    /// Records where the transcoded file lies, now.
    pub fn set_processed_path(&mut self, path: String)
        ensures
            exists|now: int|
                timestamp_in_range(now) && final(self)@.updated_at == #[trigger] later_of(
                    old(self)@.updated_at,
                    now,
                ),
            final(self)@ == (JobView {
                processed_path: Some(path@),
                updated_at: final(self)@.updated_at,
                ..old(self)@
            }),
    {
        let now = now_millis();
        self.set_processed_path_at(path, now);
        assert(self@.updated_at == later_of(old(self)@.updated_at, now as int));
    }

    /// Records how long the job took, in whole seconds, at `now`. A duration
    /// beyond the range of the column is stored as the largest value.
    pub fn set_processing_time_at(&mut self, seconds: u64, now: i64)
        ensures
            final(self)@ == (JobView {
                processing_time_seconds: Some(
                    if seconds <= i64::MAX {
                        seconds as int
                    } else {
                        i64::MAX as int
                    },
                ),
                ..old(self)@
            }).touched(now as int),
    {
        let stored: i64 = if seconds <= i64::MAX as u64 {
            seconds as i64
        } else {
            i64::MAX
        };
        self.processing_time_seconds = Some(stored);
        self.touch(now);
    }

    /// Records how long the job took, in whole seconds, now.
    pub fn set_processing_time(&mut self, seconds: u64)
        ensures
            exists|now: int|
                timestamp_in_range(now) && final(self)@.updated_at == #[trigger] later_of(
                    old(self)@.updated_at,
                    now,
                ),
            final(self)@ == (JobView {
                processing_time_seconds: Some(
                    if seconds <= i64::MAX {
                        seconds as int
                    } else {
                        i64::MAX as int
                    },
                ),
                updated_at: final(self)@.updated_at,
                ..old(self)@
            }),
    {
        let now = now_millis();
        self.set_processing_time_at(seconds, now);
        assert(self@.updated_at == later_of(old(self)@.updated_at, now as int));
    }

    /// Where the downloaded file lies, if it has been recorded.
    pub fn get_downloaded_path(&self) -> (p: Option<String>)
        ensures
            opt_text(p) == self@.downloaded_path,
    {
        copy_opt_text(&self.downloaded_path)
    }

    /// Where the transcoded file lies, if it has been recorded.
    pub fn get_processed_path(&self) -> (p: Option<String>)
        ensures
            opt_text(p) == self@.processed_path,
    {
        copy_opt_text(&self.processed_path)
    }

    /// How long the job took, in whole seconds, if it has been recorded. A
    /// negative stored value counts as zero.
    pub fn get_processing_time(&self) -> (t: Option<u64>)
        ensures
            t == match self@.processing_time_seconds {
                Some(s) => Some(
                    if s >= 0 {
                        s as u64
                    } else {
                        0u64
                    },
                ),
                None => None,
            },
    {
        match self.processing_time_seconds {
            Some(s) => Some(
                if s >= 0 {
                    s as u64
                } else {
                    0
                },
            ),
            None => None,
        }
    }

    /// Whether the job has reached a final status.
    pub fn is_finished(&self) -> (b: bool)
        ensures
            b == is_terminal(self@.status),
    {
        self.status.is_terminal()
    }
}

} // verus!
