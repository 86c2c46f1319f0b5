//! What clients send and what they are sent back.

use vstd::prelude::*;
use crate::job::{copy_opt_text, timestamp_in_range, Job, JobView, MAX_TIMESTAMP_MS};
use crate::status::JobStatus;
use crate::text::{decimal, opt_text, push_decimal, push_str, string_of};

verus! {

/// The body of a submission.
#[derive(Debug, Clone)]
pub struct DownloadRequest {
    pub url: String,
    pub priority: Option<String>,
}

/// A job as clients see it. The two instants are in RFC 3339 notation.
#[derive(Debug, Clone)]
pub struct JobResponse {
    pub id: String,
    pub status: JobStatus,
    pub url: String,
    pub created_at: String,
    pub updated_at: String,
    pub error_message: Option<String>,
    pub processing_time: Option<String>,
}

/// The query of a listing.
#[derive(Debug, Clone)]
pub struct JobListQuery {
    pub page: Option<u32>,
    pub page_size: Option<u32>,
    pub status: Option<String>,
}

/// One page of jobs.
#[derive(Debug, Clone)]
pub struct JobListResponse {
    pub jobs: Vec<JobResponse>,
    pub pagination: PaginationInfo,
}

/// Where a page stands among the pages.
#[derive(Debug, Clone, Copy, PartialEq, Eq)]
pub struct PaginationInfo {
    pub current_page: u32,
    pub page_size: u32,
    pub total_pages: u32,
    pub total_jobs: usize,
}

/// The RFC 3339 notation of an instant given in milliseconds since the
/// epoch, as `chrono::DateTime::to_rfc3339` writes it in UTC.
pub uninterp spec fn rfc3339_of(ms: int) -> Seq<char>;

/// Makes a `chrono::DateTime<Utc>` of the instant with
/// `DateTime::from_timestamp_millis` and writes it with `to_rfc3339`. The
/// instant must be one that the calendar can hold.
#[verifier::external_body]
pub(crate) fn to_rfc3339(ms: i64) -> (s: String)
    requires
        timestamp_in_range(ms as int),
    ensures
        s@ == rfc3339_of(ms as int),
{
    chrono::DateTime::from_timestamp_millis(ms).unwrap().to_rfc3339()
}

/// A duration of whole seconds as it is shown: `0ns` for none, else the
/// number and `s`.
pub open spec fn duration_text(seconds: nat) -> Seq<char> {
    if seconds == 0 {
        "0ns"@
    } else {
        decimal(seconds) + "s"@
    }
}

/// The stored duration as it is shown; a negative value counts as zero.
pub open spec fn processing_time_text(stored: Option<int>) -> Option<Seq<char>> {
    match stored {
        Some(s) => Some(
            duration_text(
                if s >= 0 {
                    s as nat
                } else {
                    0
                },
            ),
        ),
        None => None,
    }
}

/// The job as clients see it.
pub open spec fn response_matches(r: JobResponse, job: JobView) -> bool {
    &&& r.id@ == job.id
    &&& r.status == job.status
    &&& r.url@ == job.url
    &&& r.created_at@ == rfc3339_of(job.created_at)
    &&& r.updated_at@ == rfc3339_of(job.updated_at)
    &&& opt_text(r.error_message) == job.error_message
    &&& opt_text(r.processing_time) == processing_time_text(job.processing_time_seconds)
}

/// A duration of whole seconds as it is shown.
pub fn format_duration(seconds: u64) -> (s: String)
    ensures
        s@ == duration_text(seconds as nat),
{
    if seconds == 0 {
        return "0ns".to_owned();
    }
    let mut m: Vec<char> = Vec::new();
    push_decimal(&mut m, seconds);
    push_str(&mut m, "s");
    assert(m@ =~= decimal(seconds as nat) + "s"@);
    string_of(&m)
}

impl JobResponse {
    /// The job as clients see it. Both instants of the job must be ones
    /// that the calendar can hold.
    pub fn from(job: &Job) -> (r: JobResponse)
        requires
            job@.timestamps_in_range(),
        ensures
            response_matches(r, job@),
    {
        let processing_time = match job.get_processing_time() {
            Some(s) => Some(format_duration(s)),
            None => None,
        };
        JobResponse {
            id: job.id.clone(),
            status: job.status,
            url: job.url.clone(),
            created_at: to_rfc3339(job.created_at),
            updated_at: to_rfc3339(job.updated_at),
            error_message: copy_opt_text(&job.error_message),
            processing_time,
        }
    }

    /// The job as clients see it, or `None` if one of its instants is
    /// outside what the calendar can hold.
    pub fn try_from(job: &Job) -> (r: Option<JobResponse>)
        ensures
            match r {
                Some(response) => job@.timestamps_in_range() && response_matches(response, job@),
                None => !job@.timestamps_in_range(),
            },
    {
        if 0 <= job.created_at && job.created_at <= MAX_TIMESTAMP_MS && 0 <= job.updated_at
            && job.updated_at <= MAX_TIMESTAMP_MS {
            Some(JobResponse::from(job))
        } else {
            None
        }
    }
}

/// The page asked for, or the first page.
pub open spec fn page_asked(page: Option<u32>) -> u32 {
    match page {
        Some(p) => p,
        None => 0,
    }
}

/// The page size asked for, or 20; never more than 100.
pub open spec fn page_size_asked(page_size: Option<u32>) -> u32 {
    match page_size {
        Some(n) => if n <= 100 {
            n
        } else {
            100
        },
        None => 20,
    }
}

impl JobListQuery {
    /// The page asked for, or the first page.
    pub fn page_number(&self) -> (p: u32)
        ensures
            p == page_asked(self.page),
    {
        match self.page {
            Some(p) => p,
            None => 0,
        }
    }

    /// The page size asked for, or 20; never more than 100.
    pub fn effective_page_size(&self) -> (n: u32)
        ensures
            n == page_size_asked(self.page_size),
            n <= 100,
    {
        match self.page_size {
            Some(n) => if n <= 100 {
                n
            } else {
                100
            },
            None => 20,
        }
    }
}

/// The name under which the finished video of a job is offered for download.
pub open spec fn attachment_name(job_id: Seq<char>) -> Seq<char> {
    "video_"@ + job_id + ".mp4"@
}

/// The name under which the finished video of a job is offered for download.
pub fn video_file_name(job_id: &str) -> (name: String)
    ensures
        name@ == attachment_name(job_id@),
{
    let mut m: Vec<char> = Vec::new();
    push_str(&mut m, "video_");
    push_str(&mut m, job_id);
    push_str(&mut m, ".mp4");
    assert(m@ =~= attachment_name(job_id@));
    string_of(&m)
}

} // verus!
