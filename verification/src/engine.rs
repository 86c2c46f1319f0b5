//! The operations behind the HTTP surface: submitting, looking up,
//! listing and cancelling jobs, over the table and the queue together.

use vstd::prelude::*;
use crate::cleanup::CleanupService;
use crate::download::DownloadService;
use crate::error::{failure_of, AppError, AppResult, ErrorKind};
use crate::job::{fresh_job_id, is_uuid_text, now_millis, timestamp_in_range, Job, JobView};
use crate::process::ProcessService;
use crate::queue::{
    arrival_stamp, priority_named, without_id, without_job, JobPriority, JobQueue, QueueView,
    QueuedJobView,
};
use crate::routes::{
    page_asked, page_size_asked, DownloadRequest, JobListQuery, PaginationInfo,
};
use crate::security::{input_failure, SecurityValidator};
use crate::status::{is_terminal, status_filter_named, JobStatus};
use crate::store::{
    after_update, duplicate_message, find_row, has_row, insert_position, kept,
    lemma_find_row_at, newest_active, not_found_message, page_count, page_of, status_is,
    update_failure, views_of, JobRepository,
};
use crate::text::{lowercase_of, opt_text, push_str, string_of, to_lowercase};
use crate::url_parts::{url_parse_of, UrlView};
use crate::url_rules::url_failure;

verus! {

/// Everything the service keeps: the stages, the working-directory rules,
/// the table of jobs, the validator and the queue.
pub struct AppState {
    pub download_service: DownloadService,
    pub process_service: ProcessService,
    pub cleanup_service: CleanupService,
    pub job_repository: JobRepository,
    pub security_validator: SecurityValidator,
    pub job_queue: JobQueue,
}

/// The table and the queue as mathematics.
pub struct EngineView {
    pub rows: Seq<JobView>,
    pub queue: QueueView,
}

/// What a cancellation answers.
#[derive(Debug, Clone)]
pub struct CancelReceipt {
    pub message: String,
    pub job_id: String,
    /// Whether a task was running for the job; the caller must abort it.
    pub abort_task: bool,
}

/// The longest URL that a submission may carry, in bytes.
pub const MAX_SUBMITTED_URL_BYTES: usize = 2048;

/// The longest job identifier that a request may carry, in bytes.
pub const MAX_JOB_ID_BYTES: usize = 100;

/// The failure with which a submission is refused before anything is
/// looked up, or `None`: the URL is checked as input, then as a URL.
pub open spec fn submission_failure(
    domains: Seq<Seq<char>>,
    max_url_length: nat,
    url: Seq<char>,
    parsed: Result<UrlView, Seq<char>>,
) -> Option<(ErrorKind, Seq<char>)> {
    if input_failure(url, "url"@, MAX_SUBMITTED_URL_BYTES as nat) is Some {
        input_failure(url, "url"@, MAX_SUBMITTED_URL_BYTES as nat)
    } else {
        url_failure(domains, max_url_length, url, parsed)
    }
}

/// What a submission that passed validation does, given the identifier
/// and the instant a new job would get. If a job for the URL is waiting or
/// running, that job is the answer and nothing changes. Otherwise a row is
/// added and the job is queued as one that arrives at that instant; the
/// submission fails if the identifier is taken (nothing changes) or if
/// the queue refuses (the row stays).
pub open spec fn submitted(
    before: EngineView,
    after: EngineView,
    answer: Result<JobView, (ErrorKind, Seq<char>)>,
    url: Seq<char>,
    priority: JobPriority,
    id: Seq<char>,
    now: int,
) -> bool {
    let fresh = JobView::fresh(id, url, now);
    match newest_active(before.rows, url) {
        Some(existing) => answer == Ok::<JobView, (ErrorKind, Seq<char>)>(existing) && after
            == before,
        None => if has_row(before.rows, id) {
            answer == Err::<JobView, (ErrorKind, Seq<char>)>(
                (ErrorKind::Internal, duplicate_message(id)),
            ) && after == before
        } else {
            let added = before.rows.insert(insert_position(before.rows, now), fresh);
            match before.queue.refusal() {
                Some(words) => answer == Err::<JobView, (ErrorKind, Seq<char>)>(
                    (ErrorKind::Internal, "Failed to queue job: "@ + words),
                ) && after == (EngineView { rows: added, queue: before.queue }),
                None => answer == Ok::<JobView, (ErrorKind, Seq<char>)>(fresh) && after == (
                EngineView {
                    rows: added,
                    queue: QueueView {
                        queued: before.queue.queued.push(
                            QueuedJobView {
                                job: fresh,
                                priority,
                                queued_at: arrival_stamp(before.queue.queued, now),
                            },
                        ),
                        ..before.queue
                    },
                }),
            }
        },
    }
}

/// A result with its job or failure as mathematics.
pub open spec fn answer_of(r: AppResult<Job>) -> Result<JobView, (ErrorKind, Seq<char>)> {
    match r {
        Ok(job) => Ok(job@),
        Err(e) => Err(e@),
    }
}

impl View for AppState {
    type V = EngineView;

    open spec fn view(&self) -> EngineView {
        EngineView { rows: self.job_repository@, queue: self.job_queue@ }
    }
}

impl AppState {
    /// The table and the queue are as they should be.
    pub open spec fn wf(&self) -> bool {
        self.job_repository.wf() && self.job_queue.wf()
    }

    /// The two stages, the rules of the working directory and the
    /// validator of this service are those of `before`. No operation on
    /// jobs changes them.
    pub open spec fn same_services(&self, before: AppState) -> bool {
        &&& self.download_service == before.download_service
        &&& self.process_service == before.process_service
        &&& self.cleanup_service == before.cleanup_service
        &&& self.security_validator == before.security_validator
    }

    /// The service with an empty table and an empty queue.
    pub fn new(
        download_service: DownloadService,
        process_service: ProcessService,
        cleanup_service: CleanupService,
        security_validator: SecurityValidator,
        job_queue: JobQueue,
    ) -> (s: AppState)
        requires
            job_queue.wf(),
        ensures
            s.wf(),
            s@.rows == Seq::<JobView>::empty(),
            s@.queue == job_queue@,
            s.security_validator == security_validator,
    {
        AppState {
            download_service,
            process_service,
            cleanup_service,
            job_repository: JobRepository::new(),
            security_validator,
            job_queue,
        }
    }

    /// Handles a submission, a new job getting the identifier `id` and the
    /// creation instant `now`.
    pub fn start_job_with(&mut self, request: &DownloadRequest, id: String, now: i64) -> (r:
        AppResult<Job>)
        requires
            old(self).wf(),
        ensures
            final(self).wf(),
            final(self).same_services(*old(self)),
            match submission_failure(
                old(self).security_validator.spec_allowed_domains(),
                old(self).security_validator.spec_max_url_length(),
                request.url@,
                url_parse_of(request.url@),
            ) {
                Some(refusal) => answer_of(r) == Err::<JobView, (ErrorKind, Seq<char>)>(refusal)
                    && final(self)@ == old(self)@,
                None => submitted(
                    old(self)@,
                    final(self)@,
                    answer_of(r),
                    request.url@,
                    priority_named(opt_text(request.priority)),
                    id@,
                    now as int,
                ),
            },
    {
        match self.security_validator.validate_input(
            request.url.as_str(),
            "url",
            MAX_SUBMITTED_URL_BYTES,
        ) {
            Ok(_) => {},
            Err(e) => {
                return Err(e);
            },
        }
        match self.security_validator.validate_url(request.url.as_str()) {
            Ok(_) => {},
            Err(e) => {
                return Err(e);
            },
        }
        match self.job_repository.find_active_job_by_url(request.url.as_str()) {
            Some(existing) => {
                return Ok(existing);
            },
            None => {},
        }
        let job = Job::with_id(id, request.url.clone(), now);
        match self.job_repository.create_job(&job) {
            Ok(_) => {},
            Err(e) => {
                return Err(e);
            },
        }
        let priority = JobPriority::parse(
            match &request.priority {
                Some(p) => Some(p.as_str()),
                None => None,
            },
        );
        match self.job_queue.enqueue_arrival_at(job.duplicate(), priority, now) {
            Ok(_) => Ok(job),
            Err(words) => {
                let mut m: Vec<char> = Vec::new();
                push_str(&mut m, "Failed to queue job: ");
                push_str(&mut m, words.as_str());
                assert(m@ =~= "Failed to queue job: "@ + words@);
                Err(AppError::Internal(string_of(&m)))
            },
        }
    }

    /// Handles a submission: a job for the URL that is waiting or running
    /// is the answer; otherwise a new job with a random identifier is
    /// created now and queued.
    pub fn start_job(&mut self, request: &DownloadRequest) -> (r: AppResult<Job>)
        requires
            old(self).wf(),
        ensures
            final(self).wf(),
            final(self).same_services(*old(self)),
            match submission_failure(
                old(self).security_validator.spec_allowed_domains(),
                old(self).security_validator.spec_max_url_length(),
                request.url@,
                url_parse_of(request.url@),
            ) {
                Some(refusal) => answer_of(r) == Err::<JobView, (ErrorKind, Seq<char>)>(refusal)
                    && final(self)@ == old(self)@,
                None => exists|id: Seq<char>, now: int|
                    is_uuid_text(id) && timestamp_in_range(now) && #[trigger] submitted(
                        old(self)@,
                        final(self)@,
                        answer_of(r),
                        request.url@,
                        priority_named(opt_text(request.priority)),
                        id,
                        now,
                    ),
            },
    {
        let id = fresh_job_id();
        let now = now_millis();
        let ghost id_text = id@;
        let r = self.start_job_with(request, id, now);
        proof {
            if submission_failure(
                old(self).security_validator.spec_allowed_domains(),
                old(self).security_validator.spec_max_url_length(),
                request.url@,
                url_parse_of(request.url@),
            ) is None {
                assert(submitted(
                    old(self)@,
                    final(self)@,
                    answer_of(r),
                    request.url@,
                    priority_named(opt_text(request.priority)),
                    id_text,
                    now as int,
                ));
            }
        }
        r
    }
}

/// The failure of a lookup by identifier, or `None` where the job is
/// found: the identifier is checked as input, then looked up.
pub open spec fn lookup_failure(rows: Seq<JobView>, job_id: Seq<char>) -> Option<
    (ErrorKind, Seq<char>),
> {
    if input_failure(job_id, "job_id"@, MAX_JOB_ID_BYTES as nat) is Some {
        input_failure(job_id, "job_id"@, MAX_JOB_ID_BYTES as nat)
    } else if find_row(rows, job_id) is None {
        Some((ErrorKind::NotFound, not_found_message(job_id)))
    } else {
        None
    }
}

/// The failure for a request for the finished video of a job, or `None`
/// where the video can be sent.
pub open spec fn video_failure(rows: Seq<JobView>, job_id: Seq<char>) -> Option<
    (ErrorKind, Seq<char>),
> {
    if lookup_failure(rows, job_id) is Some {
        lookup_failure(rows, job_id)
    } else if find_row(rows, job_id)->0.status != JobStatus::Completed {
        Some((ErrorKind::BadRequest, "Job not completed yet"@))
    } else if find_row(rows, job_id)->0.processed_path is None {
        Some((ErrorKind::NotFound, "No processed file found"@))
    } else {
        None
    }
}

/// The words with which a job in a final status refuses cancellation.
pub open spec fn finished_refusal(status: JobStatus) -> Seq<char> {
    match status {
        JobStatus::Completed => "Cannot cancel completed job"@,
        JobStatus::Cancelled => "Job already cancelled"@,
        _ => "Cannot cancel failed job"@,
    }
}

/// The failure of a cancellation, or `None` where the job is cancelled.
/// Only a job in a final status cannot be cancelled; a job that has not
/// reached one is cancelled whether or not the queue knows it.
pub open spec fn cancel_failure(before: EngineView, job_id: Seq<char>) -> Option<
    (ErrorKind, Seq<char>),
> {
    if lookup_failure(before.rows, job_id) is Some {
        lookup_failure(before.rows, job_id)
    } else if is_terminal(find_row(before.rows, job_id)->0.status) {
        Some((ErrorKind::BadRequest, finished_refusal(find_row(before.rows, job_id)->0.status)))
    } else {
        None
    }
}

/// The row of a job that has been cancelled by its user.
pub open spec fn cancelled_row(row: JobView) -> JobView {
    JobView {
        status: JobStatus::Cancelled,
        error_message: Some("Job cancelled by user"@),
        ..row
    }
}

/// The table and the queue after an attempt to cancel the job `job_id` at
/// `now`. A refusal changes nothing; otherwise the job leaves the queue
/// and the running jobs, and its row becomes `Cancelled`.
pub open spec fn after_cancel(before: EngineView, job_id: Seq<char>, now: int) -> EngineView {
    if cancel_failure(before, job_id) is Some {
        before
    } else {
        EngineView {
            rows: after_update(
                before.rows,
                cancelled_row(find_row(before.rows, job_id)->0),
                now,
            ),
            queue: QueueView {
                queued: without_job(before.queue.queued, job_id),
                active: without_id(before.queue.active, job_id),
                ..before.queue
            },
        }
    }
}

/// The failure of a listing, or `None`: a status filter must name a
/// status, whatever its case.
pub open spec fn listing_failure(status: Option<Seq<char>>) -> Option<(ErrorKind, Seq<char>)> {
    match status {
        Some(name) => if status_filter_named(lowercase_of(name)) is None {
            Some((ErrorKind::BadRequest, "Invalid status filter: "@ + name))
        } else {
            None
        },
        None => None,
    }
}

/// The status that a listing selects, if it selects one.
pub open spec fn listing_filter(status: Option<Seq<char>>) -> Option<JobStatus> {
    match status {
        Some(name) => status_filter_named(lowercase_of(name)),
        None => None,
    }
}

impl AppState {
    /// Looks a job up by its identifier.
    pub fn get_job_status(&self, job_id: &str) -> (r: AppResult<Job>)
        requires
            self.wf(),
        ensures
            failure_of(r) == lookup_failure(self@.rows, job_id@),
            r matches Ok(job) ==> find_row(self@.rows, job_id@) == Some(job@),
    {
        match self.security_validator.validate_input(job_id, "job_id", MAX_JOB_ID_BYTES) {
            Ok(_) => {},
            Err(e) => {
                return Err(e);
            },
        }
        match self.job_repository.get_job(job_id) {
            Some(job) => Ok(job),
            None => {
                let mut m: Vec<char> = Vec::new();
                push_str(&mut m, "Job not found: ");
                push_str(&mut m, job_id);
                assert(m@ =~= not_found_message(job_id@));
                Err(AppError::NotFound(string_of(&m)))
            },
        }
    }

    /// The path of the finished video of a job. Fails unless the job is
    /// known, completed, and has its output recorded.
    pub fn get_processed_video(&self, job_id: &str) -> (r: AppResult<String>)
        requires
            self.wf(),
        ensures
            failure_of(r) == video_failure(self@.rows, job_id@),
            r matches Ok(path) ==> find_row(self@.rows, job_id@)->0.processed_path == Some(path@),
    {
        let job = match self.get_job_status(job_id) {
            Ok(job) => job,
            Err(e) => {
                return Err(e);
            },
        };
        if job.status != JobStatus::Completed {
            return Err(AppError::bad_request("Job not completed yet"));
        }
        match job.processed_path {
            Some(path) => Ok(path),
            None => Err(AppError::NotFound("No processed file found".to_owned())),
        }
    }

    /// Cancels a job at `now`. A job that has not reached a final status
    /// leaves the queue and the running jobs, whether or not it was among
    /// them, and its row becomes `Cancelled` with the message `Job
    /// cancelled by user`; the caller must then abort its task, if the
    /// receipt says so, and unlink its files. A job in a final status
    /// stays as it is.
    pub fn cancel_job_at(&mut self, job_id: &str, now: i64) -> (r: AppResult<CancelReceipt>)
        requires
            old(self).wf(),
        ensures
            final(self).wf(),
            final(self).same_services(*old(self)),
            failure_of(r) == cancel_failure(old(self)@, job_id@),
            final(self)@ == after_cancel(old(self)@, job_id@, now as int),
            r matches Ok(receipt) ==> {
                &&& receipt.message@ == "Job cancelled successfully"@
                &&& receipt.job_id@ == job_id@
                &&& receipt.abort_task == old(self)@.queue.active.contains(job_id@)
                &&& find_row(final(self)@.rows, job_id@) matches Some(row) && row.status
                    == JobStatus::Cancelled && row.error_message == Some(
                    "Job cancelled by user"@,
                )
            },
    {
        let mut job = match self.get_job_status(job_id) {
            Ok(job) => job,
            Err(e) => {
                return Err(e);
            },
        };
        match job.status {
            JobStatus::Completed => {
                return Err(AppError::bad_request("Cannot cancel completed job"));
            },
            JobStatus::Cancelled => {
                return Err(AppError::bad_request("Job already cancelled"));
            },
            JobStatus::Failed => {
                return Err(AppError::bad_request("Cannot cancel failed job"));
            },
            _ => {},
        }
        let was_active = self.job_queue.is_active(job_id);
        let _ = self.job_queue.cancel_job(job_id);
        let ghost row = job@;
        job.set_cancelled_at("Job cancelled by user".to_owned(), now);
        let ghost target = cancelled_row(row);
        proof {
            let rows = old(self)@.rows;
            assert(find_row(rows, job_id@) == Some(row));
            assert(update_failure(rows, target) is None);
            assert(after_update(rows, job@, now as int) =~= after_update(
                rows,
                target,
                now as int,
            ));
            let k = crate::store::row_index(rows, job_id@);
            crate::store::lemma_update_keeps_table(
                rows,
                k,
                crate::store::rewritten(rows[k], target, now as int),
            );
            lemma_find_row_at(rows.update(k, crate::store::rewritten(rows[k], target, now as int)), k);
        }
        let _ = self.job_repository.update_job_at(&job, now);
        Ok(
            CancelReceipt {
                message: "Job cancelled successfully".to_owned(),
                job_id: job_id.to_owned(),
                abort_task: was_active,
            },
        )
    }

    /// Cancels a job now.
    pub fn cancel_job(&mut self, job_id: &str) -> (r: AppResult<CancelReceipt>)
        requires
            old(self).wf(),
        ensures
            final(self).wf(),
            final(self).same_services(*old(self)),
            failure_of(r) == cancel_failure(old(self)@, job_id@),
            exists|now: int|
                timestamp_in_range(now) && final(self)@ == #[trigger] after_cancel(
                    old(self)@,
                    job_id@,
                    now,
                ),
            r matches Ok(receipt) ==> {
                &&& receipt.message@ == "Job cancelled successfully"@
                &&& receipt.job_id@ == job_id@
                &&& receipt.abort_task == old(self)@.queue.active.contains(job_id@)
                &&& find_row(final(self)@.rows, job_id@) matches Some(row) && row.status
                    == JobStatus::Cancelled && row.error_message == Some(
                    "Job cancelled by user"@,
                )
            },
    {
        let now = now_millis();
        let r = self.cancel_job_at(job_id, now);
        assert(final(self)@ == after_cancel(old(self)@, job_id@, now as int));
        r
    }

    /// Lists one page of jobs, newest first, the status filter having
    /// been read already.
    pub fn list_jobs_filtered(&self, page: u32, page_size: u32, filter: Option<JobStatus>) -> (r: (
        Vec<Job>,
        PaginationInfo,
    ))
        ensures
            views_of(r.0@) == page_of(
                kept(self@.rows, status_is(filter)),
                page as int,
                page_size as int,
            ),
            r.1 == (PaginationInfo {
                current_page: page,
                page_size,
                total_pages: page_count(
                    kept(self@.rows, status_is(filter)).len() as int,
                    page_size as int,
                ) as u32,
                total_jobs: r.0@.len() as usize,
            }),
    {
        let (jobs, total_pages) = self.job_repository.list_jobs_paginated(
            page,
            page_size,
            filter,
        );
        let info = PaginationInfo {
            current_page: page,
            page_size,
            total_pages,
            total_jobs: jobs.len(),
        };
        (jobs, info)
    }

    /// Lists one page of jobs, newest first. The page is the first unless
    /// the query names one; a page holds 20 jobs unless the query names a
    /// size, and never more than 100; a status filter is read without
    /// regard to case.
    pub fn list_jobs(&self, query: &JobListQuery) -> (r: AppResult<(Vec<Job>, PaginationInfo)>)
        ensures
            failure_of(r) == listing_failure(opt_text(query.status)),
            r matches Ok(listing) ==> {
                let matching = kept(self@.rows, status_is(listing_filter(opt_text(query.status))));
                &&& views_of(listing.0@) == page_of(
                    matching,
                    page_asked(query.page) as int,
                    page_size_asked(query.page_size) as int,
                )
                &&& listing.1 == (PaginationInfo {
                    current_page: page_asked(query.page),
                    page_size: page_size_asked(query.page_size),
                    total_pages: page_count(
                        matching.len() as int,
                        page_size_asked(query.page_size) as int,
                    ) as u32,
                    total_jobs: listing.0@.len() as usize,
                })
            },
    {
        let page = query.page_number();
        let page_size = query.effective_page_size();
        let filter = match &query.status {
            Some(name) => {
                let lower = to_lowercase(name.as_str());
                match JobStatus::from_filter(lower.as_str()) {
                    Some(s) => Some(s),
                    None => {
                        let mut m: Vec<char> = Vec::new();
                        push_str(&mut m, "Invalid status filter: ");
                        push_str(&mut m, name.as_str());
                        assert(m@ =~= "Invalid status filter: "@ + name@);
                        return Err(AppError::BadRequest(string_of(&m)));
                    },
                }
            },
            None => None,
        };
        Ok(self.list_jobs_filtered(page, page_size, filter))
    }
}

} // verus!
