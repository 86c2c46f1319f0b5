use aperio::cleanup::CleanupService;
use aperio::config::load_config;
use aperio::download::{DownloadService, ProcessOutcome};
use aperio::engine::AppState;
use aperio::error::AppError;
use aperio::job::Job;
use aperio::process::ProcessService;
use aperio::queue::{JobPriority, JobQueue};
use aperio::restore::RestoreReport;
use aperio::retry::{RetryConfig, RetryDriver, RetryStep};
use aperio::routes::{DownloadRequest, JobListQuery, PaginationInfo};
use aperio::runner::{AfterDownload, AfterTranscode};
use aperio::security::SecurityValidator;
use aperio::status::JobStatus;

fn service(max_concurrent: usize, max_queued: usize) -> AppState {
    let config = load_config(&Vec::new());
    AppState::new(
        DownloadService::new(config.download.clone(), "/app/working".to_string(), &config.security),
        ProcessService::new(config.processing.clone(), "/app/working".to_string()),
        CleanupService::new("/app/working".to_string()),
        SecurityValidator::new(config.download.allowed_domains.clone(), 500, 2048),
        JobQueue::with_limits(max_concurrent, max_queued),
    )
}

fn request(url: &str, priority: Option<&str>) -> DownloadRequest {
    DownloadRequest { url: url.to_string(), priority: priority.map(str::to_string) }
}

fn submit(s: &mut AppState, url: &str, id: &str, now: i64) -> Result<Job, AppError> {
    s.start_job_with(&request(url, None), id.to_string(), now)
}

fn status(s: &AppState, id: &str) -> JobStatus {
    s.job_repository.get_job(id).unwrap().status
}

#[test]
fn happy_path() {
    let mut s = service(2, 10);
    let job = submit(&mut s, "https://youtube.com/watch?v=X", "job-1", 1_000).unwrap();
    assert_eq!(job.status, JobStatus::Pending);
    assert_eq!(status(&s, "job-1"), JobStatus::Pending);

    let entry = s.job_queue.next_job().unwrap();
    assert_eq!(entry.job.id, "job-1");
    let mut mine = s.begin_job_at("job-1", 2_000).unwrap();
    assert_eq!(mine.status, JobStatus::Downloading);
    assert_eq!(status(&s, "job-1"), JobStatus::Downloading);

    let plan = s.download_service.prepare(&mine, Some(u64::MAX)).unwrap();
    assert_eq!(plan.program, "yt-dlp");
    let verdict = s.download_service.conclude(
        &ProcessOutcome::Exited { success: true, stderr: String::new() },
        Some("/app/working/job-1_original.mp4".to_string()),
        Some(1_000_000),
    );
    assert_eq!(verdict.remove, None);
    let next = s.finish_download_at(&mut mine, verdict.result, 3_000);
    assert_eq!(next, AfterDownload::Transcode);
    assert_eq!(status(&s, "job-1"), JobStatus::Processing);
    assert_eq!(
        s.job_repository.get_job("job-1").unwrap().downloaded_path.as_deref(),
        Some("/app/working/job-1_original.mp4")
    );

    let verdict = s.process_service.conclude(
        &mine,
        &ProcessOutcome::Exited { success: true, stderr: String::new() },
        true,
    );
    let end = s.finish_transcode_at(&mut mine, verdict.result, 42, 45_000);
    match end {
        AfterTranscode::KeepOutput { remove } => {
            assert_eq!(remove.as_deref(), Some("/app/working/job-1_original.mp4"))
        }
        AfterTranscode::CleanupJob => panic!("the output must be kept"),
    }
    let row = s.job_repository.get_job("job-1").unwrap();
    assert_eq!(row.status, JobStatus::Completed);
    assert_eq!(row.processed_path.as_deref(), Some("/app/working/job-1_processed.mp4"));
    assert_eq!(row.processing_time_seconds, Some(42));
    assert_eq!(row.error_message, None);
    assert_eq!(row.updated_at, 45_000);
    assert_eq!(s.get_processed_video("job-1"), Ok("/app/working/job-1_processed.mp4".to_string()));
    s.job_queue.job_finished("job-1");
    assert_eq!(s.job_queue.get_queue_info(), (0, 0));
}

#[test]
fn bad_url_is_refused_and_leaves_no_row() {
    let mut s = service(2, 10);
    let e = submit(&mut s, "http://127.0.0.1/x", "job-1", 1).unwrap_err();
    assert_eq!(e.status_code(), 400);
    assert_eq!(s.job_repository.len(), 0);
    assert_eq!(s.job_queue.get_queue_info(), (0, 0));
    let e = submit(&mut s, "https://youtube.com/\u{7}", "job-1", 1).unwrap_err();
    assert_eq!(e, AppError::BadRequest("url contains invalid control characters".into()));
    let long = format!("https://youtube.com/{}", "a".repeat(2048));
    let e = submit(&mut s, &long, "job-1", 1).unwrap_err();
    assert_eq!(e, AppError::BadRequest("url too long: 2068 characters (max: 2048)".into()));
    assert_eq!(s.job_repository.len(), 0);
}

#[test]
fn resubmitting_a_url_gives_the_same_job() {
    let mut s = service(2, 10);
    let url = "https://youtube.com/watch?v=X";
    let first = submit(&mut s, url, "job-1", 1).unwrap();
    let second = submit(&mut s, url, "job-2", 2).unwrap();
    assert_eq!(first.id, "job-1");
    assert_eq!(second.id, "job-1");
    assert_eq!(s.job_repository.len(), 1);
    assert_eq!(s.job_queue.get_queue_info(), (1, 0));

    s.job_queue.next_job();
    let mut mine = s.begin_job_at("job-1", 3).unwrap();
    assert_eq!(submit(&mut s, url, "job-3", 4).unwrap().id, "job-1");
    s.finish_download_at(&mut mine, Err(AppError::Download("gone".into())), 5);
    assert_eq!(status(&s, "job-1"), JobStatus::Failed);

    let third = submit(&mut s, url, "job-4", 6).unwrap();
    assert_eq!(third.id, "job-4");
    assert_eq!(s.job_repository.len(), 2);
}

#[test]
fn new_jobs_get_random_ids() {
    let mut s = service(2, 10);
    let a = s.start_job(&request("https://youtube.com/a", Some("high"))).unwrap();
    let b = s.start_job(&request("https://youtube.com/b", None)).unwrap();
    assert_eq!(a.id.len(), 36);
    assert_ne!(a.id, b.id);
    assert!(a.id.chars().all(|c| c == '-' || c.is_ascii_digit() || ('a'..='f').contains(&c)));
    assert_eq!(a.id.chars().filter(|c| *c == '-').count(), 4);
    assert!(a.created_at > 1_600_000_000_000);
    assert_eq!(a.created_at, a.updated_at);
    assert_eq!(s.security_validator.validate_job_id(&a.id), Ok(()));
    assert_eq!(s.job_queue.next_job().unwrap().priority, JobPriority::High);
}

#[test]
fn full_queue_gives_a_server_error() {
    let mut s = service(1, 3);
    for i in 0..3 {
        submit(&mut s, &format!("https://youtube.com/{i}"), &format!("job-{i}"), i).unwrap();
    }
    let e = submit(&mut s, "https://youtube.com/next", "job-x", 9).unwrap_err();
    assert_eq!(e.status_code(), 500);
    assert_eq!(
        e,
        AppError::Internal("Failed to queue job: Queue is full (max 3 jobs), try again later".into())
    );
    assert_eq!(status(&s, "job-x"), JobStatus::Pending);
}

#[test]
fn submissions_are_served_in_the_order_they_came() {
    let mut s = service(1, 10);
    submit(&mut s, "https://youtube.com/a", "a", 300).unwrap();
    s.start_job_with(&request("https://youtube.com/b", Some("high")), "b".to_string(), 200).unwrap();
    submit(&mut s, "https://youtube.com/c", "c", 100).unwrap();
    s.start_job_with(&request("https://youtube.com/d", Some("high")), "d".to_string(), 50).unwrap();
    let mut order = Vec::new();
    while let Some(entry) = s.job_queue.next_job() {
        assert_eq!(entry.queued_at, 300);
        s.job_queue.job_finished(&entry.job.id);
        order.push(entry.job.id);
    }
    assert_eq!(order, vec!["b", "d", "a", "c"]);
    assert_eq!(s.job_repository.get_job("c").unwrap().created_at, 100);
}

#[test]
fn taken_identifier_is_refused() {
    let mut s = service(1, 3);
    submit(&mut s, "https://youtube.com/a", "job-1", 1).unwrap();
    let e = submit(&mut s, "https://youtube.com/b", "job-1", 2).unwrap_err();
    assert_eq!(
        e,
        AppError::Internal("Failed to create job: a job with id job-1 already exists".into())
    );
    assert_eq!(s.job_queue.get_queue_info(), (1, 0));
}

#[test]
fn crash_recovery_requeues_pending_jobs_only() {
    let mut s = service(1, 10);
    for (id, st) in [("A", JobStatus::Pending), ("B", JobStatus::Claimed), ("C", JobStatus::Downloading)] {
        let mut j = Job::with_id(id.to_string(), format!("https://youtube.com/{id}"), 10);
        j.status = st;
        s.job_repository.create_job(&j).unwrap();
    }
    let report = s.restore_pending_jobs_at(500);
    assert_eq!(report, RestoreReport { restored: 1, skipped: 0, failed: 0 });
    assert_eq!(s.job_queue.get_queue_info(), (1, 0));
    let a = s.job_repository.get_job("A").unwrap();
    assert_eq!((a.status, a.updated_at), (JobStatus::Claimed, 500));
    let b = s.job_repository.get_job("B").unwrap();
    assert_eq!((b.status, b.updated_at), (JobStatus::Claimed, 10));
    let c = s.job_repository.get_job("C").unwrap();
    assert_eq!((c.status, c.updated_at), (JobStatus::Downloading, 10));
    let entry = s.job_queue.next_job().unwrap();
    assert_eq!((entry.job.id.as_str(), entry.priority, entry.queued_at), ("A", JobPriority::Normal, 500));
    assert_eq!(s.restore_pending_jobs_at(600), RestoreReport { restored: 0, skipped: 0, failed: 0 });
}

#[test]
fn restart_mid_queue_restores_all_in_order() {
    let mut s = service(1, 100);
    for i in 0..10 {
        let j = Job::with_id(format!("job-{i}"), format!("https://youtube.com/{i}"), 100 - i);
        s.job_repository.create_job(&j).unwrap();
    }
    let report = s.restore_pending_jobs();
    assert_eq!(report, RestoreReport { restored: 10, skipped: 0, failed: 0 });
    let mut order = Vec::new();
    while let Some(entry) = s.job_queue.next_job() {
        let id = entry.job.id.clone();
        let mut mine = s.begin_job_at(&id, 1_000).unwrap();
        s.finish_download_at(&mut mine, Ok(format!("/w/{id}_original.mp4")), 1_001);
        s.finish_transcode_at(&mut mine, Ok(format!("/w/{id}_processed.mp4")), 1, 1_002);
        s.job_queue.job_finished(&id);
        order.push(id);
    }
    let expected: Vec<String> = (0..10).rev().map(|i| format!("job-{i}")).collect();
    assert_eq!(order, expected);
    for id in &order {
        assert_eq!(status(&s, id), JobStatus::Completed);
    }
}

#[test]
fn restore_releases_what_the_queue_refuses() {
    let mut s = service(1, 2);
    for i in 0..4 {
        let j = Job::with_id(format!("job-{i}"), format!("https://youtube.com/{i}"), i);
        s.job_repository.create_job(&j).unwrap();
    }
    let report = s.restore_pending_jobs_at(50);
    assert_eq!(report, RestoreReport { restored: 2, skipped: 0, failed: 2 });
    assert_eq!(status(&s, "job-0"), JobStatus::Claimed);
    assert_eq!(status(&s, "job-1"), JobStatus::Claimed);
    assert_eq!(status(&s, "job-2"), JobStatus::Pending);
    assert_eq!(status(&s, "job-3"), JobStatus::Pending);
}

#[test]
fn transient_download_failure_ends_in_failed() {
    let mut s = service(1, 10);
    submit(&mut s, "https://youtube.com/watch?v=X", "job-1", 1).unwrap();
    s.job_queue.next_job();
    let mut mine = s.begin_job_at("job-1", 2).unwrap();
    let mut driver = RetryDriver::new(RetryConfig::download_policy());
    let mut invocations = 0;
    let failure = loop {
        invocations += 1;
        let verdict = s.download_service.conclude(
            &ProcessOutcome::Exited { success: false, stderr: "connection reset by peer".into() },
            None,
            None,
        );
        let e = verdict.result.unwrap_err();
        match driver.on_failure(&e) {
            RetryStep::RetryAfter(ms) => assert_eq!(ms, 1000),
            RetryStep::GiveUp => break e,
        }
    };
    assert_eq!(invocations, 2);
    assert_eq!(s.finish_download_at(&mut mine, Err(failure), 3), AfterDownload::CleanupJob);
    let row = s.job_repository.get_job("job-1").unwrap();
    assert_eq!(row.status, JobStatus::Failed);
    assert_eq!(
        row.error_message.as_deref(),
        Some("Download error: Download failed after retries: Download error: connection reset by peer")
    );
}

#[test]
fn download_timeout_fails_the_job_and_removes_the_partial_file() {
    let mut s = service(1, 10);
    submit(&mut s, "https://youtube.com/watch?v=X", "job-1", 1).unwrap();
    s.job_queue.next_job();
    let mut mine = s.begin_job_at("job-1", 2).unwrap();
    let verdict = s.download_service.conclude(
        &ProcessOutcome::TimedOut,
        Some("/app/working/job-1_original.mp4".into()),
        None,
    );
    assert_eq!(verdict.remove.as_deref(), Some("/app/working/job-1_original.mp4"));
    assert_eq!(
        verdict.result,
        Err(AppError::Timeout("Download timed out after 900 seconds".into()))
    );
    assert_eq!(s.finish_download_at(&mut mine, verdict.result, 3), AfterDownload::CleanupJob);
    let row = s.job_repository.get_job("job-1").unwrap();
    assert_eq!(row.status, JobStatus::Failed);
    assert_eq!(
        row.error_message.as_deref(),
        Some(
            "Download error: Download failed after retries: Timeout error: Download timed out after 900 seconds"
        )
    );
    let names = vec!["job-1_original.mp4.part".to_string(), "job-1_x".to_string(), "other".to_string()];
    let plan = s.cleanup_service.plan_cleanup("job-1", &names);
    assert_eq!(
        plan.to_delete,
        vec!["/app/working/job-1_original.mp4.part", "/app/working/job-1_x"]
    );
}

#[test]
fn failed_transcode_never_completes() {
    let mut s = service(1, 10);
    submit(&mut s, "https://youtube.com/watch?v=X", "job-1", 1).unwrap();
    s.job_queue.next_job();
    let mut mine = s.begin_job_at("job-1", 2).unwrap();
    s.finish_download_at(&mut mine, Ok("/w/in.mp4".into()), 3);
    let end = s.finish_transcode_at(&mut mine, Err(AppError::Processing("bad stream".into())), 9, 4);
    assert!(matches!(end, AfterTranscode::CleanupJob));
    let row = s.job_repository.get_job("job-1").unwrap();
    assert_eq!(row.status, JobStatus::Failed);
    assert_eq!(row.error_message.as_deref(), Some("Processing error: bad stream"));
    assert_eq!(row.processed_path, None);
    assert_eq!(row.processing_time_seconds, None);
}

#[test]
fn begin_job_reads_the_clock_and_refuses_finished_jobs() {
    let mut s = service(1, 10);
    submit(&mut s, "https://youtube.com/watch?v=X", "job-1", 1).unwrap();
    let mine = s.begin_job("job-1").unwrap();
    assert_eq!(mine.status, JobStatus::Downloading);
    assert!(mine.updated_at > 1_600_000_000_000);
    assert_eq!(status(&s, "job-1"), JobStatus::Downloading);
    let stored = s.job_repository.get_job("job-1").unwrap();
    assert!(s.begin_job("job-1").is_none());
    assert!(s.begin_job_at("job-1", i64::MAX).is_none());
    assert_eq!(s.job_repository.get_job("job-1").unwrap().updated_at, stored.updated_at);
    assert!(s.begin_job("nobody").is_none());
    assert!(s.job_repository.update_job_status("job-1", JobStatus::Failed, None));
    assert!(s.begin_job("job-1").is_none());
    assert_eq!(status(&s, "job-1"), JobStatus::Failed);
}

#[test]
fn cancel_of_a_queued_job() {
    let mut s = service(1, 10);
    submit(&mut s, "https://youtube.com/watch?v=X", "job-1", 1).unwrap();
    let receipt = s.cancel_job_at("job-1", 5).unwrap();
    assert_eq!(receipt.message, "Job cancelled successfully");
    assert_eq!(receipt.job_id, "job-1");
    assert!(!receipt.abort_task);
    let row = s.job_repository.get_job("job-1").unwrap();
    assert_eq!(row.status, JobStatus::Cancelled);
    assert_eq!(row.error_message.as_deref(), Some("Job cancelled by user"));
    assert_eq!(row.updated_at, 5);
    assert_eq!(s.job_queue.get_queue_info(), (0, 0));
    assert!(s.begin_job_at("job-1", 6).is_none());
}

#[test]
fn cancel_during_download_and_transcode() {
    for cancel_in_transcode in [false, true] {
        let mut s = service(1, 10);
        submit(&mut s, "https://youtube.com/watch?v=X", "job-1", 1).unwrap();
        s.job_queue.next_job();
        let mut mine = s.begin_job_at("job-1", 2).unwrap();
        if cancel_in_transcode {
            assert_eq!(s.finish_download_at(&mut mine, Ok("/w/a".into()), 3), AfterDownload::Transcode);
        }
        let receipt = s.cancel_job_at("job-1", 4).unwrap();
        assert!(receipt.abort_task);
        assert_eq!(status(&s, "job-1"), JobStatus::Cancelled);
        assert_eq!(s.job_queue.get_queue_info(), (0, 0));
        if cancel_in_transcode {
            let end = s.finish_transcode_at(&mut mine, Ok("/w/b".into()), 1, 5);
            assert!(matches!(end, AfterTranscode::CleanupJob));
        } else {
            assert_eq!(s.finish_download_at(&mut mine, Ok("/w/a".into()), 5), AfterDownload::CleanupJob);
        }
        let row = s.job_repository.get_job("job-1").unwrap();
        assert_eq!(row.status, JobStatus::Cancelled);
        assert_eq!(row.error_message.as_deref(), Some("Job cancelled by user"));
        assert_eq!(row.processed_path, None);
    }
}

#[test]
fn cancel_of_finished_and_unknown_jobs() {
    let mut s = service(1, 10);
    for (id, st, words) in [
        ("done", JobStatus::Completed, "Cannot cancel completed job"),
        ("gone", JobStatus::Cancelled, "Job already cancelled"),
        ("bust", JobStatus::Failed, "Cannot cancel failed job"),
    ] {
        let mut j = Job::with_id(id.to_string(), "u".to_string(), 1);
        j.status = st;
        j.processed_path = Some(format!("/w/{id}_processed.mp4"));
        s.job_repository.create_job(&j).unwrap();
        assert_eq!(s.cancel_job_at(id, 9).unwrap_err(), AppError::BadRequest(words.into()));
        let row = s.job_repository.get_job(id).unwrap();
        assert_eq!((row.status, row.updated_at), (st, 1));
    }
    assert_eq!(
        s.cancel_job_at("nobody", 9).unwrap_err(),
        AppError::NotFound("Job not found: nobody".into())
    );
    assert_eq!(
        s.cancel_job_at("no/body", 9).unwrap_err(),
        AppError::BadRequest("Job ID contains invalid path characters".into())
    );
}

#[test]
fn cancel_reaches_jobs_that_the_queue_does_not_know() {
    for (i, st) in [
        JobStatus::Pending,
        JobStatus::Claimed,
        JobStatus::Downloading,
        JobStatus::Processing,
    ]
    .into_iter()
    .enumerate()
    {
        let mut s = service(1, 10);
        let id = format!("stray-{i}");
        let mut stray = Job::with_id(id.clone(), "https://youtube.com/s".to_string(), 1);
        stray.status = st;
        s.job_repository.create_job(&stray).unwrap();
        let other = Job::with_id("other".to_string(), "https://youtube.com/o".to_string(), 2);
        s.job_repository.create_job(&other).unwrap();
        let receipt = if i % 2 == 0 { s.cancel_job_at(&id, 9) } else { s.cancel_job(&id) }.unwrap();
        assert_eq!(receipt.message, "Job cancelled successfully");
        assert_eq!(receipt.job_id, id);
        assert!(!receipt.abort_task);
        let row = s.job_repository.get_job(&id).unwrap();
        assert_eq!(row.status, JobStatus::Cancelled);
        assert_eq!(row.error_message.as_deref(), Some("Job cancelled by user"));
        let untouched = s.job_repository.get_job("other").unwrap();
        assert_eq!((untouched.status, untouched.updated_at), (JobStatus::Pending, 2));
        assert!(s.job_repository.find_active_job_by_url("https://youtube.com/s").is_none());
    }
}

#[test]
fn cancel_after_a_refused_enqueue_frees_the_url() {
    let mut s = service(1, 1);
    submit(&mut s, "https://youtube.com/first", "job-1", 1).unwrap();
    assert!(submit(&mut s, "https://youtube.com/second", "job-2", 2).is_err());
    assert_eq!(status(&s, "job-2"), JobStatus::Pending);
    assert!(s.cancel_job_at("job-2", 3).is_ok());
    assert_eq!(status(&s, "job-2"), JobStatus::Cancelled);
    assert_eq!(s.job_queue.get_queue_info(), (1, 0));
    let e = submit(&mut s, "https://youtube.com/second", "job-3", 4).unwrap_err();
    assert_eq!(e.status_code(), 500);
    assert_eq!(status(&s, "job-3"), JobStatus::Pending);
}

#[test]
fn lookups() {
    let mut s = service(1, 10);
    submit(&mut s, "https://youtube.com/watch?v=X", "job-1", 1).unwrap();
    assert_eq!(s.get_job_status("job-1").unwrap().url, "https://youtube.com/watch?v=X");
    assert_eq!(
        s.get_job_status("job-2").unwrap_err(),
        AppError::NotFound("Job not found: job-2".into())
    );
    assert_eq!(
        s.get_job_status("").unwrap_err(),
        AppError::BadRequest("Job ID must be between 1 and 100 characters".into())
    );
    assert_eq!(
        s.get_processed_video("job-1").unwrap_err(),
        AppError::BadRequest("Job not completed yet".into())
    );
    let mut done = Job::with_id("done".to_string(), "u".to_string(), 1);
    done.status = JobStatus::Completed;
    assert!(s.job_repository.create_job(&done).is_err());
    done.processed_path = Some("/w/done_processed.mp4".to_string());
    s.job_repository.create_job(&done).unwrap();
    assert_eq!(s.get_processed_video("done"), Ok("/w/done_processed.mp4".to_string()));
    assert_eq!(
        s.get_processed_video("nope").unwrap_err(),
        AppError::NotFound("Job not found: nope".into())
    );
}

#[test]
fn listing_defaults_and_filters() {
    let mut s = service(1, 200);
    for i in 0..130 {
        submit(&mut s, &format!("https://youtube.com/{i}"), &format!("job-{i}"), i).unwrap();
    }
    s.job_repository.update_job_status_at("job-7", JobStatus::Failed, None, 500);
    let all = JobListQuery { page: None, page_size: None, status: None };
    let (jobs, info) = s.list_jobs(&all).unwrap();
    assert_eq!(jobs.len(), 20);
    assert_eq!(jobs[0].id, "job-129");
    assert_eq!(info, PaginationInfo { current_page: 0, page_size: 20, total_pages: 7, total_jobs: 20 });
    let big = JobListQuery { page: Some(1), page_size: Some(5000), status: None };
    let (jobs, info) = s.list_jobs(&big).unwrap();
    assert_eq!(jobs.len(), 30);
    assert_eq!(info, PaginationInfo { current_page: 1, page_size: 100, total_pages: 2, total_jobs: 30 });
    let failed = JobListQuery { page: None, page_size: None, status: Some("FAILED".into()) };
    let (jobs, info) = s.list_jobs(&failed).unwrap();
    assert_eq!(jobs.len(), 1);
    assert_eq!(jobs[0].id, "job-7");
    assert_eq!(info.total_pages, 1);
    let wrong = JobListQuery { page: None, page_size: None, status: Some("Claimed".into()) };
    assert_eq!(
        s.list_jobs(&wrong).unwrap_err(),
        AppError::BadRequest("Invalid status filter: Claimed".into())
    );
    assert_eq!(all.page_number(), 0);
    assert_eq!(all.effective_page_size(), 20);
    assert_eq!(big.effective_page_size(), 100);
}
