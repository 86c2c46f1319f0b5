use aperio::error::AppError;
use aperio::job::Job;
use aperio::status::JobStatus;
use aperio::store::{JobRepository, StatusCounts};

fn job(id: &str, url: &str, created: i64) -> Job {
    Job::with_id(id.to_string(), url.to_string(), created)
}

fn with_status(id: &str, status: JobStatus, at: i64) -> Job {
    let mut j = job(id, &format!("https://youtube.com/{id}"), at);
    j.status = status;
    if status == JobStatus::Completed {
        j.processed_path = Some(format!("/w/{id}_processed.mp4"));
    }
    j
}

fn ids(jobs: &[Job]) -> Vec<String> {
    jobs.iter().map(|j| j.id.clone()).collect()
}

const ALL: [JobStatus; 7] = [
    JobStatus::Pending,
    JobStatus::Claimed,
    JobStatus::Downloading,
    JobStatus::Processing,
    JobStatus::Completed,
    JobStatus::Failed,
    JobStatus::Cancelled,
];

#[test]
fn create_then_get() {
    let mut t = JobRepository::new();
    let j = job("a", "https://youtube.com/a", 10);
    assert_eq!(t.create_job(&j), Ok(()));
    let got = t.get_job("a").unwrap();
    assert_eq!(got.id, "a");
    assert_eq!(got.url, "https://youtube.com/a");
    assert_eq!(got.status, JobStatus::Pending);
    assert_eq!((got.created_at, got.updated_at), (10, 10));
    assert!(t.get_job("b").is_none());
    assert_eq!(t.len(), 1);
}

#[test]
fn create_refuses_a_second_row_for_an_id() {
    let mut t = JobRepository::new();
    t.create_job(&job("a", "u1", 10)).unwrap();
    let r = t.create_job(&job("a", "u2", 20));
    assert_eq!(
        r,
        Err(AppError::Internal("Failed to create job: a job with id a already exists".to_string()))
    );
    assert_eq!(t.get_job("a").unwrap().url, "u1");
    assert_eq!(t.len(), 1);
}

#[test]
fn update_writes_fields_and_advances_time() {
    let mut t = JobRepository::new();
    t.create_job(&job("a", "u", 10)).unwrap();
    let mut j = t.get_job("a").unwrap();
    j.status = JobStatus::Downloading;
    j.downloaded_path = Some("/w/a_original.mp4".to_string());
    j.url = "changed".to_string();
    j.created_at = 999;
    assert_eq!(t.update_job_at(&j, 50), Ok(()));
    let row = t.get_job("a").unwrap();
    assert_eq!(row.status, JobStatus::Downloading);
    assert_eq!(row.downloaded_path.as_deref(), Some("/w/a_original.mp4"));
    assert_eq!(row.url, "u");
    assert_eq!(row.created_at, 10);
    assert_eq!(row.updated_at, 50);
    assert_eq!(t.update_job_at(&j, 20), Ok(()));
    assert_eq!(t.get_job("a").unwrap().updated_at, 50);
}

#[test]
fn update_of_missing_row_is_not_found() {
    let mut t = JobRepository::new();
    let r = t.update_job_at(&job("ghost", "u", 1), 2);
    assert_eq!(r, Err(AppError::NotFound("Job not found: ghost".to_string())));
}

#[test]
fn update_refuses_illegal_moves() {
    let mut t = JobRepository::new();
    t.create_job(&with_status("a", JobStatus::Completed, 10)).unwrap();
    let r = t.update_job_at(&with_status("a", JobStatus::Cancelled, 10), 20);
    assert_eq!(
        r,
        Err(AppError::Internal("Illegal status transition: Completed -> Cancelled".to_string()))
    );
    assert_eq!(t.get_job("a").unwrap().status, JobStatus::Completed);
    assert_eq!(t.get_job("a").unwrap().updated_at, 10);
    t.create_job(&with_status("b", JobStatus::Processing, 11)).unwrap();
    assert!(t.update_job_at(&with_status("b", JobStatus::Downloading, 11), 20).is_err());
    assert!(t.update_job_at(&with_status("b", JobStatus::Processing, 11), 20).is_ok());
    assert!(t.update_job_at(&with_status("b", JobStatus::Completed, 11), 21).is_ok());
}

#[test]
fn completed_jobs_need_their_output() {
    let mut t = JobRepository::new();
    let mut bare = job("a", "u", 10);
    bare.status = JobStatus::Completed;
    assert_eq!(
        t.create_job(&bare),
        Err(AppError::Internal("Completed job has no processed path: a".to_string()))
    );
    assert_eq!(t.len(), 0);
    let mut running = job("a", "u", 10);
    running.status = JobStatus::Processing;
    t.create_job(&running).unwrap();
    assert!(!t.update_job_status_at("a", JobStatus::Completed, None, 20));
    assert_eq!(
        t.update_job_at(&bare, 20),
        Err(AppError::Internal("Completed job has no processed path: a".to_string()))
    );
    assert_eq!(t.get_job("a").unwrap().status, JobStatus::Processing);
    running.processed_path = Some("/w/a_processed.mp4".to_string());
    assert_eq!(t.update_job_at(&running, 21), Ok(()));
    assert!(t.update_job_status_at("a", JobStatus::Completed, Some(JobStatus::Processing), 22));
    let row = t.get_job("a").unwrap();
    assert_eq!((row.status, row.updated_at), (JobStatus::Completed, 22));
    assert_eq!(row.processed_path.as_deref(), Some("/w/a_processed.mp4"));
}

#[test]
fn update_now_uses_the_clock() {
    let mut t = JobRepository::new();
    t.create_job(&job("a", "u", 10)).unwrap();
    let j = t.get_job("a").unwrap();
    assert_eq!(t.update_job(&j), Ok(()));
    assert!(t.get_job("a").unwrap().updated_at > 1_600_000_000_000);
}

#[test]
fn no_row_leaves_a_final_status() {
    for terminal in [JobStatus::Completed, JobStatus::Failed, JobStatus::Cancelled] {
        let mut t = JobRepository::new();
        t.create_job(&with_status("a", terminal, 10)).unwrap();
        let mut now = 11;
        for new in ALL {
            for expected in [None, Some(terminal), Some(JobStatus::Pending)] {
                let changed = t.update_job_status_at("a", new, expected, now);
                assert_eq!(changed, new == terminal && expected != Some(JobStatus::Pending));
                let _ = t.update_job_at(&with_status("a", new, 10), now);
                assert_eq!(t.get_job("a").unwrap().status, terminal);
                now += 1;
            }
        }
        assert!(!t.try_claim_pending_job_at("a", now));
        assert!(!t.unclaim_job_at("a", now));
        assert_eq!(t.get_job("a").unwrap().status, terminal);
    }
}

#[test]
fn legal_moves_are_exactly_the_lifecycle() {
    let legal = [
        (JobStatus::Pending, JobStatus::Claimed),
        (JobStatus::Pending, JobStatus::Downloading),
        (JobStatus::Pending, JobStatus::Failed),
        (JobStatus::Pending, JobStatus::Cancelled),
        (JobStatus::Claimed, JobStatus::Pending),
        (JobStatus::Claimed, JobStatus::Downloading),
        (JobStatus::Claimed, JobStatus::Failed),
        (JobStatus::Claimed, JobStatus::Cancelled),
        (JobStatus::Downloading, JobStatus::Processing),
        (JobStatus::Downloading, JobStatus::Failed),
        (JobStatus::Downloading, JobStatus::Cancelled),
        (JobStatus::Processing, JobStatus::Completed),
        (JobStatus::Processing, JobStatus::Failed),
        (JobStatus::Processing, JobStatus::Cancelled),
    ];
    for from in ALL {
        for to in ALL {
            assert_eq!(from.can_transition_to(to), legal.contains(&(from, to)), "{from:?} {to:?}");
        }
        assert_eq!(
            from.is_terminal(),
            matches!(from, JobStatus::Completed | JobStatus::Failed | JobStatus::Cancelled)
        );
    }
}

#[test]
fn conditional_change_checks_the_expected_status() {
    let mut t = JobRepository::new();
    t.create_job(&job("a", "u", 10)).unwrap();
    assert!(!t.update_job_status_at("a", JobStatus::Downloading, Some(JobStatus::Claimed), 20));
    assert_eq!(t.get_job("a").unwrap().updated_at, 10);
    assert!(t.update_job_status_at("a", JobStatus::Downloading, Some(JobStatus::Pending), 20));
    let row = t.get_job("a").unwrap();
    assert_eq!((row.status, row.updated_at), (JobStatus::Downloading, 20));
    assert!(!t.update_job_status_at("missing", JobStatus::Failed, None, 30));
    assert!(t.update_job_status_at("a", JobStatus::Failed, None, 30));
    assert!(t.update_job_status("a", JobStatus::Failed, None));
}

#[test]
fn only_one_claim_wins() {
    let mut t = JobRepository::new();
    t.create_job(&job("a", "u", 10)).unwrap();
    assert!(t.try_claim_pending_job_at("a", 20));
    assert!(!t.try_claim_pending_job_at("a", 21));
    assert_eq!(t.get_job("a").unwrap().status, JobStatus::Claimed);
    assert!(t.unclaim_job_at("a", 22));
    assert!(!t.unclaim_job_at("a", 23));
    assert_eq!(t.get_job("a").unwrap().status, JobStatus::Pending);
    assert!(t.try_claim_pending_job("a"));
    assert!(!t.try_claim_pending_job("a"));
    assert!(t.unclaim_job("a"));
    assert!(!t.try_claim_pending_job_at("missing", 30));
}

#[test]
fn newest_active_job_for_a_url() {
    let mut t = JobRepository::new();
    t.create_job(&job("old", "u", 10)).unwrap();
    t.create_job(&job("new", "u", 30)).unwrap();
    t.create_job(&job("other", "v", 40)).unwrap();
    t.create_job(&job("mid", "u", 20)).unwrap();
    assert_eq!(t.find_active_job_by_url("u").unwrap().id, "new");
    assert!(t.update_job_status_at("new", JobStatus::Cancelled, None, 50));
    assert_eq!(t.find_active_job_by_url("u").unwrap().id, "mid");
    assert!(t.update_job_status_at("mid", JobStatus::Claimed, None, 51));
    assert_eq!(t.find_active_job_by_url("u").unwrap().status, JobStatus::Claimed);
    assert!(t.update_job_status_at("mid", JobStatus::Failed, None, 52));
    assert!(t.update_job_status_at("old", JobStatus::Failed, None, 53));
    assert!(t.find_active_job_by_url("u").is_none());
    assert!(t.find_active_job_by_url("w").is_none());
}

#[test]
fn listings_are_newest_first() {
    let mut t = JobRepository::new();
    t.create_job(&job("b", "u", 20)).unwrap();
    t.create_job(&job("a", "u", 10)).unwrap();
    t.create_job(&job("c", "u", 30)).unwrap();
    t.create_job(&job("b2", "u", 20)).unwrap();
    assert_eq!(ids(&t.list_all_jobs()), vec!["c", "b2", "b", "a"]);
    assert!(t.update_job_status_at("b", JobStatus::Failed, None, 40));
    assert_eq!(ids(&t.list_jobs_by_status(JobStatus::Pending)), vec!["c", "b2", "a"]);
    assert_eq!(ids(&t.list_jobs_by_status(JobStatus::Failed)), vec!["b"]);
    assert!(t.list_jobs_by_status(JobStatus::Completed).is_empty());
    assert_eq!(ids(&t.get_pending_jobs()), vec!["a", "b2", "c"]);
}

#[test]
fn pages_and_page_counts() {
    let mut t = JobRepository::new();
    for i in 0..7 {
        t.create_job(&job(&format!("j{i}"), "u", i)).unwrap();
    }
    let (page, pages) = t.list_jobs_paginated(0, 3, None);
    assert_eq!((ids(&page), pages), (vec!["j6".to_string(), "j5".into(), "j4".into()], 3));
    let (page, pages) = t.list_jobs_paginated(2, 3, None);
    assert_eq!((ids(&page), pages), (vec!["j0".to_string()], 3));
    let (page, pages) = t.list_jobs_paginated(3, 3, None);
    assert_eq!((ids(&page), pages), (vec![], 3));
    let (page, pages) = t.list_jobs_paginated(u32::MAX, u32::MAX, None);
    assert_eq!((ids(&page), pages), (vec![], 1));
    let (page, pages) = t.list_jobs_paginated(0, 7, None);
    assert_eq!((page.len(), pages), (7, 1));
    let (page, pages) = t.list_jobs_paginated(0, 0, None);
    assert_eq!((page.len(), pages), (0, u32::MAX));
    let (page, pages) = t.list_jobs_paginated(0, 0, Some(JobStatus::Failed));
    assert_eq!((page.len(), pages), (0, 0));
    let (page, pages) = t.list_jobs_paginated(0, 5, Some(JobStatus::Failed));
    assert_eq!((page.len(), pages), (0, 0));
    assert!(t.update_job_status_at("j3", JobStatus::Failed, None, 9));
    let (page, pages) = t.list_jobs_paginated(0, 5, Some(JobStatus::Failed));
    assert_eq!((ids(&page), pages), (vec!["j3".to_string()], 1));
}

#[test]
fn status_histogram() {
    let mut t = JobRepository::new();
    for (i, s) in [
        JobStatus::Pending,
        JobStatus::Pending,
        JobStatus::Claimed,
        JobStatus::Completed,
        JobStatus::Failed,
        JobStatus::Failed,
        JobStatus::Failed,
        JobStatus::Cancelled,
    ]
    .into_iter()
    .enumerate()
    {
        t.create_job(&with_status(&format!("j{i}"), s, i as i64)).unwrap();
    }
    assert_eq!(
        t.get_job_stats(),
        StatusCounts {
            pending: 2,
            claimed: 1,
            downloading: 0,
            processing: 0,
            completed: 1,
            failed: 3,
            cancelled: 1
        }
    );
    assert_eq!(t.get_cleanup_stats(), (1, 3, 1));
}

#[test]
fn retention_deletes_only_old_finished_jobs() {
    let day: i64 = 86_400_000;
    let now = 100 * day;
    let mut t = JobRepository::new();
    for (i, s) in ALL.into_iter().enumerate() {
        t.create_job(&with_status(&format!("old{i}"), s, 0)).unwrap();
        t.create_job(&with_status(&format!("new{i}"), s, now - day)).unwrap();
    }
    let edge = now - 30 * day;
    t.create_job(&with_status("edge", JobStatus::Failed, edge)).unwrap();
    t.create_job(&with_status("before", JobStatus::Failed, edge - 1)).unwrap();
    let deleted = t.cleanup_old_jobs_at(30, now);
    assert_eq!(deleted, vec!["old4", "old5", "old6", "before"]);
    for i in 0..4 {
        assert_eq!(t.get_job(&format!("old{i}")).unwrap().status, ALL[i]);
    }
    for i in 0..7 {
        assert!(t.get_job(&format!("new{i}")).is_some());
    }
    assert!(t.get_job("edge").is_some());
    assert!(t.get_job("before").is_none());
    assert_eq!(t.len(), 12);
    assert!(t.cleanup_old_jobs_at(30, now).is_empty());
}

#[test]
fn retention_with_no_days_keeps_nothing_finished() {
    let mut t = JobRepository::new();
    t.create_job(&with_status("done", JobStatus::Completed, 5)).unwrap();
    t.create_job(&with_status("busy", JobStatus::Processing, 5)).unwrap();
    assert_eq!(t.cleanup_old_jobs_at(0, 5), Vec::<String>::new());
    assert_eq!(t.cleanup_old_jobs_at(0, 6), vec!["done"]);
    assert_eq!(t.cleanup_old_jobs_at(u32::MAX, i64::MIN), Vec::<String>::new());
    assert_eq!(t.cleanup_old_jobs(0), Vec::<String>::new());
    assert!(t.get_job("busy").is_some());
}

#[test]
fn delete_removes_one_row() {
    let mut t = JobRepository::new();
    t.create_job(&job("a", "u", 1)).unwrap();
    t.create_job(&job("b", "u", 2)).unwrap();
    t.delete_job("a");
    t.delete_job("zzz");
    assert_eq!(ids(&t.list_all_jobs()), vec!["b"]);
    assert_eq!(t.create_job(&job("a", "u", 3)), Ok(()));
}

#[test]
fn status_names_round_trip() {
    for s in ALL {
        assert_eq!(JobStatus::parse(s.as_str()), Some(s));
        assert_eq!(JobStatus::from_stored(&s.to_display_string()), s);
    }
    assert_eq!(JobStatus::Pending.as_str(), "Pending");
    assert_eq!(JobStatus::Cancelled.as_str(), "Cancelled");
    assert_eq!(JobStatus::parse("pending"), None);
    assert_eq!(JobStatus::from_stored("???"), JobStatus::Failed);
    assert_eq!(JobStatus::from_filter("pending"), Some(JobStatus::Pending));
    assert_eq!(JobStatus::from_filter("downloading"), Some(JobStatus::Downloading));
    assert_eq!(JobStatus::from_filter("processing"), Some(JobStatus::Processing));
    assert_eq!(JobStatus::from_filter("completed"), Some(JobStatus::Completed));
    assert_eq!(JobStatus::from_filter("failed"), Some(JobStatus::Failed));
    assert_eq!(JobStatus::from_filter("cancelled"), Some(JobStatus::Cancelled));
    assert_eq!(JobStatus::from_filter("claimed"), None);
    assert_eq!(JobStatus::from_filter("Pending"), None);
}
