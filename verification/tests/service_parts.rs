use aperio::auth::{check_credentials, is_authorized, AuthMiddleware};
use aperio::config::load_config;
use aperio::error::AppError;
use aperio::job::{current_millis, Job, MAX_TIMESTAMP_MS};
use aperio::metrics::Counter;
use aperio::middleware::{Cors, RequestMetrics, SecurityHeaders};
use aperio::monitoring::{CheckResult, HealthChecks, HealthStatus};
use aperio::pool::PoolStats;
use aperio::retention::{RetentionService, INITIAL_DELAY_SECS};
use aperio::routes::{format_duration, video_file_name, JobResponse};
use aperio::status::JobStatus;
use aperio::store::JobRepository;

#[test]
fn pool_occupancy() {
    assert_eq!(PoolStats { available: 1, total: 3 }.active(), 2);
    assert_eq!(PoolStats { available: 3, total: 3 }.active(), 0);
    assert_eq!(PoolStats { available: 5, total: 3 }.active(), 0);
    assert_eq!(PoolStats { available: 0, total: usize::MAX }.active(), usize::MAX);
}

#[test]
fn no_password_lets_everyone_in() {
    assert!(is_authorized(None, None));
    assert!(is_authorized(None, Some("garbage")));
    let open = AuthMiddleware::new(load_config(&Vec::new()));
    assert!(open.authorize(None));
}

#[test]
fn password_must_be_shown() {
    let p = Some("user:pass");
    assert!(is_authorized(p, Some("Basic dXNlcjpwYXNz")));
    assert!(!is_authorized(p, None));
    assert!(!is_authorized(p, Some("")));
    assert!(!is_authorized(p, Some("Basic ")));
    assert!(!is_authorized(p, Some("basic dXNlcjpwYXNz")));
    assert!(!is_authorized(p, Some("Basic  dXNlcjpwYXNz")));
    assert!(!is_authorized(p, Some("Bearer dXNlcjpwYXNz")));
    assert!(!is_authorized(p, Some("Basic dXNlcjpwYXNzeA==")));
    assert!(!is_authorized(p, Some("Basic user:pass")));
    assert!(!is_authorized(p, Some("Basic dXNlcjpwYXNz!")));
    assert!(!is_authorized(p, Some("Basic /w==")));
    assert!(is_authorized(Some(""), Some("Basic ")));
    assert!(is_authorized(Some("\u{e9}"), Some("Basic w6k=")));
    let vars = vec![("APERIO_AUTH_PASSWORD".to_string(), "user:pass".to_string())];
    let guarded = AuthMiddleware::new(load_config(&vars));
    assert!(guarded.authorize(Some("Basic dXNlcjpwYXNz")));
    assert!(!guarded.authorize(Some("Basic dXNlcjpwYXNa")));
    assert!(!guarded.authorize(None));
    assert_eq!(AuthMiddleware::challenge(), "Basic realm=\"Aperio API\"");
}

#[test]
fn decoded_credentials() {
    assert!(check_credentials(Some(b"secret".to_vec()), "secret"));
    assert!(!check_credentials(Some(b"secret".to_vec()), "Secret"));
    assert!(!check_credentials(Some(vec![0xff, 0xfe]), "secret"));
    assert!(!check_credentials(None, "secret"));
    assert!(check_credentials(Some(Vec::new()), ""));
}

#[test]
fn security_headers_in_order() {
    assert_eq!(
        SecurityHeaders::headers(),
        vec![
            ("x-frame-options", "DENY"),
            ("x-content-type-options", "nosniff"),
            ("x-xss-protection", "1; mode=block"),
            ("content-security-policy", "default-src 'self'"),
            ("strict-transport-security", "max-age=31536000; includeSubDomains"),
        ]
    );
}

#[test]
fn cors_rules() {
    let c = Cors::new(vec!["https://a.example".to_string()]);
    assert_eq!(c.allowed_origins(), &vec!["https://a.example".to_string()]);
    assert_eq!(c.duplicate().allowed_origins(), c.allowed_origins());
    assert_eq!(Cors::restrictive().allowed_origins(), &vec!["http://localhost:3000".to_string()]);
    assert_eq!(c.allow_origin_value(), "*");
}

#[test]
fn request_counters() {
    let mut m = RequestMetrics::new();
    m.record_request(12, false);
    m.record_request(30, true);
    assert_eq!(m, RequestMetrics { total_requests: 2, error_requests: 1, total_duration_ms: 42 });
    let mut edge = RequestMetrics {
        total_requests: usize::MAX,
        error_requests: usize::MAX,
        total_duration_ms: u64::MAX - 1,
    };
    edge.record_request(3, true);
    assert_eq!(edge, RequestMetrics { total_requests: 0, error_requests: 0, total_duration_ms: 1 });
    assert!(RequestMetrics::is_error(400) && RequestMetrics::is_error(500));
    assert!(!RequestMetrics::is_error(399) && !RequestMetrics::is_error(200));
}

#[test]
fn health_adds_up() {
    let healthy = || CheckResult::database(Ok(3));
    let checks = HealthChecks {
        database: healthy(),
        disk_space: CheckResult::working_dir(None),
        dependencies: CheckResult::dependencies(true, true),
    };
    assert_eq!(checks.overall_status(), "healthy");
    assert_eq!(checks.database.message.as_deref(), Some("Database connection successful"));
    assert_eq!(checks.database.response_time_ms, Some(3));
    assert_eq!(checks.disk_space.response_time_ms, Some(0));
    assert_eq!(checks.dependencies.response_time_ms, Some(10));
    let h = HealthStatus::new(checks, 1_700_000_000, "1.2.3", 77);
    assert_eq!((h.status.as_str(), h.timestamp, h.version.as_str(), h.uptime_seconds), ("healthy", 1_700_000_000, "1.2.3", 77));
    assert_eq!(h.health_answer(), Ok(()));
    assert_eq!(h.readiness_answer(), Ok(()));

    let degraded = HealthChecks {
        database: healthy(),
        disk_space: CheckResult::working_dir(None),
        dependencies: CheckResult::dependencies(true, false),
    };
    assert_eq!(degraded.dependencies.message.as_deref(), Some("Some dependencies may be missing"));
    let h = HealthStatus::new(degraded, 1, "v", 1);
    assert_eq!(h.status, "degraded");
    assert_eq!(h.health_answer(), Ok(()));

    let disk = HealthChecks {
        database: healthy(),
        disk_space: CheckResult::working_dir(Some("denied".to_string())),
        dependencies: CheckResult::dependencies(true, true),
    };
    assert_eq!(disk.disk_space.message.as_deref(), Some("Working directory inaccessible: denied"));
    assert_eq!(disk.overall_status(), "degraded");

    let critical = HealthChecks {
        database: CheckResult::database(Err("pool timed out".to_string())),
        disk_space: CheckResult::working_dir(None),
        dependencies: CheckResult::dependencies(true, true),
    };
    assert_eq!(critical.database.message.as_deref(), Some("Database connection failed: pool timed out"));
    let h = HealthStatus::new(critical, 1, "v", 1);
    assert_eq!(h.status, "critical");
    assert_eq!(h.health_answer(), Err(AppError::Internal("Service unhealthy".into())));
    assert_eq!(h.readiness_answer(), Err(AppError::Internal("Service not ready".into())));
}

#[test]
fn counters_in_prometheus_format() {
    let mut c = Counter::new(vec![
        ("method".to_string(), "GET".to_string()),
        ("path".to_string(), "/jobs".to_string()),
    ]);
    c.increment();
    c.increment();
    assert_eq!(c.value, 2);
    assert_eq!(c.format_labels(), "method=\"GET\",path=\"/jobs\"");
    assert_eq!(
        c.prometheus_lines("http_requests"),
        "# TYPE http_requests counter\nhttp_requests{method=\"GET\",path=\"/jobs\"} 2\n"
    );
    let mut bare = Counter::new(Vec::new());
    assert_eq!(bare.format_labels(), "");
    assert_eq!(bare.prometheus_lines("n"), "# TYPE n counter\nn{} 0\n");
    bare.value = u64::MAX;
    bare.increment();
    assert_eq!(bare.value, u64::MAX);
}

#[test]
fn job_as_clients_see_it() {
    let mut job = Job::with_id("job-1".to_string(), "https://youtu.be/x".to_string(), 947_638_923_004);
    let r = JobResponse::from(&job);
    assert_eq!(r.id, "job-1");
    assert_eq!(r.status, JobStatus::Pending);
    assert_eq!(r.url, "https://youtu.be/x");
    assert_eq!(r.created_at, "2000-01-12T01:02:03.004+00:00");
    assert_eq!(r.updated_at, "2000-01-12T01:02:03.004+00:00");
    assert_eq!(r.error_message, None);
    assert_eq!(r.processing_time, None);
    job.set_error_at("Download error: gone".to_string(), 947_638_924_000);
    job.set_processing_time_at(75, 947_638_924_000);
    let r = JobResponse::try_from(&job).unwrap();
    assert_eq!(r.status, JobStatus::Failed);
    assert_eq!(r.updated_at, "2000-01-12T01:02:04+00:00");
    assert_eq!(r.error_message.as_deref(), Some("Download error: gone"));
    assert_eq!(r.processing_time.as_deref(), Some("75s"));
    let epoch = Job::with_id("e".to_string(), "u".to_string(), 0);
    assert_eq!(JobResponse::from(&epoch).created_at, "1970-01-01T00:00:00+00:00");
    let last = Job::with_id("l".to_string(), "u".to_string(), MAX_TIMESTAMP_MS);
    assert_eq!(JobResponse::from(&last).created_at, "+262142-12-31T23:59:59.999+00:00");
    let early = Job::with_id("x".to_string(), "u".to_string(), -1);
    assert!(JobResponse::try_from(&early).is_none());
    let late = Job::with_id("x".to_string(), "u".to_string(), MAX_TIMESTAMP_MS + 1);
    assert!(JobResponse::try_from(&late).is_none());
}

#[test]
fn durations_as_shown() {
    assert_eq!(format_duration(0), "0ns");
    assert_eq!(format_duration(1), "1s");
    assert_eq!(format_duration(3600), "3600s");
    assert_eq!(format_duration(u64::MAX), "18446744073709551615s");
    for s in [0u64, 1, 59, 86_400] {
        assert_eq!(format_duration(s), format!("{:?}", std::time::Duration::from_secs(s)));
    }
    assert_eq!(video_file_name("job-1"), "video_job-1.mp4");
}

#[test]
fn job_fields_and_clock() {
    let now = current_millis();
    assert!(now > 1_600_000_000_000 && now <= MAX_TIMESTAMP_MS);
    let mut job = Job::new("https://youtu.be/x".to_string());
    assert_eq!(job.status, JobStatus::Pending);
    assert_eq!(job.url, "https://youtu.be/x");
    assert!(job.created_at >= now);
    assert_eq!(job.id.len(), 36);
    assert_eq!(job.get_downloaded_path(), None);
    job.update_status(JobStatus::Downloading);
    assert_eq!(job.status, JobStatus::Downloading);
    job.set_downloaded_path("/w/a".to_string());
    job.set_processed_path("/w/b".to_string());
    job.set_processing_time(12);
    assert_eq!(job.get_downloaded_path().as_deref(), Some("/w/a"));
    assert_eq!(job.get_processed_path().as_deref(), Some("/w/b"));
    assert_eq!(job.get_processing_time(), Some(12));
    job.mark_completed("/w/c".to_string(), 15);
    assert_eq!((job.status, job.processing_time_seconds), (JobStatus::Completed, Some(15)));
    assert!(job.is_finished());
    job.set_error("boom".to_string());
    assert_eq!(job.status, JobStatus::Failed);
    assert_eq!(job.error_message.as_deref(), Some("boom"));
    assert!(job.updated_at >= job.created_at);
}

#[test]
fn updated_at_never_goes_back() {
    let mut job = Job::with_id("a".to_string(), "u".to_string(), 100);
    job.update_status_at(JobStatus::Claimed, 50);
    assert_eq!(job.updated_at, 100);
    job.touch(150);
    assert_eq!(job.updated_at, 150);
    job.set_cancelled_at("why".to_string(), 10);
    assert_eq!((job.status, job.updated_at), (JobStatus::Cancelled, 150));
    job.set_processing_time_at(u64::MAX, 200);
    assert_eq!(job.processing_time_seconds, Some(i64::MAX));
    job.processing_time_seconds = Some(-4);
    assert_eq!(job.get_processing_time(), Some(0));
    let copy = job.duplicate();
    assert_eq!((copy.id, copy.updated_at, copy.error_message), (job.id, 200, job.error_message));
}

#[test]
fn retention_run() {
    let day: i64 = 86_400_000;
    let r = RetentionService::new(30, 24);
    assert_eq!(r.interval_secs(), 86_400);
    assert_eq!(RetentionService::new(1, u64::MAX).interval_secs(), u64::MAX);
    assert_eq!(INITIAL_DELAY_SECS, 60);
    let mut t = JobRepository::new();
    for (id, status, at) in [
        ("a", JobStatus::Completed, 0),
        ("b", JobStatus::Downloading, 0),
        ("c", JobStatus::Failed, 80 * day),
        ("d", JobStatus::Cancelled, 1),
    ] {
        let mut j = Job::with_id(id.to_string(), "u".to_string(), at);
        j.status = status;
        j.processed_path = Some(format!("/w/{id}_processed.mp4"));
        t.create_job(&j).unwrap();
    }
    let run = r.run_cleanup_at(&mut t, 100 * day);
    assert_eq!(run.before, (1, 1, 1));
    assert_eq!(run.deleted, vec!["a", "d"]);
    assert_eq!(run.after, (0, 1, 0));
    assert_eq!(t.get_job("b").unwrap().status, JobStatus::Downloading);
    let again = r.cleanup_now(&mut t);
    assert_eq!(again.deleted, vec!["c"]);
    assert!(r.run_cleanup(&mut t).deleted.is_empty());
    assert_eq!(t.len(), 1);
}
