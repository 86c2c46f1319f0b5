use aperio::cleanup::CleanupService;
use aperio::config::load_config;
use aperio::download::{
    check_disk_space, download_candidates, is_download_file, locate_downloaded, DownloadService,
    ProcessOutcome,
};
use aperio::error::AppError;
use aperio::job::Job;
use aperio::process::ProcessService;
use aperio::storage::StorageService;

fn names(list: &[&str]) -> Vec<String> {
    list.iter().map(|s| s.to_string()).collect()
}

fn downloader() -> DownloadService {
    let config = load_config(&Vec::new());
    DownloadService::new(config.download, "/app/working".to_string(), &config.security)
}

fn transcoder() -> ProcessService {
    ProcessService::new(load_config(&Vec::new()).processing, "/app/working".to_string())
}

fn job(id: &str, url: &str) -> Job {
    Job::with_id(id.to_string(), url.to_string(), 1)
}

#[test]
fn active_files_form_a_set() {
    let mut c = CleanupService::new("/w".to_string());
    assert_eq!(c.working_dir(), "/w");
    assert!(!c.is_file_active("/w/a"));
    assert_eq!(c.mark_file_active("/w/a"), Ok(()));
    assert_eq!(c.mark_file_active("/w/a"), Ok(()));
    assert_eq!(c.mark_file_active("/w/b"), Ok(()));
    assert!(c.is_file_active("/w/a") && c.is_file_active("/w/b"));
    assert_eq!(c.unmark_file_active("/w/a"), Ok(()));
    assert!(!c.is_file_active("/w/a"));
    assert!(c.is_file_active("/w/b"));
    assert_eq!(c.unmark_file_active("/w/zzz"), Ok(()));
    assert!(c.is_file_active("/w/b"));
}

#[test]
fn cleanup_takes_files_by_prefix_and_skips_active_ones() {
    let mut c = CleanupService::new("/w".to_string());
    c.mark_file_active("/w/abc_processed.mp4").unwrap();
    let listing = names(&["abc_original.mp4", "xyz_original.mp4", "abc_processed.mp4", "abcd_x", "ab", "abc"]);
    let plan = c.plan_cleanup("abc", &listing);
    assert_eq!(plan.to_delete, names(&["/w/abc_original.mp4", "/w/abcd_x", "/w/abc"]));
    assert_eq!(plan.skipped, names(&["/w/abc_processed.mp4"]));
    let none = c.plan_cleanup("nothing", &listing);
    assert!(none.to_delete.is_empty() && none.skipped.is_empty());
    assert!(c.plan_cleanup("abc", &Vec::new()).to_delete.is_empty());
    let slash = CleanupService::new("/w/".to_string());
    assert_eq!(slash.plan_cleanup("a", &names(&["a1"])).to_delete, names(&["/w/a1"]));
}

#[test]
fn cleanup_outcome_lists_every_error() {
    assert_eq!(CleanupService::cleanup_outcome(&Vec::new()), Ok(()));
    assert_eq!(
        CleanupService::cleanup_outcome(&names(&["Failed to remove /w/a: denied"])),
        Err(AppError::Internal(
            "Cleanup completed with errors: Failed to remove /w/a: denied".into()
        ))
    );
    assert_eq!(
        CleanupService::cleanup_outcome(&names(&["one", "two", "three"])),
        Err(AppError::Internal("Cleanup completed with errors: one, two, three".into()))
    );
}

#[test]
fn stale_files_by_age() {
    let files = vec![
        ("old".to_string(), 1_000u64),
        ("edge".to_string(), 6_400u64),
        ("fresh".to_string(), 9_000u64),
        ("older".to_string(), 0u64),
    ];
    assert_eq!(CleanupService::stale_files(&files, 10_000, 1), names(&["old", "older"]));
    assert_eq!(CleanupService::stale_files(&files, 10_000, 0), names(&["old", "edge", "fresh", "older"]));
    assert!(CleanupService::stale_files(&files, 10_000, 3).is_empty());
    assert!(CleanupService::stale_files(&files, 10_000, u64::MAX).is_empty());
}

#[test]
fn disk_space_check() {
    let max = 500 * 1024 * 1024u64;
    let required = 2 * max + 1024 * 1024 * 1024;
    assert_eq!(required, 2_122_317_824);
    assert_eq!(check_disk_space(Some(required), max), Ok(()));
    assert_eq!(check_disk_space(Some(u64::MAX), max), Ok(()));
    assert_eq!(check_disk_space(None, max), Ok(()));
    assert_eq!(
        check_disk_space(Some(required - 1), max),
        Err(AppError::Internal(
            "Insufficient disk space. Available: 2122317823 bytes, Required: 2122317824 bytes".into()
        ))
    );
    assert_eq!(check_disk_space(Some(1_073_741_824), 0), Ok(()));
    assert!(check_disk_space(Some(0), 0).is_err());
}

#[test]
fn names_tried_first() {
    assert_eq!(
        download_candidates("j1"),
        names(&[
            "j1_original.mp4",
            "j1_original_.mp4",
            "j1_original.mkv",
            "j1_original_.mkv",
            "j1_original.avi",
            "j1_original_.avi",
            "j1_original.mov",
            "j1_original_.mov",
            "j1_original.webm",
            "j1_original_.webm",
            "j1_original.m4v",
            "j1_original_.m4v",
        ])
    );
}

#[test]
fn download_names() {
    assert!(is_download_file("j1", "j1_original.mp4"));
    assert!(is_download_file("j1", "j1_original_part1.flv"));
    assert!(is_download_file("j1", "j1_original."));
    assert!(!is_download_file("j1", "j1_original"));
    assert!(!is_download_file("j1", "j1_originals.mp4"));
    assert!(!is_download_file("j1", "j1_processed.mp4"));
    assert!(!is_download_file("j1", "j10_original.mp4"));
    assert!(!is_download_file("j1", "j1.mp4"));
    assert!(!is_download_file("j1", ""));
}

#[test]
fn locating_the_download() {
    let listing = names(&["j1_original.flv", "j2_original.mp4", "j1_original.webm", "j1_original.mkv"]);
    assert_eq!(locate_downloaded("j1", &listing), Some("j1_original.mkv".to_string()));
    assert_eq!(locate_downloaded("j2", &listing), Some("j2_original.mp4".to_string()));
    assert_eq!(locate_downloaded("j3", &listing), None);
    let odd = names(&["j1_processed.mp4", "j1_original.f137.part", "j1_original.flv"]);
    assert_eq!(locate_downloaded("j1", &odd), Some("j1_original.f137.part".to_string()));
    assert_eq!(locate_downloaded("j1", &Vec::new()), None);
    assert_eq!(locate_downloaded("j1", &names(&["j1.mp4"])), None);
}

#[test]
fn download_command_line() {
    let d = downloader();
    let plan = d.prepare(&job("job-1", "https://youtube.com/watch?v=X"), Some(u64::MAX)).unwrap();
    assert_eq!(plan.program, "yt-dlp");
    assert_eq!(plan.timeout_secs, 900);
    assert_eq!(
        plan.args,
        names(&[
            "-o",
            "/app/working/job-1_original.%(ext)s",
            "-f",
            "bestvideo[height<=1080][vcodec^=avc1]+bestaudio[acodec^=mp4a]/best[height<=1080]/best",
            "--merge-output-format",
            "mp4",
            "--max-filesize",
            "524288000",
            "https://youtube.com/watch?v=X",
        ])
    );
    let plan = d.prepare(&job("job-1", "https://YOUTUBE.com"), None).unwrap();
    assert_eq!(plan.args[8], "https://youtube.com/");
}

#[test]
fn download_refusals_in_order() {
    let d = downloader();
    assert_eq!(
        d.prepare(&job("bad id", "http://youtube.com/x"), Some(0)).unwrap_err(),
        AppError::Download("Only HTTPS URLs are allowed for security reasons".into())
    );
    assert_eq!(
        d.prepare(&job("bad id", "https://youtube.com/x"), Some(0)).unwrap_err(),
        AppError::Internal(
            "Insufficient disk space. Available: 0 bytes, Required: 2122317824 bytes".into()
        )
    );
    assert_eq!(
        d.prepare(&job("bad id", "https://youtube.com/x"), None).unwrap_err(),
        AppError::BadRequest("Job ID contains invalid characters".into())
    );
}

#[test]
fn download_endings() {
    let d = downloader();
    let found = || Some("/app/working/job-1_original.mp4".to_string());
    let ok = ProcessOutcome::Exited { success: true, stderr: "warnings".into() };
    let v = d.conclude(&ok, found(), Some(524_288_000));
    assert_eq!((v.result, v.remove), (Ok("/app/working/job-1_original.mp4".to_string()), None));
    let v = d.conclude(&ok, found(), Some(0));
    assert_eq!((v.result.is_ok(), v.remove), (true, None));
    let v = d.conclude(&ok, found(), None);
    assert_eq!(
        (v.result, v.remove),
        (
            Err(AppError::Download("Downloaded file size could not be determined".into())),
            found()
        )
    );
    let v = d.conclude(&ok, found(), Some(524_288_001));
    assert_eq!(
        v.result,
        Err(AppError::Download(
            "Downloaded file exceeds maximum size limit of 524288000 bytes".into()
        ))
    );
    assert_eq!(v.remove, found());
    let v = d.conclude(&ok, None, None);
    assert_eq!((v.result, v.remove), (Err(AppError::Download("No downloaded file found".into())), None));
    let failed = ProcessOutcome::Exited { success: false, stderr: "ERROR: Video unavailable".into() };
    let v = d.conclude(&failed, found(), Some(5));
    assert_eq!((v.result, v.remove), (Err(AppError::Download("ERROR: Video unavailable".into())), found()));
    let v = d.conclude(&ProcessOutcome::SpawnFailed("No such file or directory".into()), found(), None);
    assert_eq!(
        (v.result, v.remove),
        (Err(AppError::Download("Download command failed: No such file or directory".into())), None)
    );
    let v = d.conclude(&ProcessOutcome::TimedOut, None, None);
    assert_eq!(
        (v.result, v.remove),
        (Err(AppError::Timeout("Download timed out after 900 seconds".into())), None)
    );
}

#[test]
fn transcode_command_line() {
    let t = transcoder();
    assert_eq!(t.output_path("job-1"), "/app/working/job-1_processed.mp4");
    let plan = t.prepare(&job("job-1", "u"), "/app/working/job-1_original.mkv");
    assert_eq!(plan.program, "ffmpeg");
    assert_eq!(plan.timeout_secs, 900);
    assert_eq!(
        plan.args,
        names(&[
            "-i",
            "/app/working/job-1_original.mkv",
            "-c:v",
            "libx264",
            "-preset",
            "medium",
            "-crf",
            "23",
            "-profile:v",
            "high",
            "-level",
            "4.0",
            "-pix_fmt",
            "yuv420p",
            "-vf",
            "scale=trunc(iw/2)*2:trunc(ih/2)*2",
            "-c:a",
            "aac",
            "-b:a",
            "128k",
            "-ac",
            "2",
            "-threads",
            "0",
            "-movflags",
            "+faststart",
            "-max_muxing_queue_size",
            "1024",
            "/app/working/job-1_processed.mp4",
        ])
    );
}

#[test]
fn transcode_endings() {
    let t = transcoder();
    let j = job("job-1", "u");
    let out = || Some("/app/working/job-1_processed.mp4".to_string());
    let ok = ProcessOutcome::Exited { success: true, stderr: String::new() };
    let v = t.conclude(&j, &ok, true);
    assert_eq!((v.result, v.remove), (Ok(out().unwrap()), None));
    let v = t.conclude(&j, &ok, false);
    assert_eq!(
        (v.result, v.remove),
        (
            Err(AppError::Processing(
                "Output file not created: /app/working/job-1_processed.mp4".into()
            )),
            None
        )
    );
    let failed = ProcessOutcome::Exited { success: false, stderr: "Invalid data".into() };
    let v = t.conclude(&j, &failed, true);
    assert_eq!((v.result, v.remove), (Err(AppError::Processing("Invalid data".into())), out()));
    let v = t.conclude(&j, &failed, false);
    assert_eq!(v.remove, None);
    let v = t.conclude(&j, &ProcessOutcome::TimedOut, true);
    assert_eq!(
        (v.result, v.remove),
        (Err(AppError::Timeout("Processing timed out after 900 seconds".into())), out())
    );
    let v = t.conclude(&j, &ProcessOutcome::SpawnFailed("not found".into()), true);
    assert_eq!(
        (v.result, v.remove),
        (Err(AppError::Processing("FFmpeg command failed: not found".into())), None)
    );
}

#[test]
fn storage_paths() {
    let config = load_config(&Vec::new()).storage;
    let s = StorageService::new(config.clone()).unwrap();
    assert_eq!(s.local_path(), "/app/storage");
    assert_eq!(s.job_dir("job-1"), "/app/storage/job-1");
    assert_eq!(s.destination("job-1", "job-1_processed.mp4"), "/app/storage/job-1/job-1_processed.mp4");
    let mut unset = config;
    unset.local_path = None;
    assert_eq!(
        StorageService::new(unset).err(),
        Some(AppError::Storage("Local storage path not configured".into()))
    );
    assert_eq!(
        StorageService::pick_processed(&names(&["a.txt", "x_processed.mp4", "y_processed.mkv"])),
        Some("x_processed.mp4".to_string())
    );
    assert_eq!(StorageService::pick_processed(&names(&["a.txt", "processed"])), None);
}
