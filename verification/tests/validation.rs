use aperio::error::AppError;
use aperio::host_rules::{
    validate_host_name, validate_host_security, validate_ip_address, validate_ipv4_address,
    validate_ipv6_address,
};
use aperio::security::SecurityValidator;
use aperio::url_parts::{HostAddr, ParsedUrl};
use aperio::url_rules::validate_url_patterns;

fn validator() -> SecurityValidator {
    SecurityValidator::new(
        vec!["youtube.com".to_string(), "youtu.be".to_string(), "instagram.com".to_string()],
        500,
        2048,
    )
}

fn bad(message: &str) -> Result<(), AppError> {
    Err(AppError::BadRequest(message.to_string()))
}

fn refused(message: &str) -> Result<(), AppError> {
    Err(AppError::Download(message.to_string()))
}

fn url_error(v: &SecurityValidator, url: &str) -> AppError {
    v.validate_url(url).unwrap_err()
}

#[test]
fn max_file_size_is_in_bytes() {
    assert_eq!(validator().get_max_file_size(), 500 * 1024 * 1024);
    assert_eq!(SecurityValidator::new(vec![], 0, 0).get_max_file_size(), 0);
    assert_eq!(
        SecurityValidator::new(vec![], u32::MAX, 1).get_max_file_size(),
        u32::MAX as u64 * 1024 * 1024
    );
}

#[test]
fn job_ids_accepted() {
    let v = validator();
    assert_eq!(v.validate_job_id("a"), Ok(()));
    assert_eq!(v.validate_job_id("abc-DEF_123"), Ok(()));
    assert_eq!(v.validate_job_id("3f2b8c1e-7d4a-4c59-9e3f-0a1b2c3d4e5f"), Ok(()));
    assert_eq!(v.validate_job_id(&"x".repeat(100)), Ok(()));
}

#[test]
fn job_ids_refused() {
    let v = validator();
    assert_eq!(v.validate_job_id("../etc"), bad("Job ID contains invalid path characters"));
    assert_eq!(v.validate_job_id("a/b"), bad("Job ID contains invalid path characters"));
    assert_eq!(v.validate_job_id("a\\b"), bad("Job ID contains invalid path characters"));
    assert_eq!(v.validate_job_id("a..b"), bad("Job ID contains invalid path characters"));
    assert_eq!(v.validate_job_id("a.b"), bad("Job ID contains invalid characters"));
    assert_eq!(v.validate_job_id("a b"), bad("Job ID contains invalid characters"));
    assert_eq!(v.validate_job_id("caf\u{e9}"), bad("Job ID contains invalid characters"));
    assert_eq!(v.validate_job_id(""), bad("Job ID must be between 1 and 100 characters"));
    assert_eq!(
        v.validate_job_id(&"x".repeat(101)),
        bad("Job ID must be between 1 and 100 characters")
    );
}

#[test]
fn input_checks_run_in_order() {
    let v = validator();
    assert_eq!(v.validate_input("hello\nworld\t!", "note", 20), Ok(()));
    assert_eq!(
        v.validate_input("abcdef", "note", 5),
        bad("note too long: 6 characters (max: 5)")
    );
    assert_eq!(v.validate_input("abcde", "note", 5), Ok(()));
    assert_eq!(
        v.validate_input("\u{e9}\u{e9}\u{e9}", "note", 5),
        bad("note too long: 6 characters (max: 5)")
    );
    assert_eq!(v.validate_input("a\0b", "note", 5), bad("note contains null bytes"));
    assert_eq!(
        v.validate_input("a\u{1b}b", "note", 5),
        bad("note contains invalid control characters")
    );
    assert_eq!(
        v.validate_input("a\rb", "note", 5),
        bad("note contains invalid control characters")
    );
    assert_eq!(
        v.validate_input("a\u{85}b", "note", 5),
        bad("note contains invalid control characters")
    );
    assert_eq!(v.validate_input("a\u{a0}b", "note", 5), Ok(()));
    assert_eq!(v.validate_input("", "note", 0), Ok(()));
}

#[test]
fn input_named_job_id_must_be_a_job_id() {
    let v = validator();
    assert_eq!(v.validate_input("abc-1", "job_id", 100), Ok(()));
    assert_eq!(v.validate_input("a b", "job_id", 100), bad("Job ID contains invalid characters"));
    assert_eq!(v.validate_input("a b", "Job_id", 100), Ok(()));
    assert_eq!(
        v.validate_input(&"x".repeat(101), "job_id", 100),
        bad("job_id too long: 101 characters (max: 100)")
    );
    assert_eq!(
        v.validate_input("", "job_id", 100),
        bad("Job ID must be between 1 and 100 characters")
    );
}

#[test]
fn safe_paths() {
    let v = validator();
    assert_eq!(
        v.safe_job_file_path("/app/working", "abc", "original.%(ext)s"),
        Ok("/app/working/abc_original.%(ext)s".to_string())
    );
    assert_eq!(
        v.safe_job_file_path("/app/working/", "abc", "processed.mp4"),
        Ok("/app/working/abc_processed.mp4".to_string())
    );
    assert_eq!(v.safe_job_file_path("", "abc", "x"), Ok("abc_x".to_string()));
    assert_eq!(v.safe_job_file_path("/", "abc", "x"), Ok("/abc_x".to_string()));
    for name in ["a/b", "a\\b", "..", "a..b", ".hidden"] {
        assert_eq!(
            v.safe_job_file_path("/w", "abc", name),
            Err(AppError::BadRequest("Invalid filename".to_string())),
            "{name}"
        );
    }
    assert_eq!(
        v.safe_job_file_path("/w", "../abc", "x"),
        Err(AppError::BadRequest("Job ID contains invalid path characters".to_string()))
    );
    assert_eq!(v.safe_job_file_path("/w", "abc", ""), Ok("/w/abc_".to_string()));
}

#[test]
fn resolved_paths_must_stay_inside() {
    let v = validator();
    assert_eq!(v.ensure_inside("/app/working", "/app/working/abc_x"), Ok(()));
    assert_eq!(v.ensure_inside("/app/working", "/app/working"), Ok(()));
    assert_eq!(v.ensure_inside("/", "/etc/passwd"), Ok(()));
    assert_eq!(
        v.ensure_inside("/app/working", "/app/workingx/abc"),
        bad("Path traversal attempt detected")
    );
    assert_eq!(v.ensure_inside("/app/working", "/etc/passwd"), bad("Path traversal attempt detected"));
    assert_eq!(v.ensure_inside("/app/working", "/app"), bad("Path traversal attempt detected"));
}

#[test]
fn allowed_domains() {
    let v = validator();
    assert!(v.is_domain_allowed("youtube.com"));
    assert!(v.is_domain_allowed("www.youtube.com"));
    assert!(v.is_domain_allowed("a.b.youtu.be"));
    assert!(!v.is_domain_allowed("notyoutube.com"));
    assert!(!v.is_domain_allowed("youtube.com.evil.org"));
    assert!(!v.is_domain_allowed(""));
    assert!(!v.is_domain_allowed(".youtube.co"));
    assert!(!SecurityValidator::new(vec![], 1, 1).is_domain_allowed("youtube.com"));
    assert_eq!(v.allowed_domains_text(), "youtube.com, youtu.be, instagram.com");
    assert_eq!(SecurityValidator::new(vec![], 1, 1).allowed_domains_text(), "");
    assert_eq!(SecurityValidator::new(vec!["a".into()], 1, 1).allowed_domains_text(), "a");
}

#[test]
fn ipv4_ranges() {
    for (octets, message) in [
        ([10, 0, 0, 1], "Access to private IP addresses is not allowed"),
        ([172, 16, 0, 1], "Access to private IP addresses is not allowed"),
        ([172, 31, 255, 255], "Access to private IP addresses is not allowed"),
        ([192, 168, 1, 1], "Access to private IP addresses is not allowed"),
        ([127, 0, 0, 1], "Access to loopback addresses is not allowed"),
        ([127, 255, 255, 254], "Access to loopback addresses is not allowed"),
        ([169, 254, 0, 1], "Access to link-local addresses is not allowed"),
        ([224, 0, 0, 1], "Access to multicast addresses is not allowed"),
        ([239, 255, 255, 255], "Access to multicast addresses is not allowed"),
        ([100, 64, 0, 1], "Access to CGN addresses is not allowed"),
        ([100, 127, 255, 255], "Access to CGN addresses is not allowed"),
    ] {
        assert_eq!(validate_ipv4_address(&octets), refused(message), "{octets:?}");
    }
    for octets in [
        [8, 8, 8, 8],
        [172, 15, 0, 1],
        [172, 32, 0, 1],
        [192, 167, 1, 1],
        [169, 253, 0, 1],
        [223, 255, 255, 255],
        [240, 0, 0, 1],
        [100, 63, 255, 255],
        [100, 128, 0, 0],
        [0, 0, 0, 0],
    ] {
        assert_eq!(validate_ipv4_address(&octets), Ok(()), "{octets:?}");
    }
}

#[test]
fn ipv6_ranges() {
    assert_eq!(
        validate_ipv6_address(&[0, 0, 0, 0, 0, 0, 0, 1]),
        refused("Access to loopback addresses is not allowed")
    );
    assert_eq!(
        validate_ipv6_address(&[0, 0, 0, 0, 0, 0, 0, 0]),
        refused("Access to unspecified addresses is not allowed")
    );
    assert_eq!(
        validate_ipv6_address(&[0xff02, 0, 0, 0, 0, 0, 0, 1]),
        refused("Access to multicast addresses is not allowed")
    );
    assert_eq!(
        validate_ipv6_address(&[0xfe80, 0, 0, 0, 0, 0, 0, 1]),
        refused("Access to link-local addresses is not allowed")
    );
    assert_eq!(
        validate_ipv6_address(&[0xfebf, 0, 0, 0, 0, 0, 0, 1]),
        refused("Access to link-local addresses is not allowed")
    );
    assert_eq!(
        validate_ipv6_address(&[0xfc00, 0, 0, 0, 0, 0, 0, 1]),
        refused("Access to unique local addresses is not allowed")
    );
    assert_eq!(
        validate_ipv6_address(&[0xfdff, 0, 0, 0, 0, 0, 0, 1]),
        refused("Access to unique local addresses is not allowed")
    );
    assert_eq!(validate_ipv6_address(&[0x2001, 0xdb8, 0, 0, 0, 0, 0, 1]), Ok(()));
    assert_eq!(validate_ipv6_address(&[0xfec0, 0, 0, 0, 0, 0, 0, 1]), Ok(()));
    assert_eq!(validate_ipv6_address(&[0, 0, 0, 0, 0, 0, 0, 2]), Ok(()));
    assert_eq!(validate_ip_address(&HostAddr::V6([0, 0, 0, 0, 0, 0, 0, 1])).is_err(), true);
    assert_eq!(validate_ip_address(&HostAddr::V4([8, 8, 4, 4])), Ok(()));
    assert_eq!(validate_ip_address(&HostAddr::Name), Ok(()));
}

#[test]
fn host_names() {
    assert_eq!(validate_host_name("", ""), refused("Empty host not allowed"));
    for host in ["localhost", "a.localhost", "printer.local"] {
        assert_eq!(
            validate_host_name(host, host),
            refused("Access to localhost/local domains is not allowed"),
            "{host}"
        );
    }
    for host in ["db.internal", "wiki.intranet", "internal.example.com"] {
        assert_eq!(
            validate_host_name(host, host),
            refused("Access to internal domains is not allowed"),
            "{host}"
        );
    }
    assert_eq!(validate_host_name("youtube.com", "youtube.com"), Ok(()));
    assert_eq!(validate_host_name("localhostx", "localhostx"), Ok(()));
    assert_eq!(
        validate_host_security("LOCALHOST", &HostAddr::Name),
        refused("Access to localhost/local domains is not allowed")
    );
    assert_eq!(validate_host_security("example.org", &HostAddr::Name), Ok(()));
    assert_eq!(
        validate_host_security("10.0.0.1", &HostAddr::V4([10, 0, 0, 1])),
        refused("Access to private IP addresses is not allowed")
    );
}

#[test]
fn accepted_url_is_parsed() {
    let v = validator();
    let url = v.validate_url("https://youtube.com/watch?v=X").unwrap();
    assert_eq!(url.scheme, "https");
    assert_eq!(url.host.as_deref(), Some("youtube.com"));
    assert_eq!(url.addr, HostAddr::Name);
    assert_eq!(url.path_segments, Some(vec!["watch".to_string()]));
    assert_eq!(url.serialized, "https://youtube.com/watch?v=X");
    let url = v.validate_url("HTTPS://WWW.YouTube.com").unwrap();
    assert_eq!(url.host.as_deref(), Some("www.youtube.com"));
    assert_eq!(url.serialized, "https://www.youtube.com/");
    assert_eq!(url.path_segments, Some(vec![String::new()]));
}

#[test]
fn loopback_url_is_a_bad_request() {
    let v = validator();
    let e = url_error(&v, "http://127.0.0.1/x");
    assert_eq!(e.status_code(), 400);
    assert_eq!(e, AppError::Download("Only HTTPS URLs are allowed for security reasons".into()));
    assert_eq!(
        url_error(&v, "https://127.0.0.1/x"),
        AppError::Download("Access to loopback addresses is not allowed".into())
    );
    assert_eq!(
        url_error(&v, "https://0x7f.1/x"),
        AppError::Download("Access to loopback addresses is not allowed".into())
    );
}

#[test]
fn refused_urls() {
    let v = validator();
    assert_eq!(
        url_error(&v, "not a url"),
        AppError::Download("Invalid URL format: relative URL without a base".into())
    );
    assert_eq!(
        url_error(&v, "https://"),
        AppError::Download("Invalid URL format: empty host".into())
    );
    assert_eq!(
        url_error(&v, "ftp://youtube.com/x"),
        AppError::Download("Only HTTPS URLs are allowed for security reasons".into())
    );
    assert_eq!(
        url_error(&v, "https://192.168.1.10/video"),
        AppError::Download("Access to private IP addresses is not allowed".into())
    );
    assert_eq!(
        url_error(&v, "https://[::1]/video"),
        AppError::Download("Access to loopback addresses is not allowed".into())
    );
    assert_eq!(
        url_error(&v, "https://[2001:db8::1]/video"),
        AppError::Download(
            "Domain '[2001:db8::1]' is not in the allowed domains list: youtube.com, youtu.be, instagram.com"
                .into()
        )
    );
    assert_eq!(
        url_error(&v, "https://8.8.8.8/video"),
        AppError::Download(
            "Domain '8.8.8.8' is not in the allowed domains list: youtube.com, youtu.be, instagram.com"
                .into()
        )
    );
    assert_eq!(
        url_error(&v, "https://localhost/video"),
        AppError::Download("Access to localhost/local domains is not allowed".into())
    );
    assert_eq!(
        url_error(&v, "https://example.com/video"),
        AppError::Download(
            "Domain 'example.com' is not in the allowed domains list: youtube.com, youtu.be, instagram.com"
                .into()
        )
    );
    assert_eq!(
        url_error(&v, "https://user@instagram.com/p/1"),
        AppError::Download(
            "URLs with @ symbols are not allowed (potential redirect attack)".into()
        )
    );
    assert_eq!(
        url_error(&v, "https://instagram.com/a%2Fb"),
        AppError::Download("URLs with encoded slashes are not allowed".into())
    );
    assert_eq!(
        url_error(&v, "https://instagram.com/a%5Cb"),
        AppError::Download("URLs with encoded slashes are not allowed".into())
    );
    assert_eq!(
        url_error(&v, "https://instagram.com/a..b/c"),
        AppError::Download("URLs with path traversal patterns are not allowed".into())
    );
}

#[test]
fn at_sign_is_allowed_for_youtube() {
    let v = validator();
    let url = v.validate_url("https://youtube.com/@channel").unwrap();
    assert_eq!(url.serialized, "https://youtube.com/@channel");
}

#[test]
fn url_length_is_checked_first() {
    let v = SecurityValidator::new(vec!["youtube.com".into()], 1, 30);
    assert!(v.validate_url("https://youtube.com/watch?v=12").is_ok());
    assert_eq!(
        url_error(&v, "https://youtube.com/watch?v=123"),
        AppError::Download("URL too long: 31 characters (max: 30)".into())
    );
    assert_eq!(
        url_error(&v, "this is not a url but it is long"),
        AppError::Download("URL too long: 32 characters (max: 30)".into())
    );
}

#[test]
fn parsed_url_checks() {
    let v = validator();
    let base = ParsedUrl {
        scheme: "https".into(),
        host: Some("youtu.be".into()),
        addr: HostAddr::Name,
        path_segments: Some(vec!["abc".into()]),
        serialized: "https://youtu.be/abc".into(),
    };
    assert_eq!(v.validate_parsed_url(base.clone()).unwrap().serialized, "https://youtu.be/abc");
    let no_host = ParsedUrl { host: None, ..base.clone() };
    assert_eq!(
        v.validate_parsed_url(no_host).unwrap_err(),
        AppError::Download("URL must have a valid host".into())
    );
    let multicast = ParsedUrl { addr: HostAddr::V4([224, 0, 0, 9]), ..base.clone() };
    assert_eq!(
        v.validate_parsed_url(multicast).unwrap_err(),
        AppError::Download("Access to multicast addresses is not allowed".into())
    );
    let dotted = ParsedUrl { path_segments: Some(vec!["a".into(), "..".into()]), ..base.clone() };
    assert_eq!(
        validate_url_patterns(&dotted),
        Err(AppError::Download("URLs with path traversal patterns are not allowed".into()))
    );
    let opaque = ParsedUrl { path_segments: None, ..base };
    assert_eq!(validate_url_patterns(&opaque), Ok(()));
}
