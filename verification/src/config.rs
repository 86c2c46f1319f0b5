//! Settings of the service, read from the process environment.
//!
//! The environment is handed in as a list of name and value pairs; a name
//! that is missing, or a number that does not parse, gives the default.

use vstd::prelude::*;
use crate::parse::{
    list_items, parse_list, parse_pieces, parse_u64, parsed_u64, split_on, trimmed,
};
use crate::text::{chars_of, lowercase_of, same_chars, str_eq, texts, to_lowercase};

verus! {

/// All settings.
#[derive(Debug, Clone)]
pub struct Config {
    pub server: ServerConfig,
    pub download: DownloadConfig,
    pub processing: ProcessingConfig,
    pub storage: StorageConfig,
    pub security: SecurityConfig,
    pub queue: QueueConfig,
    pub retention: RetentionConfig,
}

/// Bounds of the job queue.
#[derive(Debug, Clone)]
pub struct QueueConfig {
    pub max_concurrent_jobs: usize,
    pub max_queue_size: usize,
}

/// Settings of the HTTP server. Timeouts are in seconds.
#[derive(Debug, Clone)]
pub struct ServerConfig {
    pub host: String,
    pub port: u16,
    pub client_timeout: u64,
    pub keep_alive: u64,
    pub max_payload_size: usize,
}

/// Settings of the download stage. The timeout is in seconds.
#[derive(Debug, Clone)]
pub struct DownloadConfig {
    pub download_timeout: u64,
    pub download_command: String,
    pub allowed_domains: Vec<String>,
    pub max_concurrent_downloads: usize,
}

/// Settings of the transcode stage. The timeout is in seconds.
#[derive(Debug, Clone)]
pub struct ProcessingConfig {
    pub processing_timeout: u64,
    pub ffmpeg_command: String,
    pub video_codec: String,
    pub audio_codec: String,
    pub preset: String,
    pub crf: u32,
    pub audio_bitrate: String,
    pub max_concurrent_processing: usize,
}

/// Where finished files are stored.
#[derive(Debug, Clone)]
pub struct StorageConfig {
    pub storage_type: StorageType,
    pub local_path: Option<String>,
}

/// The kinds of storage.
#[derive(Debug, Clone, Copy, PartialEq, Eq)]
pub enum StorageType {
    Local,
}

/// Limits on what clients may send, and the password they must show.
#[derive(Debug, Clone)]
pub struct SecurityConfig {
    pub max_file_size_mb: u64,
    pub max_url_length: usize,
    pub blocked_ips: Vec<String>,
    pub auth_password: Option<String>,
}

/// Settings of the retention loop.
#[derive(Debug, Clone)]
pub struct RetentionConfig {
    pub enabled: bool,
    pub retention_days: u32,
    pub cleanup_interval_hours: u64,
}

/// The environment as mathematics: names with their values.
pub open spec fn env_of(vars: Seq<(String, String)>) -> Seq<(Seq<char>, Seq<char>)> {
    Seq::new(vars.len(), |i: int| (vars[i].0@, vars[i].1@))
}

/// The value of the first variable named `key`, if there is one.
pub open spec fn env_value(env: Seq<(Seq<char>, Seq<char>)>, key: Seq<char>) -> Option<Seq<char>>
    decreases env.len(),
{
    if env.len() == 0 {
        None
    } else if env[0].0 == key {
        Some(env[0].1)
    } else {
        env_value(env.drop_first(), key)
    }
}

/// The text setting named `key`: its value, or the default.
pub open spec fn text_setting(
    env: Seq<(Seq<char>, Seq<char>)>,
    key: Seq<char>,
    default: Seq<char>,
) -> Seq<char> {
    match env_value(env, key) {
        Some(v) => v,
        None => default,
    }
}

/// The number setting named `key`: its value if it is an unsigned decimal
/// number, or the default.
pub open spec fn number_setting(env: Seq<(Seq<char>, Seq<char>)>, key: Seq<char>, default: u64)
    -> u64 {
    match env_value(env, key) {
        Some(v) => match parsed_u64(v) {
            Some(n) => n,
            None => default,
        },
        None => default,
    }
}

/// The value of the first variable named `key`.
pub fn lookup<'a>(vars: &'a Vec<(String, String)>, key: &str) -> (r: Option<&'a str>)
    ensures
        match r {
            Some(v) => env_value(env_of(vars@), key@) == Some(v@),
            None => env_value(env_of(vars@), key@) is None,
        },
{
    let wanted = chars_of(key);
    let ghost env = env_of(vars@);
    let mut i: usize = 0;
    assert(env.skip(0) =~= env);
    while i < vars.len()
        invariant
            i <= vars@.len(),
            env == env_of(vars@),
            wanted@ == key@,
            env_value(env, key@) == env_value(env.skip(i as int), key@),
        decreases vars@.len() - i,
    {
        proof {
            assert(env.skip(i as int)[0] == env[i as int]);
            assert(env.skip(i as int).drop_first() =~= env.skip(i + 1));
        }
        let name = chars_of(vars[i].0.as_str());
        if same_chars(&name, &wanted) {
            return Some(vars[i].1.as_str());
        }
        i += 1;
    }
    None
}

/// The text setting named `key`.
pub fn parse_env_var(vars: &Vec<(String, String)>, key: &str, default: &str) -> (r: String)
    ensures
        r@ == text_setting(env_of(vars@), key@, default@),
{
    match lookup(vars, key) {
        Some(v) => v.to_owned(),
        None => default.to_owned(),
    }
}

/// The number setting named `key`.
pub fn parse_env_number(vars: &Vec<(String, String)>, key: &str, default: u64) -> (r: u64)
    ensures
        r == number_setting(env_of(vars@), key@, default),
{
    match lookup(vars, key) {
        Some(v) => match parse_u64(v) {
            Some(n) => n,
            None => default,
        },
        None => default,
    }
}

/// The optional text setting named `key`.
pub fn parse_env_optional(vars: &Vec<(String, String)>, key: &str) -> (r: Option<String>)
    ensures
        match r {
            Some(v) => env_value(env_of(vars@), key@) == Some(v@),
            None => env_value(env_of(vars@), key@) is None,
        },
{
    match lookup(vars, key) {
        Some(v) => Some(v.to_owned()),
        None => None,
    }
}

/// The directory for files in progress: `APERIO_WORKING_DIR`, or `/app/working`.
pub fn working_dir_setting(vars: &Vec<(String, String)>) -> (r: String)
    ensures
        r@ == text_setting(env_of(vars@), "APERIO_WORKING_DIR"@, "/app/working"@),
{
    parse_env_var(vars, "APERIO_WORKING_DIR", "/app/working")
}

/// The location of the database: `APERIO_DATABASE_URL`, or the default file.
pub fn database_url_setting(vars: &Vec<(String, String)>) -> (r: String)
    ensures
        r@ == text_setting(
            env_of(vars@),
            "APERIO_DATABASE_URL"@,
            "sqlite:///app/storage/aperio.db"@,
        ),
{
    parse_env_var(vars, "APERIO_DATABASE_URL", "sqlite:///app/storage/aperio.db")
}

/// The origins allowed to call the service from a browser: the pieces of
/// `APERIO_CORS_ORIGINS` between commas, each trimmed, if it is set.
pub fn cors_origins_setting(vars: &Vec<(String, String)>) -> (r: Option<Vec<String>>)
    ensures
        match r {
            Some(origins) => env_value(env_of(vars@), "APERIO_CORS_ORIGINS"@) matches Some(v)
                && Seq::new(origins@.len(), |i: int| origins@[i]@) == split_on(
                v,
                ',',
            ).map_values(|piece: Seq<char>| trimmed(piece)),
            None => env_value(env_of(vars@), "APERIO_CORS_ORIGINS"@) is None,
        },
{
    match lookup(vars, "APERIO_CORS_ORIGINS") {
        Some(v) => Some(parse_pieces(v)),
        None => None,
    }
}

/// The settings that the environment `env` gives, field by field.
pub open spec fn config_matches(c: Config, env: Seq<(Seq<char>, Seq<char>)>) -> bool {
    &&& c.server.host@ == text_setting(env, "APERIO_HOST"@, "0.0.0.0"@)
    &&& c.server.port == number_setting(env, "APERIO_PORT"@, 8080) as u16
    &&& c.server.client_timeout == number_setting(env, "APERIO_CLIENT_TIMEOUT"@, 1800)
    &&& c.server.keep_alive == number_setting(env, "APERIO_KEEP_ALIVE"@, 1800)
    &&& c.server.max_payload_size == number_setting(env, "APERIO_MAX_PAYLOAD"@, 104857600) as usize
    &&& c.download.download_timeout == number_setting(env, "APERIO_DOWNLOAD_TIMEOUT"@, 900)
    &&& c.download.download_command@ == text_setting(env, "APERIO_DOWNLOAD_COMMAND"@, "yt-dlp"@)
    &&& texts(c.download.allowed_domains@) == list_items(
        split_on(
            text_setting(env, "APERIO_ALLOWED_DOMAINS"@, "youtube.com,youtu.be,instagram.com"@),
            ',',
        ),
    )
    &&& c.download.max_concurrent_downloads == number_setting(
        env,
        "APERIO_MAX_CONCURRENT_DOWNLOADS"@,
        2,
    ) as usize
    &&& c.processing.processing_timeout == number_setting(env, "APERIO_PROCESSING_TIMEOUT"@, 900)
    &&& c.processing.ffmpeg_command@ == text_setting(env, "APERIO_FFMPEG_COMMAND"@, "ffmpeg"@)
    &&& c.processing.video_codec@ == text_setting(env, "APERIO_VIDEO_CODEC"@, "libx264"@)
    &&& c.processing.audio_codec@ == text_setting(env, "APERIO_VIDEO_AUDIO_CODEC"@, "aac"@)
    &&& c.processing.preset@ == text_setting(env, "APERIO_PRESET"@, "medium"@)
    &&& c.processing.crf == number_setting(env, "APERIO_CRF"@, 23) as u32
    &&& c.processing.audio_bitrate@ == text_setting(env, "APERIO_AUDIO_BITRATE"@, "128k"@)
    &&& c.processing.max_concurrent_processing == number_setting(
        env,
        "APERIO_MAX_CONCURRENT_PROCESSING"@,
        1,
    ) as usize
    &&& c.storage.storage_type == StorageType::Local
    &&& c.storage.local_path matches Some(path) && path@ == text_setting(
        env,
        "APERIO_STORAGE_PATH"@,
        "/app/storage"@,
    )
    &&& c.security.max_file_size_mb == number_setting(env, "APERIO_MAX_FILE_SIZE_MB"@, 500)
    &&& c.security.max_url_length == number_setting(env, "APERIO_MAX_URL_LENGTH"@, 2048) as usize
    &&& texts(c.security.blocked_ips@) == seq!["127.0.0.1"@, "localhost"@, "0.0.0.0"@]
    &&& match c.security.auth_password {
        Some(p) => env_value(env, "APERIO_AUTH_PASSWORD"@) == Some(p@),
        None => env_value(env, "APERIO_AUTH_PASSWORD"@) is None,
    }
    &&& c.queue.max_concurrent_jobs == number_setting(env, "APERIO_MAX_CONCURRENT_JOBS"@, 2) as usize
    &&& c.queue.max_queue_size == number_setting(env, "APERIO_MAX_QUEUE_SIZE"@, 1000) as usize
    &&& c.retention.enabled == (lowercase_of(
        text_setting(env, "APERIO_RETENTION_ENABLED"@, "true"@),
    ) == "true"@)
    &&& c.retention.retention_days == number_setting(env, "APERIO_RETENTION_DAYS"@, 30) as u32
    &&& c.retention.cleanup_interval_hours == number_setting(
        env,
        "APERIO_CLEANUP_INTERVAL_HOURS"@,
        24,
    )
}

/// Whether retention is switched on, given the setting in lower case.
pub fn retention_enabled(lower: &str) -> (b: bool)
    ensures
        b == (lower@ == "true"@),
{
    str_eq(lower, "true")
}

/// Reads all settings from the environment. A variable that is missing,
/// and a number that does not parse, give the default; a number too large
/// for its field keeps its low bits.
pub fn load_config(vars: &Vec<(String, String)>) -> (c: Config)
    ensures
        config_matches(c, env_of(vars@)),
{
    let mut blocked: Vec<String> = Vec::new();
    blocked.push("127.0.0.1".to_owned());
    blocked.push("localhost".to_owned());
    blocked.push("0.0.0.0".to_owned());
    assert(texts(blocked@) =~= seq!["127.0.0.1"@, "localhost"@, "0.0.0.0"@]);
    let domains = parse_env_var(
        vars,
        "APERIO_ALLOWED_DOMAINS",
        "youtube.com,youtu.be,instagram.com",
    );
    let enabled_text = parse_env_var(vars, "APERIO_RETENTION_ENABLED", "true");
    let enabled_lower = to_lowercase(enabled_text.as_str());
    Config {
        server: ServerConfig {
            host: parse_env_var(vars, "APERIO_HOST", "0.0.0.0"),
            port: #[verifier::truncate]
            (parse_env_number(vars, "APERIO_PORT", 8080) as u16),
            client_timeout: parse_env_number(vars, "APERIO_CLIENT_TIMEOUT", 1800),
            keep_alive: parse_env_number(vars, "APERIO_KEEP_ALIVE", 1800),
            max_payload_size: #[verifier::truncate]
            (parse_env_number(vars, "APERIO_MAX_PAYLOAD", 104857600) as usize),
        },
        download: DownloadConfig {
            download_timeout: parse_env_number(vars, "APERIO_DOWNLOAD_TIMEOUT", 900),
            download_command: parse_env_var(vars, "APERIO_DOWNLOAD_COMMAND", "yt-dlp"),
            allowed_domains: parse_list(domains.as_str()),
            max_concurrent_downloads: #[verifier::truncate]
            (parse_env_number(vars, "APERIO_MAX_CONCURRENT_DOWNLOADS", 2) as usize),
        },
        processing: ProcessingConfig {
            processing_timeout: parse_env_number(vars, "APERIO_PROCESSING_TIMEOUT", 900),
            ffmpeg_command: parse_env_var(vars, "APERIO_FFMPEG_COMMAND", "ffmpeg"),
            video_codec: parse_env_var(vars, "APERIO_VIDEO_CODEC", "libx264"),
            audio_codec: parse_env_var(vars, "APERIO_VIDEO_AUDIO_CODEC", "aac"),
            preset: parse_env_var(vars, "APERIO_PRESET", "medium"),
            crf: #[verifier::truncate]
            (parse_env_number(vars, "APERIO_CRF", 23) as u32),
            audio_bitrate: parse_env_var(vars, "APERIO_AUDIO_BITRATE", "128k"),
            max_concurrent_processing: #[verifier::truncate]
            (parse_env_number(vars, "APERIO_MAX_CONCURRENT_PROCESSING", 1) as usize),
        },
        storage: StorageConfig {
            storage_type: StorageType::Local,
            local_path: Some(parse_env_var(vars, "APERIO_STORAGE_PATH", "/app/storage")),
        },
        security: SecurityConfig {
            max_file_size_mb: parse_env_number(vars, "APERIO_MAX_FILE_SIZE_MB", 500),
            max_url_length: #[verifier::truncate]
            (parse_env_number(vars, "APERIO_MAX_URL_LENGTH", 2048) as usize),
            blocked_ips: blocked,
            auth_password: parse_env_optional(vars, "APERIO_AUTH_PASSWORD"),
        },
        queue: QueueConfig {
            max_concurrent_jobs: #[verifier::truncate]
            (parse_env_number(vars, "APERIO_MAX_CONCURRENT_JOBS", 2) as usize),
            max_queue_size: #[verifier::truncate]
            (parse_env_number(vars, "APERIO_MAX_QUEUE_SIZE", 1000) as usize),
        },
        retention: RetentionConfig {
            enabled: retention_enabled(enabled_lower.as_str()),
            retention_days: #[verifier::truncate]
            (parse_env_number(vars, "APERIO_RETENTION_DAYS", 30) as u32),
            cleanup_interval_hours: parse_env_number(vars, "APERIO_CLEANUP_INTERVAL_HOURS", 24),
        },
    }
}

impl Default for Config {
    /// The settings that an empty environment gives.
    fn default() -> (c: Config)
        ensures
            config_matches(c, Seq::empty()),
    {
        let none: Vec<(String, String)> = Vec::new();
        assert(env_of(none@) =~= Seq::empty());
        load_config(&none)
    }
}

} // verus!
