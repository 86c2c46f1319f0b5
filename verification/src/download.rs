//! The download stage: what to check before the downloader runs, how to
//! call it, where its file is found, and what its end means for the job.

use vstd::prelude::*;
use crate::config::{DownloadConfig, SecurityConfig};
use crate::error::{failure_of, AppError, AppResult, ErrorKind};
use crate::job::Job;
use crate::security::{
    input_failure, job_file_name, joined_path, valid_file_name, valid_job_id, SecurityValidator,
};
use crate::text::{
    chars_of, copy_strings, decimal, decimal_string, is_prefix, occurs_at, push_chars,
    push_decimal, push_str, same_chars, starts_with, string_of, texts,
};
use crate::url_parts::{url_parse_of, UrlView};
use crate::url_rules::url_failure;

verus! {

/// How a subprocess ended.
#[derive(Debug, Clone)]
pub enum ProcessOutcome {
    /// It outlived its time limit and was killed.
    TimedOut,
    /// It could not be started; the words of the operating system's error.
    SpawnFailed(String),
    /// It ran to its end.
    Exited { success: bool, stderr: String },
}

/// A command line and the time the command is given.
#[derive(Debug, Clone)]
pub struct CommandPlan {
    pub program: String,
    pub args: Vec<String>,
    pub timeout_secs: u64,
}

/// What a stage ends with: the path of its file or a failure, and the path
/// of a file that is to be unlinked, if any.
#[derive(Debug)]
pub struct StageVerdict {
    pub result: AppResult<String>,
    pub remove: Option<String>,
}

/// One gibibyte, in bytes.
pub const GIBIBYTE: u64 = 1073741824;

/// The free space the download stage asks for: twice the largest file
/// accepted, and one gibibyte.
pub open spec fn required_space(max_file_size: int) -> int {
    2 * max_file_size + GIBIBYTE
}

/// The words with which the stage refuses to start for want of space.
pub open spec fn no_space_message(available: nat, required: nat) -> Seq<char> {
    "Insufficient disk space. Available: "@ + decimal(available) + " bytes, Required: "@ + decimal(
        required,
    ) + " bytes"@
}

/// The failure of the space check, or `None` where it passes. It passes
/// where the free space could not be measured.
pub open spec fn space_failure(available: Option<u64>, max_file_size: int) -> Option<
    (ErrorKind, Seq<char>),
> {
    match available {
        Some(a) => if a < required_space(max_file_size) {
            Some(
                (
                    ErrorKind::Internal,
                    no_space_message(a as nat, required_space(max_file_size) as nat),
                ),
            )
        } else {
            None
        },
        None => None,
    }
}

/// The file names tried first when looking for the download of a job, in
/// the order in which they are tried.
pub open spec fn probe_names(job_id: Seq<char>) -> Seq<Seq<char>> {
    seq![
        job_id + "_original.mp4"@,
        job_id + "_original_.mp4"@,
        job_id + "_original.mkv"@,
        job_id + "_original_.mkv"@,
        job_id + "_original.avi"@,
        job_id + "_original_.avi"@,
        job_id + "_original.mov"@,
        job_id + "_original_.mov"@,
        job_id + "_original.webm"@,
        job_id + "_original_.webm"@,
        job_id + "_original.m4v"@,
        job_id + "_original_.m4v"@,
    ]
}

/// Whether a file name is that of a job's download: the identifier, then
/// `_original`, then a dot or an underscore, then anything.
pub open spec fn is_download_name(job_id: Seq<char>, name: Seq<char>) -> bool {
    let stem = job_id + "_original"@;
    is_prefix(stem, name) && name.len() > stem.len() && (name[stem.len() as int] == '.'
        || name[stem.len() as int] == '_')
}

/// The first of `wanted` that is among `names`, if any.
pub open spec fn first_present(wanted: Seq<Seq<char>>, names: Seq<Seq<char>>) -> Option<Seq<char>>
    decreases wanted.len(),
{
    if wanted.len() == 0 {
        None
    } else if names.contains(wanted[0]) {
        Some(wanted[0])
    } else {
        first_present(wanted.drop_first(), names)
    }
}

/// The first of `names` that is the name of a download of the job, if any.
pub open spec fn first_download(job_id: Seq<char>, names: Seq<Seq<char>>) -> Option<Seq<char>>
    decreases names.len(),
{
    if names.len() == 0 {
        None
    } else if is_download_name(job_id, names[0]) {
        Some(names[0])
    } else {
        first_download(job_id, names.drop_first())
    }
}

/// The name of the downloaded file of a job among the files of the working
/// directory: the first of the usual names that is there, else the first
/// file whose name is that of a download.
pub open spec fn located(job_id: Seq<char>, names: Seq<Seq<char>>) -> Option<Seq<char>> {
    match first_present(probe_names(job_id), names) {
        Some(n) => Some(n),
        None => first_download(job_id, names),
    }
}

/// The format that the downloader is asked for: the best video up to 1080
/// lines in AVC with the best AAC audio, else the best up to 1080 lines.
pub open spec fn format_preference() -> Seq<char> {
    "bestvideo[height<=1080][vcodec^=avc1]+bestaudio[acodec^=mp4a]/best[height<=1080]/best"@
}

/// The arguments of the downloader.
pub open spec fn download_args(out_template: Seq<char>, max_file_size: nat, url: Seq<char>) -> Seq<
    Seq<char>,
> {
    seq![
        "-o"@,
        out_template,
        "-f"@,
        format_preference(),
        "--merge-output-format"@,
        "mp4"@,
        "--max-filesize"@,
        decimal(max_file_size),
        url,
    ]
}

/// The words of a download that ran out of time.
pub open spec fn download_timeout_message(secs: nat) -> Seq<char> {
    "Download timed out after "@ + decimal(secs) + " seconds"@
}

/// The words of a download that is too large.
pub open spec fn oversize_message(max: nat) -> Seq<char> {
    "Downloaded file exceeds maximum size limit of "@ + decimal(max) + " bytes"@
}

/// The words of a download whose size could not be measured.
pub open spec fn unmeasured_message() -> Seq<char> {
    "Downloaded file size could not be determined"@
}

/// The failure that ends the download stage, or `None` where it succeeds,
/// given how the downloader ended, the file found for the job and the size
/// of that file where it could be measured. The stage succeeds only with
/// a file whose size was measured and is within the limit.
pub open spec fn download_failure(
    outcome: ProcessOutcome,
    found: Option<Seq<char>>,
    size: Option<u64>,
    timeout_secs: nat,
    max_file_size: nat,
) -> Option<(ErrorKind, Seq<char>)> {
    match outcome {
        ProcessOutcome::TimedOut => Some(
            (ErrorKind::Timeout, download_timeout_message(timeout_secs)),
        ),
        ProcessOutcome::SpawnFailed(words) => Some(
            (ErrorKind::Download, "Download command failed: "@ + words@),
        ),
        ProcessOutcome::Exited { success, stderr } => if !success {
            Some((ErrorKind::Download, stderr@))
        } else if found is None {
            Some((ErrorKind::Download, "No downloaded file found"@))
        } else {
            match size {
                None => Some((ErrorKind::Download, unmeasured_message())),
                Some(n) => if n > max_file_size {
                    Some((ErrorKind::Download, oversize_message(max_file_size)))
                } else {
                    None
                },
            }
        },
    }
}

/// The file that is to be unlinked when the download stage ends: the file
/// found for the job, unless the stage succeeded or the downloader never
/// ran. A file that is too large, or whose size could not be measured, is
/// among those unlinked.
pub open spec fn download_leftover(
    outcome: ProcessOutcome,
    found: Option<Seq<char>>,
    size: Option<u64>,
    max_file_size: nat,
) -> Option<Seq<char>> {
    match outcome {
        ProcessOutcome::TimedOut => found,
        ProcessOutcome::SpawnFailed(_) => None,
        ProcessOutcome::Exited { success, stderr } => if !success {
            found
        } else {
            match size {
                None => found,
                Some(n) => if n > max_file_size {
                    found
                } else {
                    None
                },
            }
        },
    }
}

/// Checks that enough space is free, given the free space if it could be
/// measured and the largest file accepted.
pub fn check_disk_space(available: Option<u64>, max_file_size: u64) -> (r: AppResult<()>)
    requires
        max_file_size <= 0xffff_ffff * 1024 * 1024,
    ensures
        failure_of(r) == space_failure(available, max_file_size as int),
{
    match available {
        Some(a) => {
            let required: u64 = max_file_size * 2 + GIBIBYTE;
            if a < required {
                let mut m: Vec<char> = Vec::new();
                push_str(&mut m, "Insufficient disk space. Available: ");
                push_decimal(&mut m, a);
                push_str(&mut m, " bytes, Required: ");
                push_decimal(&mut m, required);
                push_str(&mut m, " bytes");
                assert(m@ =~= no_space_message(a as nat, required as nat));
                return Err(AppError::Internal(string_of(&m)));
            }
            Ok(())
        },
        None => Ok(()),
    }
}

fn name_with(job_id: &Vec<char>, tail: &str) -> (name: String)
    ensures
        name@ == job_id@ + tail@,
{
    let mut v: Vec<char> = Vec::new();
    push_chars(&mut v, job_id);
    push_str(&mut v, tail);
    string_of(&v)
}

/// The file names to try first when looking for the download of a job.
pub fn download_candidates(job_id: &str) -> (names: Vec<String>)
    ensures
        texts(names@) == probe_names(job_id@),
{
    let id = chars_of(job_id);
    let mut names: Vec<String> = Vec::new();
    names.push(name_with(&id, "_original.mp4"));
    names.push(name_with(&id, "_original_.mp4"));
    names.push(name_with(&id, "_original.mkv"));
    names.push(name_with(&id, "_original_.mkv"));
    names.push(name_with(&id, "_original.avi"));
    names.push(name_with(&id, "_original_.avi"));
    names.push(name_with(&id, "_original.mov"));
    names.push(name_with(&id, "_original_.mov"));
    names.push(name_with(&id, "_original.webm"));
    names.push(name_with(&id, "_original_.webm"));
    names.push(name_with(&id, "_original.m4v"));
    names.push(name_with(&id, "_original_.m4v"));
    assert(texts(names@) =~= probe_names(job_id@));
    names
}

/// Whether a file name is that of a job's download.
pub fn is_download_file(job_id: &str, name: &str) -> (b: bool)
    ensures
        b == is_download_name(job_id@, name@),
{
    let mut stem: Vec<char> = Vec::new();
    push_str(&mut stem, job_id);
    push_str(&mut stem, "_original");
    assert(stem@ =~= job_id@ + "_original"@);
    let n = chars_of(name);
    if !starts_with(&n, &stem) {
        return false;
    }
    if n.len() <= stem.len() {
        return false;
    }
    let next: char = n[stem.len()];
    next == '.' || next == '_'
}

fn position_in(names: &Vec<String>, wanted: &str) -> (r: Option<usize>)
    ensures
        match r {
            Some(k) => k < names@.len() && names@[k as int]@ == wanted@,
            None => !texts(names@).contains(wanted@),
        },
{
    let w = chars_of(wanted);
    let mut i: usize = 0;
    while i < names.len()
        invariant
            i <= names@.len(),
            w@ == wanted@,
            forall|j: int| 0 <= j < i ==> (#[trigger] texts(names@)[j]) != wanted@,
        decreases names@.len() - i,
    {
        let here = chars_of(names[i].as_str());
        assert(texts(names@)[i as int] == here@);
        if same_chars(&here, &w) {
            return Some(i);
        }
        i += 1;
    }
    None
}

/// Finds the downloaded file of a job among the names of the files in the
/// working directory.
pub fn locate_downloaded(job_id: &str, names: &Vec<String>) -> (r: Option<String>)
    ensures
        match r {
            Some(name) => located(job_id@, texts(names@)) == Some(name@),
            None => located(job_id@, texts(names@)) is None,
        },
{
    let wanted = download_candidates(job_id);
    let ghost probes = probe_names(job_id@);
    let ghost all = texts(names@);
    let mut i: usize = 0;
    assert(probes.skip(0) =~= probes);
    while i < wanted.len()
        invariant
            i <= wanted@.len(),
            probes == texts(wanted@),
            probes == probe_names(job_id@),
            all == texts(names@),
            first_present(probes, all) == first_present(probes.skip(i as int), all),
        decreases wanted@.len() - i,
    {
        proof {
            assert(probes.skip(i as int)[0] == wanted@[i as int]@);
            assert(probes.skip(i as int).drop_first() =~= probes.skip(i + 1));
        }
        match position_in(names, wanted[i].as_str()) {
            Some(k) => {
                assert(all[k as int] == wanted@[i as int]@);
                assert(all.contains(probes.skip(i as int)[0]));
                return Some(names[k].clone());
            },
            None => {},
        }
        i += 1;
    }
    let mut j: usize = 0;
    assert(all.skip(0) =~= all);
    while j < names.len()
        invariant
            j <= names@.len(),
            all == texts(names@),
            first_present(probe_names(job_id@), all) is None,
            first_download(job_id@, all) == first_download(job_id@, all.skip(j as int)),
        decreases names@.len() - j,
    {
        proof {
            assert(all.skip(j as int)[0] == names@[j as int]@);
            assert(all.skip(j as int).drop_first() =~= all.skip(j + 1));
        }
        if is_download_file(job_id, names[j].as_str()) {
            return Some(names[j].clone());
        }
        j += 1;
    }
    None
}

/// The download stage for one working directory.
pub struct DownloadService {
    config: DownloadConfig,
    working_dir: String,
    security_validator: SecurityValidator,
}

/// The name that the downloader gives its file, after the job's identifier
/// and an underscore; the downloader puts the extension in.
pub open spec fn download_template() -> Seq<char> {
    "original.%(ext)s"@
}

/// The failure that keeps the download stage from starting, or `None`
/// where it may start. The checks run in this order: the URL, the free
/// space, the job's identifier.
pub open spec fn prepare_failure(
    domains: Seq<Seq<char>>,
    max_url_length: nat,
    max_file_size: nat,
    job_id: Seq<char>,
    url: Seq<char>,
    parsed: Result<UrlView, Seq<char>>,
    available: Option<u64>,
) -> Option<(ErrorKind, Seq<char>)> {
    if url_failure(domains, max_url_length, url, parsed) is Some {
        url_failure(domains, max_url_length, url, parsed)
    } else if space_failure(available, max_file_size as int) is Some {
        space_failure(available, max_file_size as int)
    } else {
        input_failure(job_id, "job_id"@, 100)
    }
}

/// The template is a file name that cannot leave its directory.
pub proof fn lemma_template_is_valid()
    ensures
        valid_file_name(download_template()),
{
    let t = download_template();
    reveal_strlit("original.%(ext)s");
    reveal_strlit("..");
    reveal_strlit("/");
    reveal_strlit("\\");
    reveal_strlit(".");
    assert(t.len() == 16);
    assert forall|i: int| !occurs_at(t, ".."@, i) by {
        if occurs_at(t, ".."@, i) {
            assert(t.subrange(i, i + 2)[0] == t[i]);
            assert(t.subrange(i, i + 2)[1] == t[i + 1]);
            assert(t[i] == '.' && t[i + 1] == '.');
        }
    }
    assert forall|i: int| !occurs_at(t, "/"@, i) by {
        if occurs_at(t, "/"@, i) {
            assert(t.subrange(i, i + 1)[0] == t[i]);
        }
    }
    assert forall|i: int| !occurs_at(t, "\\"@, i) by {
        if occurs_at(t, "\\"@, i) {
            assert(t.subrange(i, i + 1)[0] == t[i]);
        }
    }
    assert(t.subrange(0, 1)[0] == t[0]);
}

impl DownloadService {
    /// The settings of the stage.
    pub closed spec fn spec_config(&self) -> DownloadConfig {
        self.config
    }

    /// The working directory.
    pub closed spec fn dir(&self) -> Seq<char> {
        self.working_dir@
    }

    /// The validator that the stage checks URLs and identifiers with.
    pub closed spec fn validator(&self) -> SecurityValidator {
        self.security_validator
    }

    /// The stage for `working_dir`. Its validator takes the allow-list from
    /// the download settings and the limits from the security settings;
    /// a limit too large for 32 bits keeps its low bits.
    pub fn new(config: DownloadConfig, working_dir: String, security_config: &SecurityConfig) -> (s:
        DownloadService)
        ensures
            s.dir() == working_dir@,
            s.spec_config() == config,
            s.validator().spec_allowed_domains() == texts(config.allowed_domains@),
            s.validator().spec_max_file_size() == (security_config.max_file_size_mb as u32) * 1024
                * 1024,
            s.validator().spec_max_url_length() == security_config.max_url_length as u32,
    {
        let domains = copy_strings(&config.allowed_domains);
        assert(texts(domains@) =~= texts(config.allowed_domains@));
        let validator = SecurityValidator::new(
            domains,
            #[verifier::truncate]
            (security_config.max_file_size_mb as u32),
            #[verifier::truncate]
            (security_config.max_url_length as u32),
        );
        DownloadService { config, working_dir, security_validator: validator }
    }

    /// Checks whether the download of `job` may start, given the free space
    /// in the working directory if it could be measured, and gives the
    /// command to run: the output goes to `{id}_original.%(ext)s` in the
    /// working directory, and the validated URL is the last argument.
    pub fn prepare(&self, job: &Job, available_space: Option<u64>) -> (r: AppResult<CommandPlan>)
        ensures
            failure_of(r) == prepare_failure(
                self.validator().spec_allowed_domains(),
                self.validator().spec_max_url_length(),
                self.validator().spec_max_file_size(),
                job@.id,
                job@.url,
                url_parse_of(job@.url),
                available_space,
            ),
            r matches Ok(plan) ==> {
                &&& url_parse_of(job@.url) is Ok
                &&& valid_job_id(job@.id)
                &&& plan.program@ == self.spec_config().download_command@
                &&& plan.timeout_secs == self.spec_config().download_timeout
                &&& texts(plan.args@) == download_args(
                    joined_path(self.dir(), job_file_name(job@.id, download_template())),
                    self.validator().spec_max_file_size(),
                    url_parse_of(job@.url)->Ok_0.serialized,
                )
            },
    {
        let url = match self.security_validator.validate_url(job.url.as_str()) {
            Ok(url) => url,
            Err(e) => {
                return Err(e);
            },
        };
        let max = self.security_validator.get_max_file_size();
        match check_disk_space(available_space, max) {
            Ok(_) => {},
            Err(e) => {
                return Err(e);
            },
        }
        match self.security_validator.validate_input(job.id.as_str(), "job_id", 100) {
            Ok(_) => {},
            Err(e) => {
                return Err(e);
            },
        }
        proof {
            lemma_template_is_valid();
        }
        let template = match self.security_validator.safe_job_file_path(
            self.working_dir.as_str(),
            job.id.as_str(),
            "original.%(ext)s",
        ) {
            Ok(path) => path,
            Err(e) => {
                assert(false);
                return Err(e);
            },
        };
        let mut args: Vec<String> = Vec::new();
        args.push("-o".to_owned());
        args.push(template);
        args.push("-f".to_owned());
        args.push(
            "bestvideo[height<=1080][vcodec^=avc1]+bestaudio[acodec^=mp4a]/best[height<=1080]/best".to_owned(),
        );
        args.push("--merge-output-format".to_owned());
        args.push("mp4".to_owned());
        args.push("--max-filesize".to_owned());
        args.push(decimal_string(max));
        args.push(url.serialized);
        assert(texts(args@) =~= download_args(
            joined_path(self.dir(), job_file_name(job@.id, download_template())),
            max as nat,
            url@.serialized,
        ));
        Ok(
            CommandPlan {
                program: self.config.download_command.clone(),
                args,
                timeout_secs: self.config.download_timeout,
            },
        )
    }

    /// Decides how the download stage ends, given how the downloader
    /// ended, the path of the file found for the job, and the size of that
    /// file where it could be measured. The stage succeeds only with a
    /// file whose size was measured and is within the limit; a file left
    /// behind by a failed run, a file that is too large and a file whose
    /// size could not be measured are to be unlinked.
    pub fn conclude(&self, outcome: &ProcessOutcome, found: Option<String>, size: Option<u64>) -> (v:
        StageVerdict)
        ensures
            failure_of(v.result) == download_failure(
                *outcome,
                crate::text::opt_text(found),
                size,
                self.spec_config().download_timeout as nat,
                self.validator().spec_max_file_size(),
            ),
            v.result matches Ok(path) ==> {
                &&& found matches Some(f) && path@ == f@
                &&& size matches Some(n) && n <= self.validator().spec_max_file_size()
            },
            crate::text::opt_text(v.remove) == download_leftover(
                *outcome,
                crate::text::opt_text(found),
                size,
                self.validator().spec_max_file_size(),
            ),
    {
        let max = self.security_validator.get_max_file_size();
        match outcome {
            ProcessOutcome::TimedOut => {
                let mut m: Vec<char> = Vec::new();
                push_str(&mut m, "Download timed out after ");
                push_decimal(&mut m, self.config.download_timeout);
                push_str(&mut m, " seconds");
                assert(m@ =~= download_timeout_message(self.config.download_timeout as nat));
                StageVerdict { result: Err(AppError::Timeout(string_of(&m))), remove: found }
            },
            ProcessOutcome::SpawnFailed(words) => {
                let mut m: Vec<char> = Vec::new();
                push_str(&mut m, "Download command failed: ");
                push_str(&mut m, words.as_str());
                assert(m@ =~= "Download command failed: "@ + words@);
                StageVerdict { result: Err(AppError::Download(string_of(&m))), remove: None }
            },
            ProcessOutcome::Exited { success, stderr } => {
                if !*success {
                    return StageVerdict {
                        result: Err(AppError::Download(stderr.clone())),
                        remove: found,
                    };
                }
                let path = match found {
                    Some(path) => path,
                    None => {
                        return StageVerdict {
                            result: Err(AppError::download("No downloaded file found")),
                            remove: None,
                        };
                    },
                };
                let measured = match size {
                    Some(n) => n,
                    None => {
                        return StageVerdict {
                            result: Err(
                                AppError::download("Downloaded file size could not be determined"),
                            ),
                            remove: Some(path),
                        };
                    },
                };
                if measured > max {
                    let mut m: Vec<char> = Vec::new();
                    push_str(&mut m, "Downloaded file exceeds maximum size limit of ");
                    push_decimal(&mut m, max);
                    push_str(&mut m, " bytes");
                    assert(m@ =~= oversize_message(max as nat));
                    return StageVerdict {
                        result: Err(AppError::Download(string_of(&m))),
                        remove: Some(path),
                    };
                }
                StageVerdict { result: Ok(path), remove: None }
            },
        }
    }
}

} // verus!
