//! Input validation: job identifiers, free-form input, file names inside
//! the working directory, and source URLs.

use vstd::prelude::*;
use crate::error::{failure_of, AppError, AppResult, ErrorKind};
use crate::text::{
    byte_len, byte_length, chars_of, contains, decimal, has_substring, is_prefix, push_chars, push_decimal,
    push_str, starts_with, str_eq, string_of,
};

verus! {

/// Checks what clients send before it reaches the store, the queue or the
/// file system.
pub struct SecurityValidator {
    pub(crate) allowed_domains: Vec<String>,
    pub(crate) max_url_length: usize,
    pub(crate) max_file_size_bytes: u64,
}

/// A character allowed in a job identifier: an ASCII letter or digit, `-` or `_`.
pub open spec fn is_job_id_char(c: char) -> bool {
    ('a' <= c && c <= 'z') || ('A' <= c && c <= 'Z') || ('0' <= c && c <= '9') || c == '-' || c
        == '_'
}

/// A job identifier that is safe as part of a file name: 1 to 100
/// characters, each a letter, a digit, `-` or `_`.
pub open spec fn valid_job_id(id: Seq<char>) -> bool {
    &&& 1 <= id.len() <= 100
    &&& forall|i: int| 0 <= i < id.len() ==> is_job_id_char(#[trigger] id[i])
}

/// Whether the text holds a path separator or a step to the parent directory.
pub open spec fn has_path_chars(s: Seq<char>) -> bool {
    has_substring(s, ".."@) || has_substring(s, "/"@) || has_substring(s, "\\"@)
}

/// The failure that [`SecurityValidator::validate_job_id`] reports for
/// `id`, or `None` where it accepts. The checks run in this order.
pub open spec fn job_id_failure(id: Seq<char>) -> Option<(ErrorKind, Seq<char>)> {
    if has_path_chars(id) {
        Some((ErrorKind::BadRequest, "Job ID contains invalid path characters"@))
    } else if !(forall|i: int| 0 <= i < id.len() ==> is_job_id_char(#[trigger] id[i])) {
        Some((ErrorKind::BadRequest, "Job ID contains invalid characters"@))
    } else if id.len() == 0 || id.len() > 100 {
        Some((ErrorKind::BadRequest, "Job ID must be between 1 and 100 characters"@))
    } else {
        None
    }
}

/// A control character: U+0000 to U+001F and U+007F to U+009F.
pub open spec fn is_control_char(c: char) -> bool {
    c as u32 <= 0x1f || (0x7f <= c as u32 && c as u32 <= 0x9f)
}

/// A control character other than line feed and tab.
pub open spec fn is_forbidden_control(c: char) -> bool {
    is_control_char(c) && c != '\n' && c != '\t'
}

/// The message for input that is too long.
pub open spec fn too_long_message(field: Seq<char>, len: nat, max: nat) -> Seq<char> {
    field + " too long: "@ + decimal(len) + " characters (max: "@ + decimal(max) + ")"@
}

/// The failure that [`SecurityValidator::validate_input`] reports, or
/// `None` where it accepts. The checks run in this order; a field named
/// `job_id` must also be a valid job identifier.
pub open spec fn input_failure(input: Seq<char>, field: Seq<char>, max_length: nat) -> Option<
    (ErrorKind, Seq<char>),
> {
    if byte_len(input) > max_length {
        Some((ErrorKind::BadRequest, too_long_message(field, byte_len(input), max_length)))
    } else if input.contains('\0') {
        Some((ErrorKind::BadRequest, field + " contains null bytes"@))
    } else if exists|i: int| 0 <= i < input.len() && is_forbidden_control(#[trigger] input[i]) {
        Some((ErrorKind::BadRequest, field + " contains invalid control characters"@))
    } else if field == "job_id"@ {
        job_id_failure(input)
    } else {
        None
    }
}

/// A file name that cannot leave its directory or hide: no separator, no
/// `..`, no leading dot.
pub open spec fn valid_file_name(name: Seq<char>) -> bool {
    !has_path_chars(name) && !is_prefix("."@, name)
}

/// `name` placed inside directory `base`: a `/` goes between them unless
/// `base` is empty or already ends with one.
pub open spec fn joined_path(base: Seq<char>, name: Seq<char>) -> Seq<char> {
    if base.len() == 0 || base.last() == '/' {
        base + name
    } else {
        base + "/"@ + name
    }
}

/// The name of a job's file: identifier, underscore, then the given name.
pub open spec fn job_file_name(job_id: Seq<char>, name: Seq<char>) -> Seq<char> {
    job_id + "_"@ + name
}

/// Whether the resolved path `path` lies at or below the resolved directory
/// `base`, component by component.
pub open spec fn lies_within(base: Seq<char>, path: Seq<char>) -> bool {
    ||| path == base
    ||| (base.len() > 0 && base.last() == '/' && is_prefix(base, path))
    ||| is_prefix(base + "/"@, path)
}

fn is_job_id_char_exec(c: char) -> (b: bool)
    ensures
        b == is_job_id_char(c),
{
    ('a' <= c && c <= 'z') || ('A' <= c && c <= 'Z') || ('0' <= c && c <= '9') || c == '-' || c
        == '_'
}

fn is_forbidden_control_exec(c: char) -> (b: bool)
    ensures
        b == is_forbidden_control(c),
{
    let n: u32 = c as u32;
    (n <= 0x1f || (0x7f <= n && n <= 0x9f)) && c != '\n' && c != '\t'
}

fn has_word(text: &Vec<char>, word: &str) -> (b: bool)
    ensures
        b == has_substring(text@, word@),
{
    let w = chars_of(word);
    contains(text, &w)
}

fn has_path_chars_exec(text: &Vec<char>) -> (b: bool)
    ensures
        b == has_path_chars(text@),
{
    has_word(text, "..") || has_word(text, "/") || has_word(text, "\\")
}

fn all_job_id_chars(text: &Vec<char>) -> (b: bool)
    ensures
        b == (forall|i: int| 0 <= i < text@.len() ==> is_job_id_char(#[trigger] text@[i])),
{
    let mut i: usize = 0;
    while i < text.len()
        invariant
            i <= text.len(),
            forall|j: int| 0 <= j < i ==> is_job_id_char(#[trigger] text@[j]),
        decreases text.len() - i,
    {
        if !is_job_id_char_exec(text[i]) {
            return false;
        }
        i += 1;
    }
    true
}

fn any_forbidden_control(text: &Vec<char>) -> (b: bool)
    ensures
        b == (exists|i: int| 0 <= i < text@.len() && is_forbidden_control(#[trigger] text@[i])),
{
    let mut i: usize = 0;
    while i < text.len()
        invariant
            i <= text.len(),
            forall|j: int| 0 <= j < i ==> !is_forbidden_control(#[trigger] text@[j]),
        decreases text.len() - i,
    {
        if is_forbidden_control_exec(text[i]) {
            return true;
        }
        i += 1;
    }
    false
}

fn has_char(text: &Vec<char>, c: char) -> (b: bool)
    ensures
        b == text@.contains(c),
{
    crate::text::contains_char(text, c)
}

impl SecurityValidator {
    /// The domains from which media may be fetched.
    pub open(crate) spec fn spec_allowed_domains(&self) -> Seq<Seq<char>> {
        Seq::new(self.allowed_domains@.len(), |i: int| self.allowed_domains@[i]@)
    }

    /// The longest URL accepted, in bytes.
    pub open(crate) spec fn spec_max_url_length(&self) -> nat {
        self.max_url_length as nat
    }

    /// The largest file accepted, in bytes.
    pub open(crate) spec fn spec_max_file_size(&self) -> nat {
        self.max_file_size_bytes as nat
    }

    /// A validator for the given allow-list and limits. The file size limit
    /// is given in mebibytes and kept in bytes.
    pub fn new(allowed_domains: Vec<String>, max_file_size_mb: u32, max_url_length: u32) -> (v:
        SecurityValidator)
        ensures
            v.spec_allowed_domains() == Seq::new(
                allowed_domains@.len(),
                |i: int| allowed_domains@[i]@,
            ),
            v.spec_max_url_length() == max_url_length,
            v.spec_max_file_size() == max_file_size_mb * 1024 * 1024,
    {
        let mb: u64 = max_file_size_mb as u64;
        assert(mb * 1024 * 1024 <= 0xffff_ffff * 1024 * 1024);
        SecurityValidator {
            allowed_domains,
            max_url_length: max_url_length as usize,
            max_file_size_bytes: mb * 1024 * 1024,
        }
    }

    /// The largest file accepted, in bytes.
    pub fn get_max_file_size(&self) -> (n: u64)
        ensures
            n == self.spec_max_file_size(),
            n <= 0xffff_ffff * 1024 * 1024,
    {
        proof {
            use_type_invariant(self);
        }
        self.max_file_size_bytes
    }

    #[verifier::type_invariant]
    spec fn limits_fit(self) -> bool {
        self.max_file_size_bytes <= 0xffff_ffff * 1024 * 1024 && self.max_url_length
            <= 0xffff_ffff
    }

    /// Accepts a job identifier of 1 to 100 letters, digits, `-` and `_`,
    /// and rejects every other text.
    pub fn validate_job_id(&self, job_id: &str) -> (r: AppResult<()>)
        ensures
            failure_of(r) == job_id_failure(job_id@),
            r is Ok <==> valid_job_id(job_id@),
    {
        let id = chars_of(job_id);
        if has_path_chars_exec(&id) {
            proof {
                lemma_path_chars_are_not_id_chars(id@);
            }
            return Err(AppError::bad_request("Job ID contains invalid path characters"));
        }
        if !all_job_id_chars(&id) {
            return Err(AppError::bad_request("Job ID contains invalid characters"));
        }
        if id.len() == 0 || id.len() > 100 {
            return Err(AppError::bad_request("Job ID must be between 1 and 100 characters"));
        }
        Ok(())
    }
}

impl SecurityValidator {
    /// Checks free-form input: at most `max_length` bytes, no NUL, no
    /// control character other than line feed and tab. Input for the field
    /// `job_id` must also be a valid job identifier.
    pub fn validate_input(&self, input: &str, field_name: &str, max_length: usize) -> (r:
        AppResult<()>)
        ensures
            failure_of(r) == input_failure(input@, field_name@, max_length as nat),
    {
        let n: usize = byte_length(input);
        if n > max_length {
            let mut m: Vec<char> = Vec::new();
            push_str(&mut m, field_name);
            push_str(&mut m, " too long: ");
            push_decimal(&mut m, n as u64);
            push_str(&mut m, " characters (max: ");
            push_decimal(&mut m, max_length as u64);
            push_str(&mut m, ")");
            assert(m@ =~= too_long_message(field_name@, n as nat, max_length as nat));
            return Err(AppError::BadRequest(string_of(&m)));
        }
        let text = chars_of(input);
        if has_char(&text, '\0') {
            let mut m: Vec<char> = Vec::new();
            push_str(&mut m, field_name);
            push_str(&mut m, " contains null bytes");
            assert(m@ =~= field_name@ + " contains null bytes"@);
            return Err(AppError::BadRequest(string_of(&m)));
        }
        if any_forbidden_control(&text) {
            let mut m: Vec<char> = Vec::new();
            push_str(&mut m, field_name);
            push_str(&mut m, " contains invalid control characters");
            assert(m@ =~= field_name@ + " contains invalid control characters"@);
            return Err(AppError::BadRequest(string_of(&m)));
        }
        if str_eq(field_name, "job_id") {
            return self.validate_job_id(input);
        }
        Ok(())
    }

    /// The path of a job's file inside `base_dir`: the directory, then
    /// `{job_id}_{filename}`. Fails unless the identifier is valid and the
    /// file name has no separator, no `..` and no leading dot.
    pub fn safe_job_file_path(&self, base_dir: &str, job_id: &str, filename: &str) -> (r:
        AppResult<String>)
        ensures
            match r {
                Ok(path) => {
                    &&& valid_job_id(job_id@)
                    &&& valid_file_name(filename@)
                    &&& path@ == joined_path(base_dir@, job_file_name(job_id@, filename@))
                },
                Err(e) => if valid_job_id(job_id@) {
                    !valid_file_name(filename@) && e@ == (ErrorKind::BadRequest, "Invalid filename"@)
                } else {
                    Some(e@) == job_id_failure(job_id@)
                },
            },
    {
        match self.validate_job_id(job_id) {
            Err(e) => {
                return Err(e);
            },
            Ok(_) => {},
        }
        let name = chars_of(filename);
        let dot = chars_of(".");
        if has_path_chars_exec(&name) || starts_with(&name, &dot) {
            return Err(AppError::bad_request("Invalid filename"));
        }
        let base = chars_of(base_dir);
        let mut path: Vec<char> = Vec::new();
        push_chars(&mut path, &base);
        if base.len() > 0 && base[base.len() - 1] != '/' {
            push_str(&mut path, "/");
        }
        push_str(&mut path, job_id);
        push_str(&mut path, "_");
        push_chars(&mut path, &name);
        assert(path@ =~= joined_path(base_dir@, job_file_name(job_id@, filename@)));
        Ok(string_of(&path))
    }

    /// Given a directory and a path, both resolved by the file system,
    /// fails unless the path lies at or below the directory.
    pub fn ensure_inside(&self, canonical_base: &str, canonical_path: &str) -> (r: AppResult<()>)
        ensures
            r is Ok <==> lies_within(canonical_base@, canonical_path@),
            r matches Err(e) ==> e@ == (
                ErrorKind::BadRequest,
                "Path traversal attempt detected"@,
            ),
    {
        let base = chars_of(canonical_base);
        let path = chars_of(canonical_path);
        if crate::text::same_chars(&path, &base) {
            return Ok(());
        }
        if base.len() > 0 && base[base.len() - 1] == '/' && starts_with(&path, &base) {
            return Ok(());
        }
        let mut dir: Vec<char> = Vec::new();
        push_chars(&mut dir, &base);
        push_str(&mut dir, "/");
        if starts_with(&path, &dir) {
            return Ok(());
        }
        Err(AppError::bad_request("Path traversal attempt detected"))
    }
}

/// Text that holds a separator or two dots in a row has a character that
/// no job identifier may hold.
pub proof fn lemma_path_chars_are_not_id_chars(s: Seq<char>)
    requires
        has_path_chars(s),
    ensures
        !(forall|i: int| 0 <= i < s.len() ==> is_job_id_char(#[trigger] s[i])),
{
    reveal_strlit("..");
    reveal_strlit("/");
    reveal_strlit("\\");
    let w = if has_substring(s, ".."@) {
        ".."@
    } else if has_substring(s, "/"@) {
        "/"@
    } else {
        "\\"@
    };
    let i = choose|i: int| crate::text::occurs_at(s, w, i);
    assert(s.subrange(i, i + w.len())[0] == w[0]);
    assert(!is_job_id_char(s[i]));
}

} // verus!
