//! Validation of source URLs: length, form, scheme, host, allow-list and
//! patterns that are known to dodge such checks.

use vstd::prelude::*;
use crate::error::{failure_of, AppError, AppResult, ErrorKind};
use crate::host_rules::{host_failure, validate_host_security};
use crate::security::SecurityValidator;
use crate::text::{
    byte_len, byte_length, chars_of, contains, decimal, ends_with, has_substring, is_suffix,
    push_chars, push_decimal, push_str, same_chars, str_eq, string_of, texts,
};
use crate::url_parts::{parse_url, url_parse_of, ParsedUrl, UrlView};

verus! {

/// `host` is `domain` itself or lies below it.
pub open spec fn host_matches(host: Seq<char>, domain: Seq<char>) -> bool {
    host == domain || is_suffix("."@ + domain, host)
}

/// `host` is one of the allowed domains or lies below one.
pub open spec fn domain_allowed(domains: Seq<Seq<char>>, host: Seq<char>) -> bool {
    exists|i: int| 0 <= i < domains.len() && host_matches(host, #[trigger] domains[i])
}

/// The parts in a row with `sep` between each two.
pub open spec fn joined(parts: Seq<Seq<char>>, sep: Seq<char>) -> Seq<char>
    decreases parts.len(),
{
    if parts.len() == 0 {
        Seq::empty()
    } else if parts.len() == 1 {
        parts[0]
    } else {
        joined(parts.drop_last(), sep) + sep + parts.last()
    }
}

/// The message for a URL that is too long.
pub open spec fn url_too_long_message(len: nat, max: nat) -> Seq<char> {
    "URL too long: "@ + decimal(len) + " characters (max: "@ + decimal(max) + ")"@
}

/// The message for a host outside the allow-list.
pub open spec fn domain_refused_message(host: Seq<char>, domains: Seq<Seq<char>>) -> Seq<char> {
    "Domain '"@ + host + "' is not in the allowed domains list: "@ + joined(domains, ", "@)
}

/// Segment number `i` of the path holds two dots in a row.
pub open spec fn dotted_at(path: Seq<Seq<char>>, i: int) -> bool {
    0 <= i < path.len() && has_substring(path[i], ".."@)
}

/// Some segment of the path holds two dots in a row.
pub open spec fn has_dotted_segment(segments: Option<Seq<Seq<char>>>) -> bool {
    match segments {
        Some(path) => exists|i: int| dotted_at(path, i),
        None => false,
    }
}

/// The failure for a pattern in the normalised URL, or `None`. The checks
/// run in this order.
pub open spec fn pattern_failure(url: UrlView) -> Option<(ErrorKind, Seq<char>)> {
    if has_substring(url.serialized, "@"@) && !has_substring(url.serialized, "youtube.com"@) {
        Some(
            (
                ErrorKind::Download,
                "URLs with @ symbols are not allowed (potential redirect attack)"@,
            ),
        )
    } else if has_substring(url.serialized, "%2F"@) || has_substring(url.serialized, "%5C"@) {
        Some((ErrorKind::Download, "URLs with encoded slashes are not allowed"@))
    } else if has_dotted_segment(url.path_segments) {
        Some((ErrorKind::Download, "URLs with path traversal patterns are not allowed"@))
    } else {
        None
    }
}

/// The failure for a URL that parsed, or `None` where it is accepted. The
/// checks run in this order: scheme, presence of a host, the host's range
/// or name, the allow-list, the patterns.
pub open spec fn parsed_url_failure(domains: Seq<Seq<char>>, url: UrlView) -> Option<
    (ErrorKind, Seq<char>),
> {
    if url.scheme != "https"@ {
        Some((ErrorKind::Download, "Only HTTPS URLs are allowed for security reasons"@))
    } else if url.host is None {
        Some((ErrorKind::Download, "URL must have a valid host"@))
    } else if host_failure(url.host->0, url.addr) is Some {
        host_failure(url.host->0, url.addr)
    } else if !domain_allowed(domains, url.host->0) {
        Some((ErrorKind::Download, domain_refused_message(url.host->0, domains)))
    } else {
        pattern_failure(url)
    }
}

/// The failure for a URL given as text together with what parsing made of
/// it, or `None` where it is accepted.
pub open spec fn url_failure(
    domains: Seq<Seq<char>>,
    max_length: nat,
    text: Seq<char>,
    parsed: Result<UrlView, Seq<char>>,
) -> Option<(ErrorKind, Seq<char>)> {
    if byte_len(text) > max_length {
        Some((ErrorKind::Download, url_too_long_message(byte_len(text), max_length)))
    } else {
        match parsed {
            Err(words) => Some((ErrorKind::Download, "Invalid URL format: "@ + words)),
            Ok(url) => parsed_url_failure(domains, url),
        }
    }
}

fn has_word(text: &Vec<char>, word: &str) -> (b: bool)
    ensures
        b == has_substring(text@, word@),
{
    let w = chars_of(word);
    contains(text, &w)
}

proof fn lemma_joined_push(parts: Seq<Seq<char>>, sep: Seq<char>, next: Seq<char>)
    ensures
        joined(parts.push(next), sep) == if parts.len() == 0 {
            next
        } else {
            joined(parts, sep) + sep + next
        },
{
    assert(parts.push(next).drop_last() =~= parts);
    assert(parts.push(next).last() == next);
}

impl SecurityValidator {
    /// Whether `host` is one of the allowed domains or lies below one.
    pub fn is_domain_allowed(&self, host: &str) -> (b: bool)
        ensures
            b == domain_allowed(self.spec_allowed_domains(), host@),
    {
        let h = chars_of(host);
        let mut i: usize = 0;
        while i < self.allowed_domains.len()
            invariant
                i <= self.allowed_domains.len(),
                h@ == host@,
                forall|j: int|
                    0 <= j < i ==> !host_matches(host@, #[trigger] self.spec_allowed_domains()[j]),
            decreases self.allowed_domains.len() - i,
        {
            let d = chars_of(self.allowed_domains[i].as_str());
            let mut dotted: Vec<char> = Vec::new();
            push_str(&mut dotted, ".");
            push_chars(&mut dotted, &d);
            assert(dotted@ =~= "."@ + d@);
            assert(d@ == self.spec_allowed_domains()[i as int]);
            if same_chars(&h, &d) || ends_with(&h, &dotted) {
                return true;
            }
            i += 1;
        }
        false
    }

    /// The allowed domains in a row, separated by a comma and a space.
    pub fn allowed_domains_text(&self) -> (s: String)
        ensures
            s@ == joined(self.spec_allowed_domains(), ", "@),
    {
        let mut out: Vec<char> = Vec::new();
        let mut i: usize = 0;
        while i < self.allowed_domains.len()
            invariant
                i <= self.allowed_domains.len(),
                out@ == joined(self.spec_allowed_domains().take(i as int), ", "@),
            decreases self.allowed_domains.len() - i,
        {
            proof {
                let ds = self.spec_allowed_domains();
                lemma_joined_push(ds.take(i as int), ", "@, ds[i as int]);
                assert(ds.take(i + 1) =~= ds.take(i as int).push(ds[i as int]));
            }
            if i > 0 {
                push_str(&mut out, ", ");
            }
            push_str(&mut out, self.allowed_domains[i].as_str());
            i += 1;
        }
        assert(self.spec_allowed_domains().take(i as int) =~= self.spec_allowed_domains());
        string_of(&out)
    }
}

/// Rejects a normalised URL that holds `@` (unless it names youtube.com),
/// an encoded slash or backslash, or a path segment with two dots in a row.
pub fn validate_url_patterns(url: &ParsedUrl) -> (r: AppResult<()>)
    ensures
        failure_of(r) == pattern_failure(url@),
{
    let text = chars_of(url.serialized.as_str());
    if has_word(&text, "@") && !has_word(&text, "youtube.com") {
        return Err(
            AppError::download("URLs with @ symbols are not allowed (potential redirect attack)"),
        );
    }
    if has_word(&text, "%2F") || has_word(&text, "%5C") {
        return Err(AppError::download("URLs with encoded slashes are not allowed"));
    }
    if any_dotted_segment(&url.path_segments) {
        return Err(AppError::download("URLs with path traversal patterns are not allowed"));
    }
    Ok(())
}

proof fn lemma_dotted_segment_found(path: Seq<Seq<char>>, i: int)
    requires
        dotted_at(path, i),
    ensures
        has_dotted_segment(Some(path)),
{
    assert(exists|k: int| dotted_at(path, k));
    let found = Some(path);
    assert(found matches Some(q) && q == path);
}

fn any_dotted_segment(segments: &Option<Vec<String>>) -> (b: bool)
    ensures
        b == has_dotted_segment(
            match *segments {
                Some(p) => Some(texts(p@)),
                None => None,
            },
        ),
{
    match segments {
        Some(list) => {
            let mut i: usize = 0;
            while i < list.len()
                invariant
                    i <= list.len(),
                    *segments == Some(*list),
                    forall|j: int| 0 <= j < i ==> !dotted_at(texts(list@), j),
                decreases list.len() - i,
            {
                let seg = chars_of(list[i].as_str());
                assert(seg@ == texts(list@)[i as int]);
                if has_word(&seg, "..") {
                    proof {
                        lemma_dotted_segment_found(texts(list@), i as int);
                    }
                    return true;
                }
                i += 1;
            }
            false
        },
        None => false,
    }
}

impl SecurityValidator {
    /// Checks a URL that parsed: it must use HTTPS, name a host outside the
    /// local network that is on the allow-list, and hold none of the
    /// refused patterns. An accepted URL is handed back unchanged.
    pub fn validate_parsed_url(&self, url: ParsedUrl) -> (r: AppResult<ParsedUrl>)
        ensures
            failure_of(r) == parsed_url_failure(self.spec_allowed_domains(), url@),
            r matches Ok(accepted) ==> accepted@ == url@,
    {
        if !str_eq(url.scheme.as_str(), "https") {
            return Err(AppError::download("Only HTTPS URLs are allowed for security reasons"));
        }
        let host: &str = match &url.host {
            Some(h) => h.as_str(),
            None => {
                return Err(AppError::download("URL must have a valid host"));
            },
        };
        match validate_host_security(host, &url.addr) {
            Err(e) => {
                return Err(e);
            },
            Ok(_) => {},
        }
        if !self.is_domain_allowed(host) {
            let list = self.allowed_domains_text();
            let mut m: Vec<char> = Vec::new();
            push_str(&mut m, "Domain '");
            push_str(&mut m, host);
            push_str(&mut m, "' is not in the allowed domains list: ");
            push_str(&mut m, list.as_str());
            assert(m@ =~= domain_refused_message(host@, self.spec_allowed_domains()));
            return Err(AppError::Download(string_of(&m)));
        }
        match validate_url_patterns(&url) {
            Err(e) => {
                return Err(e);
            },
            Ok(_) => {},
        }
        Ok(url)
    }

    /// Checks a source URL given as text: its length, then its form, then
    /// everything [`SecurityValidator::validate_parsed_url`] asks of it.
    pub fn validate_url(&self, url_str: &str) -> (r: AppResult<ParsedUrl>)
        ensures
            failure_of(r) == url_failure(
                self.spec_allowed_domains(),
                self.spec_max_url_length(),
                url_str@,
                url_parse_of(url_str@),
            ),
            r matches Ok(accepted) ==> url_parse_of(url_str@) == Ok::<UrlView, Seq<char>>(
                accepted@,
            ),
    {
        let n: usize = byte_length(url_str);
        if n > self.max_url_length {
            let mut m: Vec<char> = Vec::new();
            push_str(&mut m, "URL too long: ");
            push_decimal(&mut m, n as u64);
            push_str(&mut m, " characters (max: ");
            push_decimal(&mut m, self.max_url_length as u64);
            push_str(&mut m, ")");
            assert(m@ =~= url_too_long_message(n as nat, self.max_url_length as nat));
            return Err(AppError::Download(string_of(&m)));
        }
        match parse_url(url_str) {
            Err(words) => {
                let mut m: Vec<char> = Vec::new();
                push_str(&mut m, "Invalid URL format: ");
                push_str(&mut m, words.as_str());
                assert(m@ =~= "Invalid URL format: "@ + words@);
                Err(AppError::Download(string_of(&m)))
            },
            Ok(url) => self.validate_parsed_url(url),
        }
    }
}

} // verus!
