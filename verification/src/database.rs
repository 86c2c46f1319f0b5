//! How the database is opened: where its file lies, with which options it
//! is connected, and how many connections are kept.

use vstd::prelude::*;
use crate::parse::{parse_u64, parsed_u64};
use crate::text::{chars_of, contains_char, push_chars, push_str, string_of};

verus! {

/// The scheme that a database location begins with: `sqlite://`.
pub open spec fn scheme() -> Seq<char> {
    seq!['s', 'q', 'l', 'i', 't', 'e', ':', '/', '/']
}

/// The location without the scheme at its start, however often it is repeated.
pub open spec fn without_scheme(url: Seq<char>) -> Seq<char>
    decreases url.len(),
{
    if url.len() >= 9 && url.subrange(0, 9) == scheme() {
        without_scheme(url.skip(9))
    } else {
        url
    }
}

/// The location with the option that creates a missing database: added
/// to the options if the location has some, else as the only option.
pub open spec fn with_create_option(url: Seq<char>) -> Seq<char> {
    if url.contains('?') {
        url + "&create-if-missing=true"@
    } else {
        url + "?mode=rwc"@
    }
}

/// The number of connections kept where none is configured: four for each
/// processor, at least 10 and at most 100.
pub open spec fn default_connections(cpus: int) -> int {
    if cpus * 4 < 10 {
        10
    } else if cpus * 4 > 100 {
        100
    } else {
        cpus * 4
    }
}

/// The number of connections kept: the setting if it is an unsigned
/// number, cut to 32 bits, else the default for the number of processors.
pub open spec fn connections(setting: Option<Seq<char>>, cpus: int) -> u32 {
    match setting {
        Some(text) => match parsed_u64(text) {
            Some(n) => n as u32,
            None => default_connections(cpus) as u32,
        },
        None => default_connections(cpus) as u32,
    }
}

/// The path of the database file: the location without its scheme.
pub fn database_path(database_url: &str) -> (path: String)
    ensures
        path@ == without_scheme(database_url@),
{
    let url = chars_of(database_url);
    let lead = chars_of("sqlite://");
    proof {
        reveal_strlit("sqlite://");
        assert(lead@ =~= scheme());
    }
    let mut start: usize = 0;
    assert(url@.skip(0) =~= url@);
    while url.len() - start >= 9 && crate::text::matches_at(&url, &lead, start)
        invariant
            start <= url@.len(),
            lead@ == scheme(),
            without_scheme(url@) == without_scheme(url@.skip(start as int)),
        decreases url@.len() - start,
    {
        proof {
            let rest = url@.skip(start as int);
            assert(rest.subrange(0, 9) =~= url@.subrange(start as int, start + 9));
            assert(rest.skip(9) =~= url@.skip(start + 9));
        }
        start += 9;
    }
    proof {
        let rest = url@.skip(start as int);
        if rest.len() >= 9 {
            assert(rest.subrange(0, 9) =~= url@.subrange(start as int, start + 9));
        }
    }
    let mut out: Vec<char> = Vec::new();
    let mut i: usize = start;
    while i < url.len()
        invariant
            start <= i <= url@.len(),
            out@ == url@.subrange(start as int, i as int),
        decreases url@.len() - i,
    {
        out.push(url[i]);
        assert(out@ =~= url@.subrange(start as int, i + 1));
        i += 1;
    }
    assert(out@ =~= url@.skip(start as int));
    string_of(&out)
}

/// The location to connect to, with the option that creates a missing database.
pub fn connection_url(database_url: &str) -> (url: String)
    ensures
        url@ == with_create_option(database_url@),
{
    let text = chars_of(database_url);
    let mut out: Vec<char> = Vec::new();
    push_chars(&mut out, &text);
    if contains_char(&text, '?') {
        push_str(&mut out, "&create-if-missing=true");
    } else {
        push_str(&mut out, "?mode=rwc");
    }
    string_of(&out)
}

/// The number of connections kept, given the setting if there is one and
/// the number of processors.
pub fn max_connections(setting: Option<&str>, cpus: usize) -> (n: u32)
    ensures
        n == connections(
            match setting {
                Some(s) => Some(s@),
                None => None,
            },
            cpus as int,
        ),
{
    let configured = match setting {
        Some(text) => parse_u64(text),
        None => None,
    };
    match configured {
        Some(n) => #[verifier::truncate]
        (n as u32),
        None => if cpus < 3 {
            10
        } else if cpus > 25 {
            100
        } else {
            (cpus * 4) as u32
        },
    }
}

} // verus!
