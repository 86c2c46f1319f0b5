//! The parts of a parsed URL that validation reads.

use vstd::prelude::*;
use crate::text::texts;

verus! {

/// What kind of host a URL names.
#[derive(Debug, Clone, Copy, PartialEq, Eq)]
pub enum HostAddr {
    /// A domain name, or no host at all.
    Name,
    /// An IPv4 address, by its four octets.
    V4([u8; 4]),
    /// An IPv6 address, by its eight 16-bit segments.
    V6([u16; 8]),
}

/// A URL that parsed: its scheme, its host as written in the normalised
/// URL, the address if the host is one, the segments of its path, and the
/// normalised URL itself.
#[derive(Debug, Clone)]
pub struct ParsedUrl {
    pub scheme: String,
    pub host: Option<String>,
    pub addr: HostAddr,
    pub path_segments: Option<Vec<String>>,
    pub serialized: String,
}

/// The mathematical content of a [`ParsedUrl`].
pub struct UrlView {
    pub scheme: Seq<char>,
    pub host: Option<Seq<char>>,
    pub addr: HostAddr,
    pub path_segments: Option<Seq<Seq<char>>>,
    pub serialized: Seq<char>,
}

impl View for ParsedUrl {
    type V = UrlView;

    open spec fn view(&self) -> UrlView {
        UrlView {
            scheme: self.scheme@,
            host: match self.host {
                Some(h) => Some(h@),
                None => None,
            },
            addr: self.addr,
            path_segments: match self.path_segments {
                Some(p) => Some(texts(p@)),
                None => None,
            },
            serialized: self.serialized@,
        }
    }
}

/// What `url::Url::parse` makes of a text: the parts of the URL, or the
/// words of the parse error.
pub uninterp spec fn url_parse_of(input: Seq<char>) -> Result<UrlView, Seq<char>>;

/// Parses `input` with `url::Url::parse` and copies out the scheme, the
/// host text, the address kind, the path segments and the normalised text;
/// a parse error is given by its printed words.
#[verifier::external_body]
pub(crate) fn parse_url(input: &str) -> (r: Result<ParsedUrl, String>)
    ensures
        match r {
            Ok(u) => url_parse_of(input@) == Ok::<UrlView, Seq<char>>(u@),
            Err(e) => url_parse_of(input@) == Err::<UrlView, Seq<char>>(e@),
        },
{
    let u = url::Url::parse(input).map_err(|e| e.to_string())?;
    let addr = match u.host() {
        Some(url::Host::Ipv4(a)) => HostAddr::V4(a.octets()),
        Some(url::Host::Ipv6(a)) => HostAddr::V6(a.segments()),
        Some(url::Host::Domain(_)) => HostAddr::Name,
        None => HostAddr::Name,
    };
    Ok(ParsedUrl {
        scheme: u.scheme().to_string(),
        host: u.host_str().map(|h| h.to_string()),
        addr,
        path_segments: u.path_segments().map(|p| p.map(|s| s.to_string()).collect()),
        serialized: u.as_str().to_string(),
    })
}

} // verus!
