//! Which hosts a source URL may name: no private, loopback, link-local,
//! carrier-grade NAT, unique-local, multicast or unspecified address, and
//! no name that points inside the local network.

use vstd::prelude::*;
use crate::error::{failure_of, AppError, AppResult, ErrorKind};
use crate::text::{
    chars_of, contains, ends_with, has_substring, is_suffix, lowercase_of, same_chars,
    to_lowercase,
};
use crate::url_parts::HostAddr;

verus! {

/// The failure for an IPv4 address by its octets, or `None` where it may
/// be reached. The checks run in this order.
pub open spec fn ipv4_failure(o: Seq<u8>) -> Option<(ErrorKind, Seq<char>)> {
    if o[0] == 10 || (o[0] == 172 && 16 <= o[1] <= 31) || (o[0] == 192 && o[1] == 168) {
        Some((ErrorKind::Download, "Access to private IP addresses is not allowed"@))
    } else if o[0] == 127 {
        Some((ErrorKind::Download, "Access to loopback addresses is not allowed"@))
    } else if o[0] == 169 && o[1] == 254 {
        Some((ErrorKind::Download, "Access to link-local addresses is not allowed"@))
    } else if 224 <= o[0] <= 239 {
        Some((ErrorKind::Download, "Access to multicast addresses is not allowed"@))
    } else if o[0] == 100 && 64 <= o[1] <= 127 {
        Some((ErrorKind::Download, "Access to CGN addresses is not allowed"@))
    } else {
        None
    }
}

/// The failure for an IPv6 address by its segments, or `None` where it may
/// be reached. The checks run in this order.
pub open spec fn ipv6_failure(s: Seq<u16>) -> Option<(ErrorKind, Seq<char>)> {
    if s[0] == 0 && s[1] == 0 && s[2] == 0 && s[3] == 0 && s[4] == 0 && s[5] == 0 && s[6] == 0
        && s[7] == 1 {
        Some((ErrorKind::Download, "Access to loopback addresses is not allowed"@))
    } else if s[0] == 0 && s[1] == 0 && s[2] == 0 && s[3] == 0 && s[4] == 0 && s[5] == 0 && s[6]
        == 0 && s[7] == 0 {
        Some((ErrorKind::Download, "Access to unspecified addresses is not allowed"@))
    } else if s[0] >= 0xff00 {
        Some((ErrorKind::Download, "Access to multicast addresses is not allowed"@))
    } else if 0xfe80 <= s[0] <= 0xfebf {
        Some((ErrorKind::Download, "Access to link-local addresses is not allowed"@))
    } else if 0xfc00 <= s[0] <= 0xfdff {
        Some((ErrorKind::Download, "Access to unique local addresses is not allowed"@))
    } else {
        None
    }
}

/// The failure for a host name, given the name and its lower-case form, or
/// `None` where it may be reached. The checks run in this order.
pub open spec fn host_name_failure(host: Seq<char>, lower: Seq<char>) -> Option<
    (ErrorKind, Seq<char>),
> {
    if host.len() == 0 {
        Some((ErrorKind::Download, "Empty host not allowed"@))
    } else if lower == "localhost"@ || is_suffix(".localhost"@, lower) || is_suffix(
        ".local"@,
        lower,
    ) {
        Some((ErrorKind::Download, "Access to localhost/local domains is not allowed"@))
    } else if is_suffix(".internal"@, lower) || is_suffix(".intranet"@, lower) || has_substring(
        lower,
        "internal."@,
    ) {
        Some((ErrorKind::Download, "Access to internal domains is not allowed"@))
    } else {
        None
    }
}

/// The failure for a host: by its address if it is one, by its name otherwise.
pub open spec fn host_failure(host: Seq<char>, addr: HostAddr) -> Option<(ErrorKind, Seq<char>)> {
    match addr {
        HostAddr::V4(o) => ipv4_failure(o@),
        HostAddr::V6(s) => ipv6_failure(s@),
        HostAddr::Name => host_name_failure(host, lowercase_of(host)),
    }
}

/// Rejects IPv4 addresses that lie in a private, loopback, link-local,
/// multicast or carrier-grade NAT range.
pub fn validate_ipv4_address(octets: &[u8; 4]) -> (r: AppResult<()>)
    ensures
        failure_of(r) == ipv4_failure(octets@),
{
    let a: u8 = octets[0];
    let b: u8 = octets[1];
    if a == 10 || (a == 172 && 16 <= b && b <= 31) || (a == 192 && b == 168) {
        return Err(AppError::download("Access to private IP addresses is not allowed"));
    }
    if a == 127 {
        return Err(AppError::download("Access to loopback addresses is not allowed"));
    }
    if a == 169 && b == 254 {
        return Err(AppError::download("Access to link-local addresses is not allowed"));
    }
    if 224 <= a && a <= 239 {
        return Err(AppError::download("Access to multicast addresses is not allowed"));
    }
    if a == 100 && 64 <= b && b <= 127 {
        return Err(AppError::download("Access to CGN addresses is not allowed"));
    }
    Ok(())
}

/// Rejects the IPv6 loopback and unspecified addresses and those in the
/// multicast, link-local and unique-local ranges.
pub fn validate_ipv6_address(segments: &[u16; 8]) -> (r: AppResult<()>)
    ensures
        failure_of(r) == ipv6_failure(segments@),
{
    let head_zero: bool = segments[0] == 0 && segments[1] == 0 && segments[2] == 0 && segments[3]
        == 0 && segments[4] == 0 && segments[5] == 0 && segments[6] == 0;
    if head_zero && segments[7] == 1 {
        return Err(AppError::download("Access to loopback addresses is not allowed"));
    }
    if head_zero && segments[7] == 0 {
        return Err(AppError::download("Access to unspecified addresses is not allowed"));
    }
    let first: u16 = segments[0];
    if first >= 0xff00 {
        return Err(AppError::download("Access to multicast addresses is not allowed"));
    }
    if 0xfe80 <= first && first <= 0xfebf {
        return Err(AppError::download("Access to link-local addresses is not allowed"));
    }
    if 0xfc00 <= first && first <= 0xfdff {
        return Err(AppError::download("Access to unique local addresses is not allowed"));
    }
    Ok(())
}

/// Rejects an address by its range.
pub fn validate_ip_address(addr: &HostAddr) -> (r: AppResult<()>)
    ensures
        failure_of(r) == match *addr {
            HostAddr::V4(o) => ipv4_failure(o@),
            HostAddr::V6(s) => ipv6_failure(s@),
            HostAddr::Name => None,
        },
{
    match addr {
        HostAddr::V4(o) => validate_ipv4_address(o),
        HostAddr::V6(s) => validate_ipv6_address(s),
        HostAddr::Name => Ok(()),
    }
}

fn ends(text: &Vec<char>, tail: &str) -> (b: bool)
    ensures
        b == is_suffix(tail@, text@),
{
    let t = chars_of(tail);
    ends_with(text, &t)
}

/// Rejects the empty name, `localhost` and names under `.localhost`,
/// `.local`, `.internal`, `.intranet` or holding `internal.`, given the
/// name and its lower-case form.
pub fn validate_host_name(host: &str, lower: &str) -> (r: AppResult<()>)
    ensures
        failure_of(r) == host_name_failure(host@, lower@),
{
    let h = chars_of(host);
    if h.len() == 0 {
        return Err(AppError::download("Empty host not allowed"));
    }
    let l = chars_of(lower);
    let localhost = chars_of("localhost");
    if same_chars(&l, &localhost) || ends(&l, ".localhost") || ends(&l, ".local") {
        return Err(AppError::download("Access to localhost/local domains is not allowed"));
    }
    let inner = chars_of("internal.");
    if ends(&l, ".internal") || ends(&l, ".intranet") || contains(&l, &inner) {
        return Err(AppError::download("Access to internal domains is not allowed"));
    }
    Ok(())
}

/// Rejects hosts inside the local network: by range for an address, by
/// name otherwise, the name being compared in lower case.
pub fn validate_host_security(host: &str, addr: &HostAddr) -> (r: AppResult<()>)
    ensures
        failure_of(r) == host_failure(host@, *addr),
{
    match addr {
        HostAddr::V4(o) => validate_ipv4_address(o),
        HostAddr::V6(s) => validate_ipv6_address(s),
        HostAddr::Name => {
            let lower = to_lowercase(host);
            validate_host_name(host, lower.as_str())
        },
    }
}

} // verus!
