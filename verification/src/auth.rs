//! Password protection: a request passes if no password is set, or if it
//! shows the password in a `Basic` authorization header.

use vstd::prelude::*;
use crate::config::Config;
use crate::text::{chars_of, is_prefix, starts_with, str_eq, string_of};

verus! {

/// The authentication rule for one configuration.
pub struct AuthMiddleware {
    config: Config,
}

/// The rule together with the service it guards.
pub struct AuthMiddlewareService<S> {
    pub service: S,
    pub config: Config,
}

/// The bytes that a text stands for in standard Base64 with padding, as
/// `base64::engine::general_purpose::STANDARD` decodes it, or `None` where
/// the text is not such an encoding.
pub uninterp spec fn base64_decoded(text: Seq<char>) -> Option<Seq<u8>>;

/// Decodes `text` with `Engine::decode` of
/// `base64::engine::general_purpose::STANDARD`; a decoding error gives `None`.
#[verifier::external_body]
pub(crate) fn base64_decode(text: &str) -> (r: Option<Vec<u8>>)
    ensures
        match r {
            Some(bytes) => base64_decoded(text@) == Some(bytes@),
            None => base64_decoded(text@) is None,
        },
{
    base64::Engine::decode(&base64::engine::general_purpose::STANDARD, text).ok()
}

/// Reads bytes as UTF-8 with `String::from_utf8`: the text that the bytes
/// encode, or `None` where they are not valid UTF-8.
#[verifier::external_body]
pub(crate) fn text_of_utf8(bytes: Vec<u8>) -> (r: Option<String>)
    ensures
        match r {
            Some(text) => vstd::utf8::valid_utf8(bytes@) && text@ == vstd::utf8::decode_utf8(
                bytes@,
            ),
            None => !vstd::utf8::valid_utf8(bytes@),
        },
{
    String::from_utf8(bytes).ok()
}

/// The words with which a `Basic` authorization header begins.
pub open spec fn basic_lead() -> Seq<char> {
    "Basic "@
}

/// Whether decoded credentials are the password: they must be valid UTF-8
/// and, read as text, equal to it.
pub open spec fn credentials_match(decoded: Option<Seq<u8>>, password: Seq<char>) -> bool {
    match decoded {
        Some(bytes) => vstd::utf8::valid_utf8(bytes) && vstd::utf8::decode_utf8(bytes) == password,
        None => false,
    }
}

/// Whether a request with the given authorization header passes: always
/// if no password is set; otherwise the header must be there, begin with
/// `Basic `, and carry the password in Base64.
pub open spec fn authorized(password: Option<Seq<char>>, header: Option<Seq<char>>) -> bool {
    match password {
        None => true,
        Some(p) => match header {
            None => false,
            Some(h) => is_prefix(basic_lead(), h) && credentials_match(
                base64_decoded(h.skip(basic_lead().len() as int)),
                p,
            ),
        },
    }
}

/// Whether decoded credentials are the password.
pub fn check_credentials(decoded: Option<Vec<u8>>, password: &str) -> (b: bool)
    ensures
        b == credentials_match(
            match decoded {
                Some(bytes) => Some(bytes@),
                None => None,
            },
            password@,
        ),
{
    match decoded {
        Some(bytes) => match text_of_utf8(bytes) {
            Some(text) => str_eq(text.as_str(), password),
            None => false,
        },
        None => false,
    }
}

/// Whether a request with the given authorization header passes, given
/// the password if one is set.
pub fn is_authorized(password: Option<&str>, header: Option<&str>) -> (b: bool)
    ensures
        b == authorized(
            match password {
                Some(p) => Some(p@),
                None => None,
            },
            match header {
                Some(h) => Some(h@),
                None => None,
            },
        ),
{
    let p = match password {
        Some(p) => p,
        None => {
            return true;
        },
    };
    let h = match header {
        Some(h) => chars_of(h),
        None => {
            return false;
        },
    };
    let lead = chars_of("Basic ");
    if !starts_with(&h, &lead) {
        return false;
    }
    let mut rest: Vec<char> = Vec::new();
    let mut i: usize = lead.len();
    while i < h.len()
        invariant
            lead@.len() <= i <= h@.len(),
            rest@ == h@.subrange(lead@.len() as int, i as int),
        decreases h@.len() - i,
    {
        rest.push(h[i]);
        assert(rest@ =~= h@.subrange(lead@.len() as int, i + 1));
        i += 1;
    }
    assert(rest@ =~= h@.skip(lead@.len() as int));
    let encoded = string_of(&rest);
    check_credentials(base64_decode(encoded.as_str()), p)
}

impl AuthMiddleware {
    /// The password that requests must show, if one is set.
    pub closed spec fn password(&self) -> Option<Seq<char>> {
        match self.config.security.auth_password {
            Some(p) => Some(p@),
            None => None,
        }
    }

    /// The rule for `config`.
    pub fn new(config: Config) -> (m: AuthMiddleware)
        ensures
            m.password() == match config.security.auth_password {
                Some(p) => Some(p@),
                None => None,
            },
    {
        AuthMiddleware { config }
    }

    /// Whether a request with the given authorization header passes.
    pub fn authorize(&self, header: Option<&str>) -> (b: bool)
        ensures
            b == authorized(
                self.password(),
                match header {
                    Some(h) => Some(h@),
                    None => None,
                },
            ),
    {
        let password = match &self.config.security.auth_password {
            Some(p) => Some(p.as_str()),
            None => None,
        };
        is_authorized(password, header)
    }

    /// The challenge sent with a refusal.
    pub fn challenge() -> (value: &'static str)
        ensures
            value@ == "Basic realm=\"Aperio API\""@,
    {
        "Basic realm=\"Aperio API\""
    }
}

} // verus!
