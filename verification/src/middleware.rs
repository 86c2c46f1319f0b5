//! What the service adds to every response, and what it counts of every
//! request.

use vstd::prelude::*;

verus! {

/// Adds the security headers to every response.
#[derive(Debug, Clone, Copy)]
pub struct SecurityHeaders;

/// [`SecurityHeaders`] together with the service it wraps.
pub struct SecurityHeadersMiddleware<S> {
    pub service: S,
}

/// Adds the cross-origin header to every response.
#[derive(Debug)]
pub struct Cors {
    allowed_origins: Vec<String>,
}

/// [`Cors`] together with the service it wraps.
pub struct CorsMiddleware<S> {
    pub service: S,
}

/// Gives every request a correlation identifier and times it.
#[derive(Debug, Clone, Copy)]
pub struct RequestTracking;

/// [`RequestTracking`] together with the service it wraps.
pub struct RequestTrackingMiddleware<S> {
    pub service: S,
}

/// Counts of the requests served.
#[derive(Debug, Clone, Copy, PartialEq, Eq)]
pub struct RequestMetrics {
    pub total_requests: usize,
    pub error_requests: usize,
    pub total_duration_ms: u64,
}

/// The security headers, name and value.
pub open spec fn security_headers() -> Seq<(Seq<char>, Seq<char>)> {
    seq![
        ("x-frame-options"@, "DENY"@),
        ("x-content-type-options"@, "nosniff"@),
        ("x-xss-protection"@, "1; mode=block"@),
        ("content-security-policy"@, "default-src 'self'"@),
        ("strict-transport-security"@, "max-age=31536000; includeSubDomains"@),
    ]
}

/// A status code that counts as an error: 400 and above.
pub open spec fn is_error_status(status: u16) -> bool {
    status >= 400
}

/// `a + b` as a machine counter with largest value `max` computes it: the
/// sum, starting again from zero past the largest value.
pub open spec fn wrapped(a: int, b: int, max: int) -> int {
    if a + b <= max {
        a + b
    } else {
        a + b - max - 1
    }
}

impl SecurityHeaders {
    /// The headers to add, name and value, in the order they are added.
    pub fn headers() -> (h: Vec<(&'static str, &'static str)>)
        ensures
            Seq::new(h@.len(), |i: int| (h@[i].0@, h@[i].1@)) == security_headers(),
    {
        let mut h: Vec<(&'static str, &'static str)> = Vec::new();
        h.push(("x-frame-options", "DENY"));
        h.push(("x-content-type-options", "nosniff"));
        h.push(("x-xss-protection", "1; mode=block"));
        h.push(("content-security-policy", "default-src 'self'"));
        h.push(("strict-transport-security", "max-age=31536000; includeSubDomains"));
        assert(Seq::new(h@.len(), |i: int| (h@[i].0@, h@[i].1@)) =~= security_headers());
        h
    }
}

impl Cors {
    /// The origins that were configured.
    pub closed spec fn origins(&self) -> Seq<Seq<char>> {
        Seq::new(self.allowed_origins@.len(), |i: int| self.allowed_origins@[i]@)
    }

    /// The rule for the given origins.
    pub fn new(allowed_origins: Vec<String>) -> (c: Cors)
        ensures
            c.origins() == Seq::new(allowed_origins@.len(), |i: int| allowed_origins@[i]@),
    {
        Cors { allowed_origins }
    }

    /// The rule for local development: the one origin `http://localhost:3000`.
    pub fn restrictive() -> (c: Cors)
        ensures
            c.origins() == seq!["http://localhost:3000"@],
    {
        let mut origins: Vec<String> = Vec::new();
        origins.push("http://localhost:3000".to_owned());
        let c = Cors { allowed_origins: origins };
        assert(c.origins() =~= seq!["http://localhost:3000"@]);
        c
    }

    /// A copy of this rule.
    pub fn duplicate(&self) -> (c: Cors)
        ensures
            c.origins() == self.origins(),
    {
        let origins = crate::text::copy_strings(&self.allowed_origins);
        let c = Cors { allowed_origins: origins };
        assert(c.origins() =~= self.origins());
        c
    }

    /// The origins that were configured.
    pub fn allowed_origins(&self) -> (o: &Vec<String>)
        ensures
            Seq::new(o@.len(), |i: int| o@[i]@) == self.origins(),
    {
        &self.allowed_origins
    }

    /// The value of the `Access-Control-Allow-Origin` header that is added
    /// to every response: any origin.
    pub fn allow_origin_value(&self) -> (v: &'static str)
        ensures
            v@ == "*"@,
    {
        "*"
    }
}

/// The user agent that a request is logged with: the one it names, or `unknown`.
pub open spec fn agent_or_unknown(agent: Option<Seq<char>>) -> Seq<char> {
    match agent {
        Some(a) => a,
        None => "unknown"@,
    }
}

impl RequestTracking {
    /// A fresh random identifier that ties the log lines of one request together.
    pub fn correlation_id() -> (id: String)
        ensures
            crate::job::is_uuid_text(id@),
    {
        crate::job::fresh_job_id()
    }

    /// The user agent that a request is logged with.
    pub fn user_agent(agent: Option<&str>) -> (a: String)
        ensures
            a@ == agent_or_unknown(
                match agent {
                    Some(s) => Some(s@),
                    None => None,
                },
            ),
    {
        match agent {
            Some(s) => s.to_owned(),
            None => "unknown".to_owned(),
        }
    }
}

impl RequestMetrics {
    /// Counters at zero.
    pub fn new() -> (m: RequestMetrics)
        ensures
            m == (RequestMetrics { total_requests: 0, error_requests: 0, total_duration_ms: 0 }),
    {
        RequestMetrics { total_requests: 0, error_requests: 0, total_duration_ms: 0 }
    }

    /// Whether a response with this status counts as an error.
    pub fn is_error(status: u16) -> (b: bool)
        ensures
            b == is_error_status(status),
    {
        status >= 400
    }

    /// Counts one request that took `duration_ms` milliseconds. The
    /// counters start again from zero when they pass their largest value.
    pub fn record_request(&mut self, duration_ms: u64, is_error: bool)
        ensures
            final(self).total_requests == wrapped(
                old(self).total_requests as int,
                1,
                usize::MAX as int,
            ),
            final(self).total_duration_ms == wrapped(
                old(self).total_duration_ms as int,
                duration_ms as int,
                u64::MAX as int,
            ),
            final(self).error_requests == if is_error {
                wrapped(old(self).error_requests as int, 1, usize::MAX as int)
            } else {
                old(self).error_requests as int
            },
    {
        self.total_requests = if self.total_requests == usize::MAX {
            0
        } else {
            self.total_requests + 1
        };
        let room: u64 = u64::MAX - self.total_duration_ms;
        self.total_duration_ms = if duration_ms <= room {
            self.total_duration_ms + duration_ms
        } else {
            duration_ms - room - 1
        };
        if is_error {
            self.error_requests = if self.error_requests == usize::MAX {
                0
            } else {
                self.error_requests + 1
            };
        }
    }
}

} // verus!
