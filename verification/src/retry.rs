//! Retry policy: which failures are worth another attempt, and how long to
//! wait before it.

use vstd::prelude::*;
use crate::error::{AppError, ErrorKind};
use crate::text::{chars_of, contains, has_substring, lowercase_of, to_lowercase};

verus! {

/// Bounded exponential backoff. Delays are whole milliseconds and the
/// multiplier is a whole number.
#[derive(Debug, Clone, Copy, PartialEq, Eq, Structural)]
pub struct RetryConfig {
    pub max_attempts: u32,
    pub base_delay_ms: u64,
    pub max_delay_ms: u64,
    pub backoff_multiplier: u32,
}

/// What the driver does once an attempt has failed.
#[derive(Debug, Clone, Copy, PartialEq, Eq, Structural)]
pub enum RetryStep {
    /// Sleep for the given number of milliseconds, then run the operation again.
    RetryAfter(u64),
    /// Stop and report the failure.
    GiveUp,
}

/// `b` to the power `e`.
pub open spec fn pow(b: nat, e: nat) -> nat
    decreases e,
{
    if e == 0 {
        1
    } else {
        b * pow(b, (e - 1) as nat)
    }
}

/// The smaller of two numbers.
pub open spec fn min_of(a: int, b: int) -> int {
    if a <= b {
        a
    } else {
        b
    }
}

/// Delay in milliseconds between attempt `attempt` and the next one:
/// `min(base * multiplier^(attempt - 1), max_delay)`.
pub open spec fn backoff_delay(config: RetryConfig, attempt: int) -> int
    recommends
        attempt >= 1,
{
    min_of(
        (config.base_delay_ms * pow(config.backoff_multiplier as nat, (attempt - 1) as nat)) as int,
        config.max_delay_ms as int,
    )
}

/// Whether a lower-cased message names a passing network condition.
pub open spec fn download_transient(lower: Seq<char>) -> bool {
    ||| has_substring(lower, "timeout"@)
    ||| has_substring(lower, "connection"@)
    ||| has_substring(lower, "network"@)
    ||| has_substring(lower, "temporary"@)
    ||| has_substring(lower, "unavailable"@)
    ||| has_substring(lower, "reset"@)
    ||| has_substring(lower, "refused"@)
    ||| has_substring(lower, "502"@)
    ||| has_substring(lower, "503"@)
    ||| has_substring(lower, "504"@)
    ||| has_substring(lower, "429"@)
}

/// Whether a lower-cased message names a passing condition of the transcoder's host.
pub open spec fn processing_transient(lower: Seq<char>) -> bool {
    ||| has_substring(lower, "resource temporarily unavailable"@)
    ||| has_substring(lower, "device busy"@)
    ||| has_substring(lower, "temporary failure"@)
    ||| has_substring(lower, "disk full"@)
}

/// Whether a lower-cased message names a passing condition of the store.
pub open spec fn internal_transient(lower: Seq<char>) -> bool {
    has_substring(lower, "database"@) && (has_substring(lower, "busy"@) || has_substring(
        lower,
        "locked"@,
    ) || has_substring(lower, "connection"@))
}

/// The classifier: a failure of kind `kind` whose lower-cased message is
/// `lower` is worth retrying.
pub open spec fn retryable(kind: ErrorKind, lower: Seq<char>) -> bool {
    match kind {
        ErrorKind::Timeout => true,
        ErrorKind::Download => download_transient(lower),
        ErrorKind::Processing => processing_transient(lower),
        ErrorKind::Internal => internal_transient(lower),
        ErrorKind::Storage => false,
        ErrorKind::BadRequest => false,
        ErrorKind::NotFound => false,
    }
}

/// The decision after attempt number `attempt` failed.
pub open spec fn retry_step(config: RetryConfig, attempt: int, worth_retrying: bool) -> RetryStep {
    if attempt < config.max_attempts && worth_retrying {
        RetryStep::RetryAfter(backoff_delay(config, attempt) as u64)
    } else {
        RetryStep::GiveUp
    }
}

fn has(text: &Vec<char>, word: &str) -> (b: bool)
    ensures
        b == has_substring(text@, word@),
{
    let w = chars_of(word);
    contains(text, &w)
}

/// Classifies a failure whose message has already been lower-cased.
pub fn is_retryable_lowered(kind: ErrorKind, lower: &str) -> (b: bool)
    ensures
        b == retryable(kind, lower@),
{
    let m = chars_of(lower);
    match kind {
        ErrorKind::Timeout => true,
        ErrorKind::Download => {
            has(&m, "timeout") || has(&m, "connection") || has(&m, "network") || has(
                &m,
                "temporary",
            ) || has(&m, "unavailable") || has(&m, "reset") || has(&m, "refused") || has(&m, "502")
                || has(&m, "503") || has(&m, "504") || has(&m, "429")
        },
        ErrorKind::Processing => {
            has(&m, "resource temporarily unavailable") || has(&m, "device busy") || has(
                &m,
                "temporary failure",
            ) || has(&m, "disk full")
        },
        ErrorKind::Internal => {
            has(&m, "database") && (has(&m, "busy") || has(&m, "locked") || has(&m, "connection"))
        },
        ErrorKind::Storage => false,
        ErrorKind::BadRequest => false,
        ErrorKind::NotFound => false,
    }
}

/// Whether `error` is worth another attempt. The message is compared in
/// lower case, so the keywords match whatever the case of the message.
pub fn is_retryable_error(error: &AppError) -> (b: bool)
    ensures
        b == retryable(error.spec_kind(), lowercase_of(error.spec_message())),
{
    let lower = to_lowercase(error.message());
    is_retryable_lowered(error.kind(), lower.as_str())
}

impl Default for RetryConfig {
    /// Three attempts, one second at first, doubling, at most thirty seconds.
    fn default() -> (c: RetryConfig)
        ensures
            c == (RetryConfig {
                max_attempts: 3,
                base_delay_ms: 1000,
                max_delay_ms: 30000,
                backoff_multiplier: 2,
            }),
    {
        RetryConfig {
            max_attempts: 3,
            base_delay_ms: 1000,
            max_delay_ms: 30000,
            backoff_multiplier: 2,
        }
    }
}

impl RetryConfig {
    /// The policy around the download stage: two attempts, 1 s, at most 10 s, doubling.
    pub fn download_policy() -> (c: RetryConfig)
        ensures
            c == (RetryConfig {
                max_attempts: 2,
                base_delay_ms: 1000,
                max_delay_ms: 10000,
                backoff_multiplier: 2,
            }),
    {
        RetryConfig {
            max_attempts: 2,
            base_delay_ms: 1000,
            max_delay_ms: 10000,
            backoff_multiplier: 2,
        }
    }

    /// The policy around the transcode stage: a single attempt.
    pub fn transcode_policy() -> (c: RetryConfig)
        ensures
            c == (RetryConfig {
                max_attempts: 1,
                base_delay_ms: 1000,
                max_delay_ms: 5000,
                backoff_multiplier: 1,
            }),
    {
        RetryConfig {
            max_attempts: 1,
            base_delay_ms: 1000,
            max_delay_ms: 5000,
            backoff_multiplier: 1,
        }
    }

    /// The policy around each write of a job row: three attempts, 50 ms, at most 2 s, doubling.
    pub fn flush_policy() -> (c: RetryConfig)
        ensures
            c == (RetryConfig {
                max_attempts: 3,
                base_delay_ms: 50,
                max_delay_ms: 2000,
                backoff_multiplier: 2,
            }),
    {
        RetryConfig { max_attempts: 3, base_delay_ms: 50, max_delay_ms: 2000, backoff_multiplier: 2 }
    }
}

/// With a multiplier of at least one, a later power is no smaller.
proof fn lemma_pow_grows(b: nat, e1: nat, e2: nat)
    requires
        b >= 1,
        e1 <= e2,
    ensures
        1 <= pow(b, e1) <= pow(b, e2),
    decreases e2,
{
    if e1 == 0 {
        if e2 > 0 {
            lemma_pow_grows(b, 0, (e2 - 1) as nat);
            assert(pow(b, e2) >= pow(b, (e2 - 1) as nat)) by (nonlinear_arith)
                requires
                    pow(b, e2) == b * pow(b, (e2 - 1) as nat),
                    b >= 1,
            ;
        }
    } else {
        lemma_pow_grows(b, (e1 - 1) as nat, (e2 - 1) as nat);
        assert(b * pow(b, (e1 - 1) as nat) <= b * pow(b, (e2 - 1) as nat)) by (nonlinear_arith)
            requires
                pow(b, (e1 - 1) as nat) <= pow(b, (e2 - 1) as nat),
                b >= 1,
        ;
        assert(b * pow(b, (e1 - 1) as nat) >= 1) by (nonlinear_arith)
            requires
                pow(b, (e1 - 1) as nat) >= 1,
                b >= 1,
        ;
    }
}

/// One more factor on a capped product gives the capped longer product.
proof fn lemma_cap_step(x: nat, m: nat, cap: nat)
    ensures
        min_of(min_of(x as int, cap as int) * m, cap as int) == min_of((x * m) as int, cap as int),
{
    if x > cap {
        if m >= 1 {
            assert(cap * m >= cap) by (nonlinear_arith)
                requires
                    m >= 1,
            ;
            assert(x * m >= x) by (nonlinear_arith)
                requires
                    m >= 1,
            ;
        } else {
            assert(cap * m == 0) by (nonlinear_arith)
                requires
                    m == 0,
            ;
            assert(x * m == 0) by (nonlinear_arith)
                requires
                    m == 0,
            ;
        }
    }
}

/// Delay in milliseconds before the attempt that follows attempt number `attempt`.
pub fn calculate_backoff_delay(attempt: u32, config: &RetryConfig) -> (delay_ms: u64)
    requires
        attempt >= 1,
    ensures
        delay_ms == backoff_delay(*config, attempt as int),
        delay_ms <= config.max_delay_ms,
{
    let cap: u64 = config.max_delay_ms;
    let m: u32 = config.backoff_multiplier;
    let mut cur: u64 = if config.base_delay_ms <= cap {
        config.base_delay_ms
    } else {
        cap
    };
    let mut i: u32 = 1;
    assert(config.base_delay_ms * pow(m as nat, 0) == config.base_delay_ms) by (nonlinear_arith)
        requires
            pow(m as nat, 0) == 1,
    ;
    while i < attempt
        invariant
            1 <= i <= attempt,
            cap == config.max_delay_ms,
            m == config.backoff_multiplier,
            cur == backoff_delay(*config, i as int),
            cur <= cap,
        decreases attempt - i,
    {
        if m >= 1 && cur == cap {
            proof {
                let base = config.base_delay_ms as nat;
                lemma_pow_grows(m as nat, (i - 1) as nat, (attempt - 1) as nat);
                assert(base * pow(m as nat, (i - 1) as nat) <= base * pow(
                    m as nat,
                    (attempt - 1) as nat,
                )) by (nonlinear_arith)
                    requires
                        pow(m as nat, (i - 1) as nat) <= pow(m as nat, (attempt - 1) as nat),
                ;
            }
            return cur;
        }
        assert(cur * m <= 0xffff_ffff_ffff_ffff * 0xffff_ffff) by (nonlinear_arith)
            requires
                0 <= cur <= 0xffff_ffff_ffff_ffff,
                0 <= m <= 0xffff_ffff,
        ;
        let wide: u128 = (cur as u128) * (m as u128);
        proof {
            let base = config.base_delay_ms as nat;
            let p = pow(m as nat, (i - 1) as nat);
            lemma_cap_step(base * p, m as nat, cap as nat);
            assert(base * pow(m as nat, i as nat) == (base * p) * m) by (nonlinear_arith)
                requires
                    pow(m as nat, i as nat) == m * p,
            ;
        }
        cur = if wide <= cap as u128 {
            wide as u64
        } else {
            cap
        };
        i += 1;
    }
    cur
}

/// The state of one retried operation: the policy and the number of the
/// attempt that is running or has just ended.
#[derive(Debug, Clone, Copy)]
pub struct RetryDriver {
    config: RetryConfig,
    attempt: u32,
}

impl RetryDriver {
    /// The policy of this driver.
    pub closed spec fn config(&self) -> RetryConfig {
        self.config
    }

    /// The number of the current attempt, counted from 1.
    pub closed spec fn spec_attempt(&self) -> int {
        self.attempt as int
    }

    /// The current attempt lies within the policy's bound.
    pub open spec fn wf(&self) -> bool {
        1 <= self.spec_attempt() <= self.config().max_attempts
    }

    /// A driver whose first attempt is about to run.
    pub fn new(config: RetryConfig) -> (d: RetryDriver)
        requires
            config.max_attempts >= 1,
        ensures
            d.wf(),
            d.config() == config,
            d.spec_attempt() == 1,
    {
        RetryDriver { config, attempt: 1 }
    }

    /// The number of the current attempt, counted from 1.
    pub fn attempt(&self) -> (n: u32)
        ensures
            n == self.spec_attempt(),
    {
        self.attempt
    }

    /// Records that the current attempt failed, the failure having been
    /// classified already. Another attempt follows only if the failure is
    /// worth retrying and the bound has not been reached.
    pub fn on_failure_classified(&mut self, worth_retrying: bool) -> (step: RetryStep)
        requires
            old(self).wf(),
        ensures
            final(self).wf(),
            final(self).config() == old(self).config(),
            step == retry_step(old(self).config(), old(self).spec_attempt(), worth_retrying),
            step is RetryAfter ==> final(self).spec_attempt() == old(self).spec_attempt() + 1,
            step is GiveUp ==> final(self).spec_attempt() == old(self).spec_attempt(),
    {
        if self.attempt < self.config.max_attempts && worth_retrying {
            let delay = calculate_backoff_delay(self.attempt, &self.config);
            self.attempt = self.attempt + 1;
            RetryStep::RetryAfter(delay)
        } else {
            RetryStep::GiveUp
        }
    }

    /// Records that the current attempt failed with `error`.
    pub fn on_failure(&mut self, error: &AppError) -> (step: RetryStep)
        requires
            old(self).wf(),
        ensures
            final(self).wf(),
            final(self).config() == old(self).config(),
            step == retry_step(
                old(self).config(),
                old(self).spec_attempt(),
                retryable(error.spec_kind(), lowercase_of(error.spec_message())),
            ),
            step is RetryAfter ==> final(self).spec_attempt() == old(self).spec_attempt() + 1,
            step is GiveUp ==> final(self).spec_attempt() == old(self).spec_attempt(),
    {
        let worth = is_retryable_error(error);
        self.on_failure_classified(worth)
    }
}

} // verus!
