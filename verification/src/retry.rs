//! The retry policy for fetching a source: how many attempts, how long
//! to wait before retrying, how long one attempt may take, and which
//! failures are worth another attempt.

use vstd::prelude::*;

use crate::provider::ProviderError;

verus! {

/// What `Duration::from_secs` makes of a number of seconds.
pub uninterp spec fn secs_duration(secs: u64) -> core::time::Duration;

/// What `Duration::as_millis` gives for `d`: its whole milliseconds.
pub uninterp spec fn duration_millis(d: core::time::Duration) -> u128;

/// `std::time::Duration::from_secs`: the span of `secs` whole seconds,
/// which is `secs * 1000` whole milliseconds.
#[verifier::external_body]
fn duration_from_secs(secs: u64) -> (r: core::time::Duration)
    ensures
        r == secs_duration(secs),
        duration_millis(r) == secs as int * 1000,
{
    core::time::Duration::from_secs(secs)
}

/// `std::time::Duration::from_millis`: the span of `ms` milliseconds,
/// whose whole milliseconds are `ms` again.
#[verifier::external_body]
fn duration_from_millis(ms: u64) -> (r: core::time::Duration)
    ensures
        duration_millis(r) == ms,
{
    core::time::Duration::from_millis(ms)
}

/// `std::time::Duration::as_millis`: the whole milliseconds of `d`.
#[verifier::external_body]
fn duration_as_millis(d: &core::time::Duration) -> (r: u128)
    ensures
        r == duration_millis(*d),
{
    d.as_millis()
}

/// The longest wait, in milliseconds, that a `Duration` made from
/// milliseconds can hold here.
pub open spec fn max_wait_ms() -> nat {
    u64::MAX as nat
}

/// `a` or `b`, whichever is smaller.
pub open spec fn nat_min(a: nat, b: nat) -> nat {
    if a <= b {
        a
    } else {
        b
    }
}

/// The wait before retry number `retry` (0 for the first) before jitter:
/// the initial backoff doubled once per earlier retry.
pub open spec fn nominal_wait_ms(initial_ms: nat, retry: nat) -> nat
    decreases retry,
{
    if retry == 0 {
        initial_ms
    } else {
        2 * nominal_wait_ms(initial_ms, (retry - 1) as nat)
    }
}

/// The jitter factor, in thousandths, that a random draw picks:
/// somewhere from 800 to 1200, that is within 20% either way.
pub open spec fn jitter_permille(draw: u32) -> nat {
    (800 + draw % 401) as nat
}

/// The wait, in milliseconds, before retry number `retry`: the nominal
/// wait (at most `max_wait_ms`) scaled by the jitter factor, rounded
/// down, and again at most `max_wait_ms`.
pub open spec fn retry_wait_ms(initial_ms: nat, retry: nat, draw: u32) -> nat {
    nat_min(
        nat_min(nominal_wait_ms(initial_ms, retry), max_wait_ms()) * jitter_permille(draw) / 1000,
        max_wait_ms(),
    )
}

proof fn lemma_min_double(x: nat, c: nat)
    ensures
        nat_min(2 * nat_min(x, c), c) == nat_min(2 * x, c),
{
}

proof fn lemma_jitter_bounds(n: nat, p: nat)
    requires
        800 <= p <= 1200,
    ensures
        n * 800 <= (n * p / 1000) * 1000 + 999,
        (n * p / 1000) * 1000 <= n * 1200,
{
    assert(n * 800 <= n * p) by (nonlinear_arith)
        requires
            800 <= p,
    ;
    assert(n * p <= n * 1200) by (nonlinear_arith)
        requires
            p <= 1200,
    ;
    let x = (n * p) as int;
    vstd::arithmetic::div_mod::lemma_fundamental_div_mod(x, 1000);
    assert(0 <= x % 1000 < 1000);
}

/// Retry parameters.
#[derive(Debug, Clone, Copy)]
pub struct RetryConfig {
    /// Total attempts, the first included.
    pub max_attempts: usize,
    /// The wait before the second attempt; it doubles before each further
    /// one, and each wait is then moved by up to 20% either way at random
    /// (see `retry_delay`).
    pub initial_backoff: core::time::Duration,
    /// How long one attempt may run.
    pub per_attempt_timeout: core::time::Duration,
}

impl RetryConfig {
    /// The policy in use: 3 attempts, 2 s initial backoff, 15 s per
    /// attempt.
    pub fn spec_default() -> (r: Self)
        ensures
            r.max_attempts == 3,
            r.initial_backoff == secs_duration(2),
            duration_millis(r.initial_backoff) == 2000,
            r.per_attempt_timeout == secs_duration(15),
    {
        RetryConfig {
            max_attempts: 3,
            initial_backoff: duration_from_secs(2),
            per_attempt_timeout: duration_from_secs(15),
        }
    }

    /// How many retries follow a failed first attempt (none when the
    /// policy allows no attempt at all).
    pub fn retries(&self) -> (r: usize)
        ensures
            r == if self.max_attempts == 0 {
                0
            } else {
                self.max_attempts - 1
            },
    {
        self.max_attempts.saturating_sub(1)
    }
}

/// How an attempt failed.
#[derive(Debug)]
pub enum RetryableError<E> {
    /// The attempt ran out of time. Always retried.
    Timeout,
    /// The operation itself failed.
    Operation(E),
}

/// Whether a failure is worth another attempt.
pub open spec fn should_retry_spec(err: &RetryableError<ProviderError>) -> bool {
    match err {
        RetryableError::Timeout => true,
        RetryableError::Operation(e) => e is Transient,
    }
}

/// Whether a failed fetch attempt is tried again: a timeout always is,
/// a provider failure only when it is transient.
pub fn should_retry(err: &RetryableError<ProviderError>) -> (r: bool)
    ensures
        r == match err {
            RetryableError::Timeout => true,
            RetryableError::Operation(e) => e is Transient,
        },
{
    match err {
        RetryableError::Timeout => true,
        RetryableError::Operation(e) => e.is_transient(),
    }
}

/// What to do after an attempt failed.
#[derive(Debug, Clone, Copy, PartialEq, Eq)]
pub enum RetryStep {
    /// Wait (see `retry_delay`), then make the next attempt.
    Retry,
    /// Stop and report this failure.
    GiveUp,
}

/// What follows the failure `err` of attempt number `attempt` (0 for the
/// first): another attempt when the failure is worth retrying and the
/// policy allows one more attempt, else giving up.
pub fn retry_step(config: &RetryConfig, attempt: usize, err: &RetryableError<ProviderError>) -> (r:
    RetryStep)
    ensures
        r == (if should_retry_spec(err) && attempt + 1 < config.max_attempts {
            RetryStep::Retry
        } else {
            RetryStep::GiveUp
        }),
{
    if should_retry(err) && attempt < config.retries() {
        RetryStep::Retry
    } else {
        RetryStep::GiveUp
    }
}

/// The wait before retry number `retry` (0 for the first retry, after
/// the first attempt failed): the initial backoff, doubled once per
/// earlier retry, times a jitter factor between 0.8 and 1.2 that
/// `jitter_draw` picks. With the policy in use that is 2 s, then 4 s,
/// each within 20% either way.
pub fn retry_delay(config: &RetryConfig, retry: usize, jitter_draw: u32) -> (r:
    core::time::Duration)
    ensures
        duration_millis(r) == retry_wait_ms(
            duration_millis(config.initial_backoff) as nat,
            retry as nat,
            jitter_draw,
        ),
        ({
            let n = nominal_wait_ms(duration_millis(config.initial_backoff) as nat, retry as nat);
            n * 1200 <= max_wait_ms() * 1000 ==> {
                &&& n * 800 <= duration_millis(r) * 1000 + 999
                &&& duration_millis(r) * 1000 <= n * 1200
            }
        }),
{
    let cap: u128 = 0xffff_ffff_ffff_ffffu128;
    let initial = duration_as_millis(&config.initial_backoff);
    let ghost init: nat = initial as nat;
    let mut n: u128 = if initial <= cap {
        initial
    } else {
        cap
    };
    let mut i: usize = 0;
    while i < retry
        invariant
            i <= retry,
            n as nat == nat_min(nominal_wait_ms(init, i as nat), max_wait_ms()),
            cap == max_wait_ms(),
        decreases retry - i,
    {
        proof {
            lemma_min_double(nominal_wait_ms(init, i as nat), max_wait_ms());
        }
        n = if n <= cap / 2 {
            2 * n
        } else {
            cap
        };
        i = i + 1;
    }
    let permille: u128 = 800 + (jitter_draw % 401) as u128;
    assert(n * permille <= 0xffff_ffff_ffff_ffffu128 * 1200) by (nonlinear_arith)
        requires
            n <= 0xffff_ffff_ffff_ffffu128,
            permille <= 1200,
    ;
    let scaled: u128 = n * permille / 1000;
    let ms: u128 = if scaled <= cap {
        scaled
    } else {
        cap
    };
    proof {
        let nom = nominal_wait_ms(init, retry as nat);
        lemma_jitter_bounds(n as nat, permille as nat);
        if nom * 1200 <= max_wait_ms() * 1000 {
            assert(nom <= max_wait_ms());
            assert(n as nat == nom);
            assert(scaled <= cap);
        }
    }
    duration_from_millis(ms as u64)
}

} // verus!
