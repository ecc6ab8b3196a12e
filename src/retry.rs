//! Retries of failed upstream calls with exponential backoff.

use vstd::prelude::*;

use crate::config::RetryConfig;

verus! {

/// Two to the power `e`.
pub open spec fn pow2(e: nat) -> nat
    decreases e,
{
    if e == 0 {
        1
    } else {
        2 * pow2((e - 1) as nat)
    }
}

/// The wait before the retry that follows failed attempt `attempt` (counted from 0): the base
/// delay doubled once per earlier attempt, capped at the maximum delay; in milliseconds.
pub open spec fn backoff_ms(attempt: nat, config: RetryConfig) -> int {
    let d = config.base_delay_ms * pow2(attempt);
    if d <= config.max_delay_ms {
        d
    } else {
        config.max_delay_ms as int
    }
}

/// Attempts for which the doubled delay can be formed: the doubling factor fits 32 bits and
/// the delay, in whole seconds, fits 64 bits.
pub open spec fn backoff_defined(attempt: nat, config: RetryConfig) -> bool {
    attempt < 32 && config.base_delay_ms * pow2(attempt) < (u64::MAX + 1) * 1000
}

/// Wait, in milliseconds, before retrying after failed attempt `attempt`.
pub fn calculate_backoff_delay(attempt: u32, config: &RetryConfig) -> (r: u64)
    requires
        backoff_defined(attempt as nat, *config),
    ensures
        r == backoff_ms(attempt as nat, *config),
{
    let mut factor: u64 = 1;
    let mut k: u32 = 0;
    while k < attempt
        invariant
            k <= attempt < 32,
            factor == pow2(k as nat),
            factor <= 0x8000_0000u64,
        decreases attempt - k,
    {
        proof {
            lemma_pow2_bound(k as nat);
        }
        factor = factor * 2;
        k = k + 1;
    }
    let delay: u128 = (config.base_delay_ms as u128) * (factor as u128);
    if delay <= config.max_delay_ms as u128 {
        delay as u64
    } else {
        config.max_delay_ms
    }
}

proof fn lemma_pow2_monotone(a: nat, b: nat)
    requires
        a <= b,
    ensures
        pow2(a) <= pow2(b),
    decreases b,
{
    if a < b {
        lemma_pow2_monotone(a, (b - 1) as nat);
    }
}

proof fn lemma_pow2_bound(k: nat)
    requires
        k < 31,
    ensures
        pow2(k + 1) <= 0x8000_0000,
        pow2(k + 1) == 2 * pow2(k),
{
    reveal_with_fuel(pow2, 32);
    assert(pow2(31) == 0x8000_0000);
    lemma_pow2_monotone(k + 1, 31);
}

/// What to do after an attempt of a retried call.
#[derive(Debug, Clone, Copy, PartialEq, Eq, Structural)]
pub enum RetryStep {
    /// The attempt succeeded: hand its result back.
    Done,
    /// Wait this many milliseconds, then attempt again.
    RetryAfter(u64),
    /// Stop and report the last failure.
    GiveUp,
}

/// The step that follows an attempt: a success ends the call; a failure is retried after the
/// backoff while retries are enabled and attempts remain, and is reported otherwise.
pub open spec fn next_step(attempt: nat, succeeded: bool, config: RetryConfig) -> RetryStep {
    if succeeded {
        RetryStep::Done
    } else if config.enabled && attempt < config.max_retries {
        RetryStep::RetryAfter(backoff_ms(attempt, config) as u64)
    } else {
        RetryStep::GiveUp
    }
}

/// Decides what follows attempt `attempt` (counted from 0) of a retried call.
pub fn retry_step(attempt: u32, succeeded: bool, config: &RetryConfig) -> (r: RetryStep)
    requires
        !succeeded && config.enabled && attempt < config.max_retries ==> backoff_defined(
            attempt as nat,
            *config,
        ),
    ensures
        r == next_step(attempt as nat, succeeded, *config),
{
    if succeeded {
        RetryStep::Done
    } else if config.enabled && attempt < config.max_retries {
        RetryStep::RetryAfter(calculate_backoff_delay(attempt, config))
    } else {
        RetryStep::GiveUp
    }
}

/// Whether an HTTP status says the caller is being rate limited (429).
pub fn is_rate_limit_response(status: u16) -> (r: bool)
    ensures
        r == (status == 429),
{
    status == 429
}

/// Whether an HTTP status is worth retrying: a server error (5xx), a request timeout (408)
/// or a rate limit (429).
pub fn is_retryable_error(status: u16) -> (r: bool)
    ensures
        r == ((500 <= status && status <= 599) || status == 408 || status == 429),
{
    (500 <= status && status <= 599) || status == 408 || status == 429
}

} // verus!
