//! Reconnection policy: which close codes are retried, and the capped
//! exponential backoff (with a small deterministic jitter) between attempts.

use crate::duration::{
    as_millis, duration_millis, duration_nanos, from_millis, shorter, spans_exactly,
};
use crate::error::MarketDataError;
use crate::text::{decimal, push_decimal};
use std::time::Duration;
use vstd::prelude::*;

verus! {

/// Default maximum number of reconnection attempts.
pub const DEFAULT_MAX_ATTEMPTS: u32 = 5;
/// Default delay before the first reconnection attempt, in milliseconds.
pub const DEFAULT_INITIAL_DELAY_MS: u64 = 1000;
/// Default upper bound on the delay between attempts, in milliseconds.
pub const DEFAULT_MAX_DELAY_MS: u64 = 60000;
/// Smallest accepted initial delay, in milliseconds, to avoid connection storms.
pub const MIN_INITIAL_DELAY_MS: u64 = 100;
/// The exponent of the backoff factor stops growing here (factor 2^10).
pub const MAX_BACKOFF_EXPONENT: u32 = 10;

/// Reconnection configuration.
#[derive(Debug, Clone)]
pub struct ReconnectionConfig {
    /// Maximum reconnection attempts before giving up.
    pub max_attempts: u32,
    /// Delay before the first reconnection attempt.
    pub initial_delay: Duration,
    /// Upper bound on the delay between attempts.
    pub max_delay: Duration,
    /// Whether lost connections are re-established at all (on by default).
    pub enabled: bool,
}

/// Why a reconnection configuration is rejected, if it is.
pub open spec fn config_problem(max_attempts: u32, initial: Duration, max: Duration) -> Option<
    Seq<char>,
> {
    if max_attempts == 0 {
        Some("max_attempts must be >= 1"@)
    } else if duration_nanos(initial) < MIN_INITIAL_DELAY_MS as nat * 1_000_000 {
        Some(initial_delay_message(initial))
    } else if duration_nanos(max) < duration_nanos(initial) {
        Some(max_delay_message(max, initial))
    } else {
        None
    }
}

/// The message rejecting an initial delay below the minimum.
pub open spec fn initial_delay_message(initial: Duration) -> Seq<char> {
    "initial_delay must be >= 100ms (got "@ + decimal(duration_millis(initial)) + "ms)"@
}

/// The message rejecting a maximum delay below the initial delay.
pub open spec fn max_delay_message(max: Duration, initial: Duration) -> Seq<char> {
    "max_delay ("@ + decimal(duration_millis(max)) + "ms) must be >= initial_delay ("@
        + decimal(duration_millis(initial)) + "ms)"@
}

/// The result is the configuration error with exactly this text.
pub open spec fn is_config_error(e: MarketDataError, text: Seq<char>) -> bool {
    match e {
        MarketDataError::ConfigError(m) => m@ == text,
        _ => false,
    }
}

fn max_attempts_error() -> (e: MarketDataError)
    ensures
        is_config_error(e, "max_attempts must be >= 1"@),
{
    MarketDataError::ConfigError(String::from_str("max_attempts must be >= 1"))
}

fn initial_delay_error(initial: &Duration) -> (e: MarketDataError)
    ensures
        is_config_error(e, initial_delay_message(*initial)),
{
    let mut s = String::from_str("initial_delay must be >= 100ms (got ");
    push_decimal(&mut s, as_millis(initial));
    s.append("ms)");
    MarketDataError::ConfigError(s)
}

fn max_delay_error(max: &Duration, initial: &Duration) -> (e: MarketDataError)
    ensures
        is_config_error(e, max_delay_message(*max, *initial)),
{
    let mut s = String::from_str("max_delay (");
    push_decimal(&mut s, as_millis(max));
    s.append("ms) must be >= initial_delay (");
    push_decimal(&mut s, as_millis(initial));
    s.append("ms)");
    MarketDataError::ConfigError(s)
}

fn below_min_initial(initial: &Duration) -> (r: bool)
    ensures
        r == (duration_nanos(*initial) < MIN_INITIAL_DELAY_MS as nat * 1_000_000),
{
    let floor = from_millis(MIN_INITIAL_DELAY_MS);
    shorter(initial, &floor)
}

impl Default for ReconnectionConfig {
    fn default() -> (c: Self)
        ensures
            c.max_attempts == DEFAULT_MAX_ATTEMPTS,
            spans_exactly(c.initial_delay, DEFAULT_INITIAL_DELAY_MS as nat * 1_000_000),
            spans_exactly(c.max_delay, DEFAULT_MAX_DELAY_MS as nat * 1_000_000),
            c.enabled,
    {
        ReconnectionConfig {
            max_attempts: DEFAULT_MAX_ATTEMPTS,
            initial_delay: from_millis(DEFAULT_INITIAL_DELAY_MS),
            max_delay: from_millis(DEFAULT_MAX_DELAY_MS),
            enabled: true,
        }
    }
}

impl ReconnectionConfig {
    /// The default settings with reconnection switched off.
    pub fn disabled() -> (c: Self)
        ensures
            c.max_attempts == DEFAULT_MAX_ATTEMPTS,
            spans_exactly(c.initial_delay, DEFAULT_INITIAL_DELAY_MS as nat * 1_000_000),
            spans_exactly(c.max_delay, DEFAULT_MAX_DELAY_MS as nat * 1_000_000),
            !c.enabled,
    {
        ReconnectionConfig {
            max_attempts: DEFAULT_MAX_ATTEMPTS,
            initial_delay: from_millis(DEFAULT_INITIAL_DELAY_MS),
            max_delay: from_millis(DEFAULT_MAX_DELAY_MS),
            enabled: false,
        }
    }

    /// Builds an enabled configuration, rejecting zero attempts, an initial delay
    /// below 100 ms, and a maximum delay below the initial delay (checked in
    /// that order).
    pub fn new(max_attempts: u32, initial_delay: Duration, max_delay: Duration) -> (r: Result<
        Self,
        MarketDataError,
    >)
        ensures
            match config_problem(max_attempts, initial_delay, max_delay) {
                Some(text) => r is Err && is_config_error(r->Err_0, text),
                None => r is Ok && r->Ok_0.max_attempts == max_attempts
                    && r->Ok_0.initial_delay == initial_delay && r->Ok_0.max_delay == max_delay
                    && r->Ok_0.enabled,
            },
    {
        if max_attempts == 0 {
            return Err(max_attempts_error());
        }
        if below_min_initial(&initial_delay) {
            return Err(initial_delay_error(&initial_delay));
        }
        if shorter(&max_delay, &initial_delay) {
            return Err(max_delay_error(&max_delay, &initial_delay));
        }
        Ok(ReconnectionConfig { max_attempts, initial_delay, max_delay, enabled: true })
    }

    /// Replaces the attempt limit; zero is rejected.
    pub fn with_max_attempts(self, max_attempts: u32) -> (r: Result<Self, MarketDataError>)
        ensures
            max_attempts == 0 ==> r is Err && is_config_error(
                r->Err_0,
                "max_attempts must be >= 1"@,
            ),
            max_attempts != 0 ==> r is Ok && r->Ok_0.max_attempts == max_attempts
                && r->Ok_0.initial_delay == self.initial_delay && r->Ok_0.max_delay
                == self.max_delay && r->Ok_0.enabled == self.enabled,
    {
        if max_attempts == 0 {
            return Err(max_attempts_error());
        }
        let mut c = self;
        c.max_attempts = max_attempts;
        Ok(c)
    }

    /// Replaces the initial delay; a delay below 100 ms is rejected.
    pub fn with_initial_delay(self, initial_delay: Duration) -> (r: Result<Self, MarketDataError>)
        ensures
            duration_nanos(initial_delay) < MIN_INITIAL_DELAY_MS as nat * 1_000_000 ==> r is Err
                && is_config_error(r->Err_0, initial_delay_message(initial_delay)),
            duration_nanos(initial_delay) >= MIN_INITIAL_DELAY_MS as nat * 1_000_000 ==> r is Ok
                && r->Ok_0.max_attempts == self.max_attempts && r->Ok_0.initial_delay
                == initial_delay && r->Ok_0.max_delay == self.max_delay && r->Ok_0.enabled
                == self.enabled,
    {
        if below_min_initial(&initial_delay) {
            return Err(initial_delay_error(&initial_delay));
        }
        let mut c = self;
        c.initial_delay = initial_delay;
        Ok(c)
    }

    /// Replaces the maximum delay; a value below the current initial delay
    /// is rejected.
    pub fn with_max_delay(self, max_delay: Duration) -> (r: Result<Self, MarketDataError>)
        ensures
            duration_nanos(max_delay) < duration_nanos(self.initial_delay) ==> r is Err
                && is_config_error(r->Err_0, max_delay_message(max_delay, self.initial_delay)),
            duration_nanos(max_delay) >= duration_nanos(self.initial_delay) ==> r is Ok
                && r->Ok_0.max_attempts == self.max_attempts && r->Ok_0.initial_delay
                == self.initial_delay && r->Ok_0.max_delay == max_delay && r->Ok_0.enabled
                == self.enabled,
    {
        if shorter(&max_delay, &self.initial_delay) {
            return Err(max_delay_error(&max_delay, &self.initial_delay));
        }
        let mut c = self;
        c.max_delay = max_delay;
        Ok(c)
    }
}

/// Whether a connection closed with `code` should be re-established:
/// normal closure (1000) and application codes 4000..=4999 are final,
/// everything else (including no code at all) is retried.
pub open spec fn spec_should_reconnect(code: Option<u16>) -> bool {
    match code {
        Some(c) => !(c == 1000 || (4000 <= c && c <= 4999)),
        None => true,
    }
}

/// `2^k`.
pub open spec fn two_pow(k: nat) -> nat
    decreases k,
{
    if k == 0 {
        1
    } else {
        2 * two_pow((k - 1) as nat)
    }
}

/// The exponential part of the backoff before the cap, for 1-based `attempt`.
pub open spec fn exponential_millis(initial_ms: nat, attempt: nat) -> nat {
    let e: nat = if attempt - 1 < MAX_BACKOFF_EXPONENT as int {
        (attempt - 1) as nat
    } else {
        MAX_BACKOFF_EXPONENT as nat
    };
    initial_ms * two_pow(e)
}

/// The backoff capped at the maximum delay.
pub open spec fn capped_millis(initial_ms: nat, max_ms: nat, attempt: nat) -> nat {
    let x = exponential_millis(initial_ms, attempt);
    if x <= max_ms {
        x
    } else {
        max_ms
    }
}

/// The jitter percentage applied on `attempt` (0..=15).
pub open spec fn jitter_percent(attempt: nat) -> nat {
    (attempt * 3) % 16
}

/// The delay, in milliseconds, before the 1-based `attempt`.
pub open spec fn backoff_millis(initial_ms: nat, max_ms: nat, attempt: nat) -> nat {
    let c = capped_millis(initial_ms, max_ms, attempt);
    c + c * jitter_percent(attempt) / 100
}

/// Tracks reconnection attempts against a [`ReconnectionConfig`].
pub struct ReconnectionManager {
    config: ReconnectionConfig,
    current_attempt: u32,
}

impl ReconnectionManager {
    /// The attempt counter never passes the configured limit.
    #[verifier::type_invariant]
    spec fn inv(self) -> bool {
        self.current_attempt <= self.config.max_attempts
    }

    /// The configuration the manager was built with.
    pub closed spec fn config(self) -> ReconnectionConfig {
        self.config
    }

    /// Attempts made since construction or the last reset.
    pub closed spec fn attempt(self) -> nat {
        self.current_attempt as nat
    }

    /// Creates a manager with no attempts made.
    pub fn new(config: ReconnectionConfig) -> (m: Self)
        ensures
            m.config() == config,
            m.attempt() == 0,
    {
        ReconnectionManager { config, current_attempt: 0 }
    }

    /// Whether a connection closed with `close_code` should be re-established:
    /// never when reconnection is disabled, otherwise by [`spec_should_reconnect`].
    pub fn should_reconnect(&self, close_code: Option<u16>) -> (r: bool)
        ensures
            r == (self.config().enabled && spec_should_reconnect(close_code)),
    {
        if !self.config.enabled {
            return false;
        }
        match close_code {
            Some(1000) => false,
            Some(1001) => true,
            Some(1006) => true,
            Some(4001) => false,
            Some(code) => !(4000 <= code && code <= 4999),
            None => true,
        }
    }

    /// Takes the next attempt: `None` once the limit is reached, otherwise
    /// the delay to wait, `initial * 2^min(attempt-1, 10)` capped at the
    /// maximum delay plus a jitter of `(3 * attempt) % 16` percent.
    pub fn next_delay(&mut self) -> (d: Option<Duration>)
        requires
            old(self).attempt() < old(self).config().max_attempts ==> (old(self).attempt() + 1) * 3
                <= u32::MAX,
        ensures
            final(self).config() == old(self).config(),
            old(self).attempt() >= old(self).config().max_attempts ==> d is None
                && final(self).attempt() == old(self).attempt(),
            old(self).attempt() < old(self).config().max_attempts ==> {
                &&& final(self).attempt() == old(self).attempt() + 1
                &&& d is Some
                &&& duration_nanos(d->Some_0) == (backoff_millis(
                    duration_millis(old(self).config().initial_delay),
                    duration_millis(old(self).config().max_delay),
                    final(self).attempt(),
                ) as u64) as nat * 1_000_000
            },
    {
        proof {
            use_type_invariant(&*self);
        }
        if self.current_attempt >= self.config.max_attempts {
            return None;
        }
        self.current_attempt = self.current_attempt + 1;
        let attempt = self.current_attempt;
        let initial = as_millis(&self.config.initial_delay);
        let max = as_millis(&self.config.max_delay);
        let e: u32 = if attempt - 1 < MAX_BACKOFF_EXPONENT {
            attempt - 1
        } else {
            MAX_BACKOFF_EXPONENT
        };
        let factor = pow2(e);
        proof {
            lemma_two_pow_bound(e as nat);
            assert(initial * factor <= 18_446_744_073_709_551_615_999 * 1024) by (nonlinear_arith)
                requires
                    initial <= 18_446_744_073_709_551_615_999,
                    factor <= 1024,
            ;
        }
        let exponential = initial * factor;
        let capped = if exponential <= max {
            exponential
        } else {
            max
        };
        let jitter_percent = (attempt * 3) % 16;
        proof {
            assert(capped * jitter_percent <= 18_446_744_073_709_551_615_999 * 1024 * 16)
                by (nonlinear_arith)
                requires
                    capped <= 18_446_744_073_709_551_615_999 * 1024,
                    jitter_percent < 16,
            ;
        }
        let jitter = (capped * jitter_percent as u128) / 100;
        let final_millis = capped.saturating_add(jitter);
        Some(from_millis(final_millis as u64))
    }

    /// Forgets all attempts made so far.
    pub fn reset(&mut self)
        ensures
            final(self).config() == old(self).config(),
            final(self).attempt() == 0,
    {
        self.current_attempt = 0;
    }

    /// Attempts still available before giving up.
    pub fn attempts_remaining(&self) -> (n: u32)
        ensures
            n == self.config().max_attempts - self.attempt(),
    {
        proof {
            use_type_invariant(self);
        }
        self.config.max_attempts.saturating_sub(self.current_attempt)
    }

    /// The configured attempt limit.
    pub fn attempt_limit(&self) -> (n: u32)
        ensures
            n == self.config().max_attempts,
    {
        self.config.max_attempts
    }

    /// Attempts made since construction or the last reset.
    pub fn current_attempt(&self) -> (n: u32)
        ensures
            n == self.attempt(),
            n <= self.config().max_attempts,
    {
        proof {
            use_type_invariant(self);
        }
        self.current_attempt
    }
}

proof fn lemma_two_pow_monotone(k: nat, n: nat)
    requires
        k <= n,
    ensures
        1 <= two_pow(k) <= two_pow(n),
    decreases n,
{
    if n > k {
        lemma_two_pow_monotone(k, (n - 1) as nat);
    } else if k > 0 {
        lemma_two_pow_monotone((k - 1) as nat, (k - 1) as nat);
    }
}

proof fn lemma_two_pow_bound(k: nat)
    requires
        k <= 10,
    ensures
        two_pow(k) <= 1024,
        two_pow(k) >= 1,
{
    reveal_with_fuel(two_pow, 11);
    assert(two_pow(10) == 1024);
    lemma_two_pow_monotone(k, 10);
}

fn pow2(k: u32) -> (p: u128)
    requires
        k <= MAX_BACKOFF_EXPONENT,
    ensures
        p == two_pow(k as nat),
{
    let mut p: u128 = 1;
    let mut i: u32 = 0;
    while i < k
        invariant
            i <= k,
            k <= 10,
            p == two_pow(i as nat),
        decreases k - i,
    {
        proof {
            lemma_two_pow_bound(i as nat);
        }
        p = p * 2;
        i = i + 1;
    }
    p
}

/// Law: the delay before any attempt never exceeds the configured maximum
/// by more than the 15% jitter, and is never below the capped backoff.
pub proof fn law_delay_bounded_by_max_plus_jitter(initial_ms: nat, max_ms: nat, attempt: nat)
    requires
        attempt >= 1,
    ensures
        capped_millis(initial_ms, max_ms, attempt) <= backoff_millis(initial_ms, max_ms, attempt),
        backoff_millis(initial_ms, max_ms, attempt) <= max_ms + max_ms * 15 / 100,
{
    let c = capped_millis(initial_ms, max_ms, attempt);
    let j = jitter_percent(attempt);
    assert(j <= 15);
    assert(c * j <= max_ms * 15) by (nonlinear_arith)
        requires
            c <= max_ms,
            j <= 15,
    ;
    assert(c * j / 100 <= max_ms * 15 / 100) by (nonlinear_arith)
        requires
            c * j <= max_ms * 15,
    ;
}

/// Law: before jitter, the backoff never shrinks from one attempt to a
/// later one.
pub proof fn law_capped_backoff_monotone(initial_ms: nat, max_ms: nat, a: nat, b: nat)
    requires
        1 <= a <= b,
    ensures
        capped_millis(initial_ms, max_ms, a) <= capped_millis(initial_ms, max_ms, b),
{
    let ea: nat = if a - 1 < 10 { (a - 1) as nat } else { 10 };
    let eb: nat = if b - 1 < 10 { (b - 1) as nat } else { 10 };
    lemma_two_pow_monotone(ea, eb);
    assert(initial_ms * two_pow(ea) <= initial_ms * two_pow(eb)) by (nonlinear_arith)
        requires
            two_pow(ea) <= two_pow(eb),
    ;
}

/// Law: when the initial delay does not exceed the maximum, the first
/// attempt waits at least the initial delay, and no attempt waits less.
pub proof fn law_backoff_at_least_initial(initial_ms: nat, max_ms: nat, attempt: nat)
    requires
        attempt >= 1,
        initial_ms <= max_ms,
    ensures
        initial_ms <= backoff_millis(initial_ms, max_ms, attempt),
{
    law_capped_backoff_monotone(initial_ms, max_ms, 1, attempt);
    law_delay_bounded_by_max_plus_jitter(initial_ms, max_ms, attempt);
    assert(two_pow(0) == 1);
    assert(initial_ms * two_pow(0) == initial_ms);
    assert(exponential_millis(initial_ms, 1) == initial_ms * two_pow(0));
    assert(capped_millis(initial_ms, max_ms, 1) == initial_ms);
}

} // verus!
