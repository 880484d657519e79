//! Liveness detection settings: a single window within which some inbound
//! frame must arrive before the connection is declared dead.

use crate::duration::{
    duration_debug, duration_nanos, from_millis, push_duration_debug, shorter, spans_exactly,
};
use crate::error::MarketDataError;
use crate::reconnection::is_config_error;
use std::time::Duration;
use vstd::prelude::*;

verus! {

/// Liveness detection is on unless explicitly disabled.
pub const DEFAULT_HEALTH_CHECK_ENABLED: bool = true;
/// Default window: the server's 30 s heartbeat plus 5 s of slack.
pub const DEFAULT_HEARTBEAT_TIMEOUT_MS: u64 = 35_000;
/// Smallest window accepted by [`HealthCheckConfig::with_timeout`].
pub const MIN_HEARTBEAT_TIMEOUT_MS: u64 = 5_000;

/// Configuration for connection liveness detection.
#[derive(Debug, Clone)]
pub struct HealthCheckConfig {
    /// Whether liveness detection is active.
    pub enabled: bool,
    /// Longest allowed gap between inbound frames.
    pub heartbeat_timeout: Duration,
}

/// The message rejecting a window below the floor; the window is shown in
/// `Duration`'s `Debug` form (`4.999s`, `500ms`).
pub open spec fn heartbeat_floor_message(timeout: Duration) -> Seq<char> {
    "heartbeat_timeout must be >= 5000ms (got "@ + duration_debug(timeout) + ")"@
}

impl Default for HealthCheckConfig {
    fn default() -> (c: Self)
        ensures
            c.enabled == DEFAULT_HEALTH_CHECK_ENABLED,
            spans_exactly(c.heartbeat_timeout, DEFAULT_HEARTBEAT_TIMEOUT_MS as nat * 1_000_000),
    {
        HealthCheckConfig {
            enabled: DEFAULT_HEALTH_CHECK_ENABLED,
            heartbeat_timeout: from_millis(DEFAULT_HEARTBEAT_TIMEOUT_MS),
        }
    }
}

impl HealthCheckConfig {
    /// An enabled configuration with the given window; a window below
    /// 5 s is rejected.
    pub fn with_timeout(timeout: Duration) -> (r: Result<Self, MarketDataError>)
        ensures
            duration_nanos(timeout) < MIN_HEARTBEAT_TIMEOUT_MS as nat * 1_000_000 ==> r is Err
                && is_config_error(r->Err_0, heartbeat_floor_message(timeout)),
            duration_nanos(timeout) >= MIN_HEARTBEAT_TIMEOUT_MS as nat * 1_000_000 ==> r is Ok
                && r->Ok_0.enabled && r->Ok_0.heartbeat_timeout == timeout,
    {
        let floor = from_millis(MIN_HEARTBEAT_TIMEOUT_MS);
        if shorter(&timeout, &floor) {
            let mut s = String::from_str("heartbeat_timeout must be >= 5000ms (got ");
            push_duration_debug(&mut s, &timeout);
            s.append(")");
            return Err(MarketDataError::ConfigError(s));
        }
        Ok(HealthCheckConfig { enabled: true, heartbeat_timeout: timeout })
    }

    /// A disabled configuration; the window keeps its default value.
    pub fn disabled() -> (c: Self)
        ensures
            !c.enabled,
            spans_exactly(c.heartbeat_timeout, DEFAULT_HEARTBEAT_TIMEOUT_MS as nat * 1_000_000),
    {
        HealthCheckConfig {
            enabled: false,
            heartbeat_timeout: from_millis(DEFAULT_HEARTBEAT_TIMEOUT_MS),
        }
    }

    /// The liveness window to enforce, or `None` when detection is off.
    pub fn effective_timeout(&self) -> (t: Option<Duration>)
        ensures
            t == (if self.enabled {
                Some(self.heartbeat_timeout)
            } else {
                None
            }),
    {
        if self.enabled {
            Some(self.heartbeat_timeout)
        } else {
            None
        }
    }
}

} // verus!
