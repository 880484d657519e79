use fugle_marketdata::reconnection::{
    ReconnectionConfig, ReconnectionManager, DEFAULT_INITIAL_DELAY_MS, DEFAULT_MAX_DELAY_MS,
};
use std::time::Duration;

#[test]
fn test_reconnection_config_default() {
    let config = ReconnectionConfig::default();
    assert_eq!(config.max_attempts, 5);
    assert_eq!(config.initial_delay, Duration::from_secs(1));
    assert_eq!(config.max_delay, Duration::from_secs(60));
}

#[test]
fn test_reconnection_config_builder() {
    let config = ReconnectionConfig::default()
        .with_max_attempts(10)
        .unwrap()
        .with_initial_delay(Duration::from_secs(2))
        .unwrap()
        .with_max_delay(Duration::from_secs(120))
        .unwrap();

    assert_eq!(config.max_attempts, 10);
    assert_eq!(config.initial_delay, Duration::from_secs(2));
    assert_eq!(config.max_delay, Duration::from_secs(120));
}

#[test]
fn test_should_reconnect_on_1006() {
    let manager = ReconnectionManager::new(ReconnectionConfig::default());
    assert!(manager.should_reconnect(Some(1006)));
}

#[test]
fn test_should_reconnect_on_1001() {
    let manager = ReconnectionManager::new(ReconnectionConfig::default());
    assert!(manager.should_reconnect(Some(1001)));
}

#[test]
fn test_should_not_reconnect_on_4001() {
    let manager = ReconnectionManager::new(ReconnectionConfig::default());
    assert!(!manager.should_reconnect(Some(4001)));
}

#[test]
fn test_should_not_reconnect_on_1000() {
    let manager = ReconnectionManager::new(ReconnectionConfig::default());
    assert!(!manager.should_reconnect(Some(1000)));
}

#[test]
fn test_should_not_reconnect_on_4xxx() {
    let manager = ReconnectionManager::new(ReconnectionConfig::default());
    assert!(!manager.should_reconnect(Some(4000)));
    assert!(!manager.should_reconnect(Some(4500)));
    assert!(!manager.should_reconnect(Some(4999)));
}

#[test]
fn test_should_reconnect_on_unknown() {
    let manager = ReconnectionManager::new(ReconnectionConfig::default());
    assert!(manager.should_reconnect(Some(1002)));
    assert!(manager.should_reconnect(Some(1003)));
    assert!(manager.should_reconnect(None));
}

#[test]
fn test_exponential_backoff_delays() {
    let mut manager = ReconnectionManager::new(ReconnectionConfig::default());

    let delay1 = manager.next_delay();
    assert!(delay1.is_some());
    assert_eq!(manager.current_attempt(), 1);

    let delay2 = manager.next_delay();
    assert!(delay2.is_some());
    assert_eq!(manager.current_attempt(), 2);

    let _ = manager.next_delay();
    let _ = manager.next_delay();
    let _ = manager.next_delay();

    let delay_final = manager.next_delay();
    assert!(delay_final.is_none());
}

#[test]
fn test_reset_clears_attempts() {
    let mut manager = ReconnectionManager::new(ReconnectionConfig::default());

    let _ = manager.next_delay();
    let _ = manager.next_delay();
    assert_eq!(manager.current_attempt(), 2);

    manager.reset();
    assert_eq!(manager.current_attempt(), 0);
    assert_eq!(manager.attempts_remaining(), 5);

    let delay = manager.next_delay();
    assert!(delay.is_some());
}

#[test]
fn test_max_attempts_reached() {
    let config = ReconnectionConfig::default().with_max_attempts(3).unwrap();
    let mut manager = ReconnectionManager::new(config);

    assert!(manager.next_delay().is_some());
    assert!(manager.next_delay().is_some());
    assert!(manager.next_delay().is_some());

    assert!(manager.next_delay().is_none());
    assert_eq!(manager.attempts_remaining(), 0);
}

#[test]
fn test_attempts_remaining() {
    let config = ReconnectionConfig::default().with_max_attempts(5).unwrap();
    let mut manager = ReconnectionManager::new(config);

    assert_eq!(manager.attempts_remaining(), 5);

    let _ = manager.next_delay();
    assert_eq!(manager.attempts_remaining(), 4);

    let _ = manager.next_delay();
    assert_eq!(manager.attempts_remaining(), 3);
}

#[test]
fn test_reconnection_config_default_uses_constants() {
    let config = ReconnectionConfig::default();
    assert_eq!(config.max_attempts, fugle_marketdata::reconnection::DEFAULT_MAX_ATTEMPTS);
    assert_eq!(config.initial_delay, Duration::from_millis(DEFAULT_INITIAL_DELAY_MS));
    assert_eq!(config.max_delay, Duration::from_millis(DEFAULT_MAX_DELAY_MS));
}

#[test]
fn test_new_rejects_zero_max_attempts() {
    let result = ReconnectionConfig::new(0, Duration::from_secs(1), Duration::from_secs(60));
    assert!(result.is_err());
    let err = result.unwrap_err().message();
    assert!(err.contains("max_attempts"), "Error should mention field name: {}", err);
    assert!(
        err.contains(">= 1") || err.contains("must be"),
        "Error should mention constraint: {}",
        err
    );
}

#[test]
fn test_new_rejects_too_small_initial_delay() {
    let result = ReconnectionConfig::new(5, Duration::from_millis(50), Duration::from_secs(60));
    assert!(result.is_err());
    let err = result.unwrap_err().message();
    assert!(err.contains("initial_delay"), "Error should mention field name: {}", err);
    assert!(
        err.contains("100ms") || err.contains("50ms"),
        "Error should show values: {}",
        err
    );
}

#[test]
fn test_new_rejects_max_delay_less_than_initial() {
    let result = ReconnectionConfig::new(5, Duration::from_secs(10), Duration::from_secs(5));
    assert!(result.is_err());
    let err = result.unwrap_err().message();
    assert!(err.contains("max_delay"), "Error should mention field name: {}", err);
    assert!(
        err.contains("initial_delay"),
        "Error should mention constraint relationship: {}",
        err
    );
}

#[test]
fn test_new_accepts_valid_config() {
    let result = ReconnectionConfig::new(3, Duration::from_millis(500), Duration::from_secs(30));
    assert!(result.is_ok());
    let config = result.unwrap();
    assert_eq!(config.max_attempts, 3);
    assert_eq!(config.initial_delay, Duration::from_millis(500));
    assert_eq!(config.max_delay, Duration::from_secs(30));
}

#[test]
fn test_builder_rejects_zero_max_attempts() {
    let result = ReconnectionConfig::default().with_max_attempts(0);
    assert!(result.is_err());
}

#[test]
fn test_builder_rejects_too_small_initial_delay() {
    let result = ReconnectionConfig::default().with_initial_delay(Duration::from_millis(50));
    assert!(result.is_err());
}

#[test]
fn test_builder_rejects_max_delay_less_than_initial() {
    let config = ReconnectionConfig::default()
        .with_initial_delay(Duration::from_secs(30))
        .unwrap();
    let result = config.with_max_delay(Duration::from_secs(10));
    assert!(result.is_err());
}

#[test]
fn backoff_delays_follow_the_formula() {
    // initial 1 s, cap 60 s: attempt n waits min(1 s * 2^(n-1), 60 s) plus
    // (3n mod 16)% jitter.
    let mut manager = ReconnectionManager::new(ReconnectionConfig::default());
    let expected = [1030u64, 2120, 4360, 8960, 18400];
    for ms in expected {
        assert_eq!(manager.next_delay(), Some(Duration::from_millis(ms)));
    }
    assert_eq!(manager.next_delay(), None);
}

#[test]
fn backoff_delay_is_capped_by_max_delay() {
    let config = ReconnectionConfig::new(8, Duration::from_secs(10), Duration::from_secs(30)).unwrap();
    let mut manager = ReconnectionManager::new(config);
    let delays: Vec<Duration> = (0..8).map(|_| manager.next_delay().unwrap()).collect();
    // Attempt 3: min(40 s, 30 s) = 30 s, jitter 9% -> 32.7 s.
    assert_eq!(delays[2], Duration::from_millis(32_700));
    // Attempt 6: 30 s capped, jitter (18 mod 16) = 2% -> 30.6 s.
    assert_eq!(delays[5], Duration::from_millis(30_600));
}

#[test]
fn rust_core_default_is_enabled() {
    let config = ReconnectionConfig::default();
    assert!(config.enabled);
}

#[test]
fn explicit_disabled_constructor_still_works() {
    let config = ReconnectionConfig::disabled();
    assert!(!config.enabled);
}

#[test]
fn default_max_attempts_unchanged() {
    let config = ReconnectionConfig::default();
    assert_eq!(config.max_attempts, 5);
}

#[test]
fn rust_core_default_stays_enabled() {
    assert!(ReconnectionConfig::default().enabled);
}

#[test]
fn disabled_constructor_yields_enabled_false() {
    let cfg = ReconnectionConfig::disabled();
    assert!(!cfg.enabled);
}

#[test]
fn disabled_policy_never_reconnects() {
    let manager = ReconnectionManager::new(ReconnectionConfig::disabled());
    assert!(!manager.should_reconnect(Some(1006)));
    assert!(!manager.should_reconnect(None));
    let enabled = ReconnectionConfig::new(3, Duration::from_millis(500), Duration::from_secs(30)).unwrap();
    assert!(enabled.enabled);
    assert!(enabled.with_max_attempts(4).unwrap().enabled);
}
