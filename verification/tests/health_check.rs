use fugle_marketdata::health_check::HealthCheckConfig;
use std::time::Duration;

#[test]
fn test_default_config() {
    let config = HealthCheckConfig::default();
    assert!(config.enabled, "3.0 default is enabled=true");
    assert_eq!(config.heartbeat_timeout, Duration::from_secs(35));
}

#[test]
fn test_default_config_timeout_is_35s() {
    let config = HealthCheckConfig::default();
    assert_eq!(config.heartbeat_timeout, Duration::from_secs(35));
}

#[test]
fn test_disabled_factory() {
    let config = HealthCheckConfig::disabled();
    assert!(!config.enabled);
    assert_eq!(config.heartbeat_timeout, Duration::from_secs(35));
}

#[test]
fn test_with_timeout_accepts_60s() {
    let config = HealthCheckConfig::with_timeout(Duration::from_secs(60)).unwrap();
    assert!(config.enabled);
    assert_eq!(config.heartbeat_timeout, Duration::from_secs(60));
}

#[test]
fn test_with_timeout_accepts_5s_minimum() {
    let result = HealthCheckConfig::with_timeout(Duration::from_millis(5000));
    assert!(result.is_ok(), "5s is at the floor and must be accepted");
}

#[test]
fn test_with_timeout_rejects_below_5s() {
    let result = HealthCheckConfig::with_timeout(Duration::from_millis(4_999));
    assert!(result.is_err(), "below 5s floor must be rejected");
}

#[test]
fn with_timeout_error_names_the_value() {
    let err = HealthCheckConfig::with_timeout(Duration::from_millis(4_999)).unwrap_err();
    assert_eq!(
        err.message(),
        "Configuration error: heartbeat_timeout must be >= 5000ms (got 4.999s)"
    );
}

#[test]
fn with_timeout_error_shows_the_debug_form() {
    let cases: Vec<(Duration, &str)> = vec![
        (Duration::from_secs(1), "1s"),
        (Duration::from_millis(1_500), "1.5s"),
        (Duration::from_nanos(4_000_000_001), "4.000000001s"),
        (Duration::from_millis(500), "500ms"),
        (Duration::from_micros(1_250), "1.25ms"),
        (Duration::from_nanos(2_500), "2.5\u{b5}s"),
        (Duration::from_nanos(7), "7ns"),
        (Duration::ZERO, "0ns"),
    ];
    for (d, shown) in cases {
        let err = HealthCheckConfig::with_timeout(d).unwrap_err();
        let expected = format!(
            "Configuration error: heartbeat_timeout must be >= 5000ms (got {})",
            shown
        );
        assert_eq!(err.message(), expected);
        assert_eq!(format!("{:?}", d), shown);
    }
}

#[test]
fn effective_timeout_is_none_when_disabled() {
    assert_eq!(HealthCheckConfig::disabled().effective_timeout(), None);
    assert_eq!(
        HealthCheckConfig::default().effective_timeout(),
        Some(Duration::from_secs(35))
    );
}
