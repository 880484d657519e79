use fugle_marketdata::config::{is_sensitive_query_key, redact_query_pairs, redact_url_query, ConnectionConfig, CLIENT_ID_MAX_LEN, DEFAULT_EVENT_BUFFER, DEFAULT_MESSAGE_BUFFER};
use fugle_marketdata::models::AuthRequest;
use std::time::Duration;

#[test]
fn test_connection_config_new() {
    let auth = AuthRequest::with_api_key("test-key");
    let config = ConnectionConfig::new("wss://example.com", auth);

    assert_eq!(config.url, "wss://example.com");
    assert_eq!(config.connect_timeout, Duration::from_secs(30));
    assert_eq!(config.read_timeout, Duration::from_secs(30));
}

#[test]
fn test_connection_config_builder() {
    let auth = AuthRequest::with_api_key("test-key");
    let config = ConnectionConfig::builder("wss://example.com", auth)
        .connect_timeout(Duration::from_secs(10))
        .read_timeout(Duration::from_secs(20))
        .build();

    assert_eq!(config.url, "wss://example.com");
    assert_eq!(config.connect_timeout, Duration::from_secs(10));
    assert_eq!(config.read_timeout, Duration::from_secs(20));
}

#[test]
fn test_fugle_stock_config() {
    let auth = AuthRequest::with_api_key("test-key");
    let config = ConnectionConfig::fugle_stock(auth);

    assert_eq!(config.url, "wss://api.fugle.tw/marketdata/v1.0/stock/streaming");
}

#[test]
fn test_fugle_futopt_config() {
    let auth = AuthRequest::with_api_key("test-key");
    let config = ConnectionConfig::fugle_futopt(auth);

    assert_eq!(config.url, "wss://api.fugle.tw/marketdata/v1.1/futopt/streaming");
}

#[test]
fn config_defaults_buffers_and_no_client_id() {
    let config = ConnectionConfig::new("wss://example.com", AuthRequest::with_api_key("k"));
    assert_eq!(config.message_buffer, DEFAULT_MESSAGE_BUFFER);
    assert_eq!(config.event_buffer, DEFAULT_EVENT_BUFFER);
    assert_eq!(config.client_id(), None);
}

#[test]
fn client_id_is_truncated_at_the_limit() {
    let long = "x".repeat(CLIENT_ID_MAX_LEN + 10);
    let config = ConnectionConfig::builder("wss://example.com", AuthRequest::with_api_key("k"))
        .client_id(long.as_str())
        .build();
    assert_eq!(config.client_id().map(|s| s.len()), Some(CLIENT_ID_MAX_LEN));

    let kept = ConnectionConfig::builder("wss://example.com", AuthRequest::with_api_key("k"))
        .maybe_client_id(Some("svc-a"))
        .build();
    assert_eq!(kept.client_id(), Some("svc-a"));

    let none = ConnectionConfig::builder("wss://example.com", AuthRequest::with_api_key("k"))
        .maybe_client_id(None::<&str>)
        .build();
    assert_eq!(none.client_id(), None);
}

#[test]
fn client_id_truncation_keeps_whole_characters() {
    // 63 ASCII bytes then a 3-byte character: the character does not fit.
    let mut id = "a".repeat(63);
    id.push('台');
    let config = ConnectionConfig::builder("wss://example.com", AuthRequest::with_api_key("k"))
        .client_id(id.as_str())
        .build();
    assert_eq!(config.client_id(), Some("a".repeat(63).as_str()));
}

#[test]
fn secret_query_values_are_masked() {
    assert!(is_sensitive_query_key("token"));
    assert!(is_sensitive_query_key("API_KEY"));
    assert!(is_sensitive_query_key("Password"));
    assert!(!is_sensitive_query_key("tokens"));
    assert!(!is_sensitive_query_key("v"));
    let pairs = vec![
        ("token".to_string(), "secret".to_string()),
        ("v".to_string(), "1".to_string()),
        ("Secret".to_string(), "BBB".to_string()),
    ];
    assert_eq!(
        redact_query_pairs(&pairs),
        vec![
            ("token".to_string(), "***".to_string()),
            ("v".to_string(), "1".to_string()),
            ("Secret".to_string(), "***".to_string()),
        ]
    );
}

#[test]
fn test_debug_redacts_url_query_token() {
    let rendered = redact_url_query("wss://example.com/stream?token=secret&v=1");

    assert!(rendered.contains("token=***"));
    assert!(rendered.contains("v=1"));
    assert!(!rendered.contains("token=secret"));
}

#[test]
fn test_debug_redacts_multiple_sensitive_keys() {
    let rendered = redact_url_query("wss://example.com/stream?api_key=AAA&secret=BBB&safe=CCC");

    assert!(rendered.contains("api_key=***"));
    assert!(rendered.contains("secret=***"));
    assert!(rendered.contains("safe=CCC"));
    assert!(!rendered.contains("AAA"));
    assert!(!rendered.contains("BBB"));
}

#[test]
fn test_debug_handles_unparseable_url() {
    let rendered = redact_url_query("not a real url");
    assert!(rendered.contains("not a real url"));
}

#[test]
fn redaction_keeps_urls_without_secrets() {
    assert_eq!(redact_url_query("not a real url"), "not a real url");
    assert_eq!(redact_url_query("wss://example.com"), "wss://example.com/");
    assert_eq!(
        redact_url_query("wss://example.com/s?Token=x&v=1#frag"),
        "wss://example.com/s?Token=***&v=1#frag"
    );
}
