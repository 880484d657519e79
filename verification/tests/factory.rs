use fugle_marketdata::factory::WebSocketFactory;
use fugle_marketdata::models::AuthRequest;
use fugle_marketdata::urls::{FUTOPT_WS, STOCK_WS};
use fugle_marketdata::version::FutOptVersion;

#[test]
fn test_default_stock_endpoint() {
    let factory = WebSocketFactory::new().auth(AuthRequest::with_api_key("k"));
    let cfg = factory.stock().unwrap().build();
    assert_eq!(cfg.url, STOCK_WS);
}

#[test]
fn test_default_futopt_endpoint_is_v1_1() {
    let factory = WebSocketFactory::new().auth(AuthRequest::with_api_key("k"));
    let cfg = factory.futopt().unwrap().build();
    assert_eq!(cfg.url, FUTOPT_WS);
    assert!(cfg.url.contains("/v1.1/futopt/streaming"), "{}", cfg.url);
}

#[test]
fn test_futopt_version_can_be_pinned_to_v1_0() {
    let factory = WebSocketFactory::new()
        .futopt_version(FutOptVersion::V1_0)
        .auth(AuthRequest::with_api_key("k"));
    let cfg = factory.futopt().unwrap().build();
    assert_eq!(cfg.url, "wss://api.fugle.tw/marketdata/v1.0/futopt/streaming");
}

#[test]
fn test_futopt_version_does_not_leak_into_stock() {
    let factory = WebSocketFactory::new()
        .futopt_version(FutOptVersion::V1_0)
        .auth(AuthRequest::with_api_key("k"));
    assert_eq!(factory.stock().unwrap().build().url, STOCK_WS);
}

#[test]
fn test_custom_base_url_applied_to_stock() {
    let factory = WebSocketFactory::new()
        .base_url("wss://staging.fugle.tw/marketdata")
        .auth(AuthRequest::with_api_key("k"));
    let cfg = factory.stock().unwrap().build();
    assert_eq!(cfg.url, "wss://staging.fugle.tw/marketdata/v1.0/stock/streaming",);
}

#[test]
fn test_custom_base_url_applied_to_futopt_with_version() {
    let factory = WebSocketFactory::new()
        .base_url("ws://localhost:8080")
        .auth(AuthRequest::with_api_key("k"));
    let cfg = factory.futopt().unwrap().build();
    assert_eq!(cfg.url, "ws://localhost:8080/v1.1/futopt/streaming");

    let pinned = WebSocketFactory::new()
        .base_url("ws://localhost:8080")
        .futopt_version(FutOptVersion::V1_0)
        .auth(AuthRequest::with_api_key("k"));
    assert_eq!(
        pinned.futopt().unwrap().build().url,
        "ws://localhost:8080/v1.0/futopt/streaming"
    );
}

#[test]
fn test_base_url_strips_trailing_slashes() {
    let factory = WebSocketFactory::new()
        .base_url("wss://example.com/marketdata///")
        .auth(AuthRequest::with_api_key("k"));
    let cfg = factory.stock().unwrap().build();
    assert_eq!(cfg.url, "wss://example.com/marketdata/v1.0/stock/streaming",);
}

#[test]
fn test_legacy_0_6_base_url_is_rejected() {
    let factory = WebSocketFactory::new()
        .base_url("wss://staging.fugle.tw/marketdata/v1.0")
        .auth(AuthRequest::with_api_key("k"));

    let msg = match factory.stock() {
        Err(err) => err.message(),
        Ok(_) => panic!("0.6-era base_url must be rejected"),
    };
    assert!(msg.contains("/v1.0"), "names the offending segment: {msg}");
    assert!(
        msg.contains("'wss://staging.fugle.tw/marketdata'"),
        "names the prefix to use instead: {msg}"
    );
    assert!(
        msg.contains("futopt_version"),
        "points at the option that owns the version: {msg}"
    );
}

#[test]
fn test_legacy_base_url_rejected_for_both_products() {
    let factory = WebSocketFactory::new()
        .base_url("wss://example.com/md/v1.1")
        .auth(AuthRequest::with_api_key("k"));
    assert!(factory.stock().is_err());
    assert!(factory.futopt().is_err());
}

#[test]
fn test_factory_yields_independent_builders() {
    let factory = WebSocketFactory::new().auth(AuthRequest::with_api_key("k"));
    let a = factory.stock().unwrap().message_buffer(2048).build();
    let b = factory.stock().unwrap().message_buffer(4096).build();
    assert_eq!(a.message_buffer, 2048);
    assert_eq!(b.message_buffer, 4096);
}

#[test]
fn test_chained_setters_compose_with_factory() {
    let factory = WebSocketFactory::new()
        .base_url("wss://staging.fugle.tw/marketdata")
        .auth(AuthRequest::with_api_key("k"));
    let cfg = factory
        .stock()
        .unwrap()
        .message_buffer(8192)
        .event_buffer(256)
        .build();
    assert_eq!(cfg.url, "wss://staging.fugle.tw/marketdata/v1.0/stock/streaming",);
    assert_eq!(cfg.message_buffer, 8192);
    assert_eq!(cfg.event_buffer, 256);
}

#[test]
fn test_base_url_before_auth_compiles() {
    let _ = WebSocketFactory::new()
        .base_url("ws://example.com")
        .auth(AuthRequest::with_api_key("k"));
}

#[test]
fn factory_passes_credentials_through() {
    let factory = WebSocketFactory::new().auth(AuthRequest::with_sdk_token("tok"));
    let cfg = factory.stock().unwrap().build();
    assert_eq!(cfg.auth, AuthRequest::SdkToken("tok".to_string()));
}

#[test]
fn auth_before_or_after_settings_gives_the_same_endpoints() {
    let first = WebSocketFactory::new()
        .base_url("ws://localhost:8080/")
        .futopt_version(FutOptVersion::V1_0)
        .auth(AuthRequest::with_api_key("k"));
    let second = WebSocketFactory::new()
        .auth(AuthRequest::with_api_key("k"))
        .base_url("ws://localhost:8080/")
        .futopt_version(FutOptVersion::V1_0);
    assert_eq!(first.stock().unwrap().build().url, second.stock().unwrap().build().url);
    assert_eq!(first.futopt().unwrap().build().url, second.futopt().unwrap().build().url);
    assert_eq!(second.futopt().unwrap().build().url, "ws://localhost:8080/v1.0/futopt/streaming");
}
