use fugle_marketdata::error::{error_to_code, MarketDataError, ERROR_RATE_LIMITED, ERROR_API_ERROR, ERROR_CONNECTION_FAILED, ERROR_INVALID_ARG};

#[test]
fn coded_messages() {
    let e = MarketDataError::InvalidSymbol { symbol: "TEST".to_string() };
    assert_eq!(e.coded_message(), "[1001] Invalid symbol: TEST");
    let e = MarketDataError::ConfigError("missing required field".to_string());
    assert!(e.coded_message().contains("[1004]"));
    assert!(e.coded_message().contains("missing required field"));
    let e = MarketDataError::AuthError { msg: "invalid token".to_string() };
    assert!(e.coded_message().starts_with("[2002] "));
    let e = MarketDataError::ApiError { status: 404, message: "not found".to_string() };
    let m = e.coded_message();
    assert!(m.contains("[2003]") && m.contains("status 404") && m.contains("not found"));
    let e = MarketDataError::ConnectionError { msg: "connection refused".to_string() };
    assert_eq!(e.coded_message(), "[2001] Connection error: connection refused");
    let e = MarketDataError::TimeoutError { operation: "quote request".to_string() };
    assert!(e.coded_message().contains("[3001]") && e.coded_message().contains("quote request"));
}

#[test]
fn foreign_codes() {
    assert_eq!(error_to_code(&MarketDataError::ApiError { status: 429, message: String::new() }), ERROR_RATE_LIMITED);
    assert_eq!(error_to_code(&MarketDataError::ApiError { status: 500, message: String::new() }), ERROR_API_ERROR);
    assert_eq!(error_to_code(&MarketDataError::ClientClosed), ERROR_CONNECTION_FAILED);
    assert_eq!(error_to_code(&MarketDataError::ConfigError("x".into())), ERROR_INVALID_ARG);
}
