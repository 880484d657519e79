use fugle_marketdata::bindings::{
    callback_slot, event_callback, ffi_channel, rest_credential, stock_channel,
    futopt_channel, streaming_credential, streaming_url, subscribe_channel_name,
    subscribe_targets, unsubscribe_targets, CallbackSlot, StockIntradayQuoteParams, SymbolParams,
};
use fugle_marketdata::error::MarketDataError;
use fugle_marketdata::json::{JsonMember, JsonValue};
use fugle_marketdata::models::{AuthRequest, Channel, FutOptChannel};
use fugle_marketdata::session::ConnectionEvent;

fn obj(members: Vec<(&str, JsonValue)>) -> JsonValue {
    JsonValue::Object(
        members
            .into_iter()
            .map(|(k, v)| JsonMember { key: k.to_string(), value: v })
            .collect(),
    )
}

fn s(text: &str) -> JsonValue {
    JsonValue::Str(text.to_string())
}

#[test]
fn exactly_one_credential() {
    let msg = "Provide exactly one of: apiKey, bearerToken, sdkToken".to_string();
    assert_eq!(rest_credential(None, None, None), Err(msg.clone()));
    assert_eq!(
        rest_credential(Some("k".into()), Some("t".into()), None),
        Err(msg.clone())
    );
    assert_eq!(
        rest_credential(None, Some("t".into()), None),
        Ok(AuthRequest::BearerToken("t".into()))
    );
    assert_eq!(streaming_credential(None, None, Some("s".into())), Ok("s".to_string()));
    assert_eq!(streaming_credential(Some("a".into()), None, Some("s".into())), Err(msg));
}

#[test]
fn callback_names() {
    assert_eq!(callback_slot("message"), Ok(CallbackSlot::Message));
    assert_eq!(callback_slot("unauthenticated"), Ok(CallbackSlot::Unauthenticated));
    assert_eq!(
        callback_slot("close"),
        Err("Unknown event type: close. Valid events: message, connect, disconnect, reconnect, error, authenticated, unauthenticated".to_string())
    );
}

#[test]
fn events_reach_callbacks_with_text() {
    assert_eq!(
        event_callback(&ConnectionEvent::Reconnecting { attempt: 3 }),
        Some((CallbackSlot::Reconnect, r#"{"attempt":3}"#.to_string()))
    );
    assert_eq!(
        event_callback(&ConnectionEvent::Error { message: "boom".into(), code: 2001 }),
        Some((CallbackSlot::Error, "[2001] boom".to_string()))
    );
    assert_eq!(
        event_callback(&ConnectionEvent::Disconnected { code: None, reason: "gone".into() }),
        Some((CallbackSlot::Disconnect, r#"{"code":0,"reason":"gone"}"#.to_string()))
    );
    assert_eq!(
        event_callback(&ConnectionEvent::ReconnectFailed { attempts: 5 }),
        Some((CallbackSlot::Error, "Reconnection failed after 5 attempts".to_string()))
    );
    assert_eq!(event_callback(&ConnectionEvent::Connecting), None);
}

#[test]
fn custom_streaming_endpoints() {
    assert_eq!(streaming_url("http://localhost:8080//", true), "http://localhost:8080/stock/streaming");
    assert_eq!(streaming_url("https://x", false), "https://x/futopt/streaming");
}

#[test]
fn channel_names() {
    assert_eq!(stock_channel("TRADES"), Some(Channel::Trades));
    assert_eq!(stock_channel("indices"), Some(Channel::Indices));
    assert_eq!(stock_channel("quotes"), None);
    assert_eq!(futopt_channel("Books"), Some(FutOptChannel::Books));
    assert_eq!(futopt_channel("indices"), None);
    assert_eq!(ffi_channel("candles"), Ok(Channel::Candles));
    assert_eq!(
        ffi_channel("Trades"),
        Err(MarketDataError::InvalidSymbol { symbol: "Invalid channel: Trades".to_string() })
    );
}

#[test]
fn subscribe_options() {
    let one = obj(vec![("channel", s("trades")), ("symbol", s("2330"))]);
    assert_eq!(subscribe_channel_name(&one), Ok("trades".to_string()));
    assert_eq!(subscribe_targets(&one), Ok(vec!["2330".to_string()]));

    let many = obj(vec![("symbols", JsonValue::Array(vec![s("2330"), JsonValue::Null, s("2454")]))]);
    assert_eq!(subscribe_targets(&many), Ok(vec!["2330".to_string(), "2454".to_string()]));
    assert_eq!(subscribe_channel_name(&many), Err("Missing 'channel' field".to_string()));

    let empty = obj(vec![("symbols", JsonValue::Array(vec![]))]);
    assert_eq!(
        subscribe_targets(&empty),
        Err("subscribe({symbols:[]}) is empty - provide at least one symbol".to_string())
    );
    let both = obj(vec![("symbol", s("a")), ("symbols", JsonValue::Array(vec![s("b")]))]);
    assert_eq!(
        subscribe_targets(&both),
        Err("subscribe() accepts either 'symbol' or 'symbols', not both".to_string())
    );
    assert_eq!(
        subscribe_targets(&obj(vec![])),
        Err("subscribe() requires 'symbol' or 'symbols'".to_string())
    );
}

#[test]
fn unsubscribe_options() {
    assert_eq!(unsubscribe_targets(&s("sub-1")), Ok(vec!["sub-1".to_string()]));
    assert_eq!(
        unsubscribe_targets(&obj(vec![("ids", JsonValue::Array(vec![s("a"), s("b")]))])),
        Ok(vec!["a".to_string(), "b".to_string()])
    );
    assert_eq!(
        unsubscribe_targets(&obj(vec![])),
        Err("unsubscribe() requires 'id' or 'ids'".to_string())
    );
}

#[test]
fn request_parameter_records() {
    let q = StockIntradayQuoteParams { symbol: "2330".into(), odd_lot: Some(true) };
    assert_eq!(q.clone(), q);
    let p = SymbolParams { symbol: "2330".into() };
    assert_eq!(p.symbol, "2330");
}
