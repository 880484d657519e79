use fugle_marketdata::channels::{FutOptSubscription, StockSubscription};
use fugle_marketdata::json::{JsonMember, JsonValue};
use fugle_marketdata::models::{AuthRequest, Channel, FutOptChannel, SubscribeRequest};
use fugle_marketdata::protocol::{
    classify_auth_response, frame_auth, frame_subscribe, frame_subscribe_futopt,
    frame_subscribe_raw, frame_unsubscribe, handle_subscribed_event, AuthOutcome,
    WebSocketMessage,
};
use fugle_marketdata::subscription::SubscriptionManager;

fn to_json(v: &serde_json::Value) -> JsonValue {
    match v {
        serde_json::Value::Null => JsonValue::Null,
        serde_json::Value::Bool(b) => JsonValue::Bool(*b),
        serde_json::Value::Number(n) => JsonValue::Number(n.to_string()),
        serde_json::Value::String(s) => JsonValue::Str(s.clone()),
        serde_json::Value::Array(a) => JsonValue::Array(a.iter().map(to_json).collect()),
        serde_json::Value::Object(o) => JsonValue::Object(
            o.iter()
                .map(|(k, v)| JsonMember { key: k.clone(), value: to_json(v) })
                .collect(),
        ),
    }
}

fn field(v: &serde_json::Value, key: &str) -> Option<String> {
    v.get(key).and_then(|x| x.as_str()).map(String::from)
}

fn parse_msg(text: &str) -> WebSocketMessage {
    let v: serde_json::Value = serde_json::from_str(text).unwrap();
    WebSocketMessage {
        event: field(&v, "event").unwrap(),
        data: v.get("data").map(to_json),
        channel: field(&v, "channel"),
        symbol: field(&v, "symbol"),
        id: field(&v, "id"),
    }
}

#[test]
fn test_handle_subscribed_ignores_non_subscribed() {
    let mut manager = SubscriptionManager::new();
    let msg = parse_msg(r#"{"event":"data","id":"sub-1","channel":"trades","symbol":"2330"}"#);
    handle_subscribed_event(&mut manager, &msg);
    assert!(manager.take_server_id("trades:2330").is_none());
}

#[test]
fn test_handle_subscribed_single_top_level() {
    let mut manager = SubscriptionManager::new();
    let msg =
        parse_msg(r#"{"event":"subscribed","id":"sub-abc","channel":"trades","symbol":"2330"}"#);
    handle_subscribed_event(&mut manager, &msg);
    assert_eq!(manager.take_server_id("trades:2330"), Some("sub-abc".to_string()));
}

#[test]
fn test_handle_subscribed_single_with_after_hours() {
    let mut manager = SubscriptionManager::new();
    let msg = parse_msg(
        r#"{"event":"subscribed","data":{"id":"sub-ah","channel":"books","symbol":"TXFE6","afterHours":true}}"#,
    );
    handle_subscribed_event(&mut manager, &msg);
    assert_eq!(
        manager.take_server_id("books:TXFE6:afterhours"),
        Some("sub-ah".to_string())
    );
    assert!(manager.take_server_id("books:TXFE6").is_none());
}

#[test]
fn test_handle_subscribed_single_with_odd_lot() {
    let mut manager = SubscriptionManager::new();
    let msg = parse_msg(
        r#"{"event":"subscribed","data":{"id":"sub-odd","channel":"trades","symbol":"2330","intradayOddLot":true}}"#,
    );
    handle_subscribed_event(&mut manager, &msg);
    assert_eq!(
        manager.take_server_id("trades:2330:oddlot"),
        Some("sub-odd".to_string())
    );
}

#[test]
fn test_handle_subscribed_batched_array() {
    let mut manager = SubscriptionManager::new();
    let msg = parse_msg(
        r#"{"event":"subscribed","data":[
            {"id":"sub-1","channel":"trades","symbol":"2330"},
            {"id":"sub-2","channel":"books","symbol":"TXFE6","afterHours":true},
            {"id":"sub-3","channel":"trades","symbol":"2317","intradayOddLot":true}
        ]}"#,
    );
    handle_subscribed_event(&mut manager, &msg);
    assert_eq!(manager.take_server_id("trades:2330"), Some("sub-1".into()));
    assert_eq!(manager.take_server_id("books:TXFE6:afterhours"), Some("sub-2".into()));
    assert_eq!(manager.take_server_id("trades:2317:oddlot"), Some("sub-3".into()));
}

#[test]
fn test_handle_subscribed_missing_fields_no_op() {
    let mut manager = SubscriptionManager::new();
    let msg = parse_msg(r#"{"event":"subscribed","symbol":"2330"}"#);
    handle_subscribed_event(&mut manager, &msg);
    assert!(manager.take_server_id("trades:2330").is_none());
}

#[test]
fn classify_auth_outcomes() {
    assert_eq!(
        classify_auth_response(&parse_msg(r#"{"event":"authenticated"}"#)),
        AuthOutcome::Authenticated
    );
    assert_eq!(
        classify_auth_response(&parse_msg(r#"{"event":"error","data":{"message":"Unauthorized"}}"#)),
        AuthOutcome::Failed("Unauthorized".to_string())
    );
    assert_eq!(
        classify_auth_response(&parse_msg(r#"{"event":"error"}"#)),
        AuthOutcome::Failed("Unknown error".to_string())
    );
    assert_eq!(
        classify_auth_response(&parse_msg(r#"{"event":"heartbeat"}"#)),
        AuthOutcome::Pending
    );
}

#[test]
fn auth_frames_name_the_credential() {
    assert_eq!(
        frame_auth(&AuthRequest::with_api_key("k1")),
        r#"{"event":"auth","data":{"apikey":"k1"}}"#
    );
    assert_eq!(
        frame_auth(&AuthRequest::with_bearer_token("t\"1")),
        r#"{"event":"auth","data":{"token":"t\"1"}}"#
    );
    assert_eq!(
        frame_auth(&AuthRequest::with_sdk_token("s1")),
        r#"{"event":"auth","data":{"sdkToken":"s1"}}"#
    );
}

#[test]
fn subscribe_frames_and_rows() {
    let (frame, rows) = frame_subscribe(
        &StockSubscription::new(Channel::Trades, vec!["2330", "2454"]).with_odd_lot(true),
    );
    assert_eq!(
        frame,
        r#"{"event":"subscribe","data":{"channel":"trades","symbols":["2330","2454"],"intradayOddLot":true}}"#
    );
    let keys: Vec<String> = rows.iter().map(|r| r.key()).collect();
    assert_eq!(keys, vec!["trades:2330:oddlot", "trades:2454:oddlot"]);

    let (frame, rows) =
        frame_subscribe_futopt(&FutOptSubscription::new(FutOptChannel::Books, "TXFE6").with_after_hours(true));
    assert_eq!(
        frame,
        r#"{"event":"subscribe","data":{"channel":"books","symbol":"TXFE6","afterHours":true}}"#
    );
    assert_eq!(rows.len(), 1);
    assert_eq!(rows[0].key(), "books:TXFE6:afterhours");
}

#[test]
fn raw_subscribe_frame_of_a_stored_row() {
    let req = SubscribeRequest::new(Channel::Candles, "2317");
    assert_eq!(
        frame_subscribe_raw(&req),
        r#"{"event":"subscribe","data":{"channel":"candles","symbol":"2317"}}"#
    );
}

#[test]
fn unsubscribe_frame_shapes() {
    assert_eq!(
        frame_unsubscribe(&vec!["sub-1".to_string()]),
        r#"{"event":"unsubscribe","data":{"id":"sub-1"}}"#
    );
    assert_eq!(
        frame_unsubscribe(&vec!["a".to_string(), "b".to_string()]),
        r#"{"event":"unsubscribe","data":{"ids":["a","b"]}}"#
    );
}

#[test]
fn error_message_reads_the_payload() {
    let msg = parse_msg(r#"{"event":"error","data":{"message":"bad","code":1}}"#);
    assert!(msg.is_error());
    assert!(!msg.is_authenticated());
    assert_eq!(msg.error_message(), Some("bad".to_string()));
}
