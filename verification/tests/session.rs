use fugle_marketdata::channels::{FutOptSubscription, StockSubscription};
use fugle_marketdata::error::MarketDataError;
use fugle_marketdata::health_check::HealthCheckConfig;
use fugle_marketdata::json::{JsonMember, JsonValue};
use fugle_marketdata::models::{AuthRequest, Channel, FutOptChannel};
use fugle_marketdata::protocol::WebSocketMessage;
use fugle_marketdata::reconnection::ReconnectionConfig;
use fugle_marketdata::session::{
    auth_deadline, auth_step, failure_event, heartbeat_expired, write_failed_event, AfterExit,
    Attempt, AuthProgress, ClientCore, CloseFrame, ConnectionEvent, ConnectionState, InboundFrame,
};
use std::time::Duration;

fn fresh_core() -> ClientCore {
    ClientCore::new(AuthRequest::with_api_key("test"), ReconnectionConfig::default())
}

fn connected_core() -> ClientCore {
    let mut c = fresh_core();
    c.begin_connect().unwrap();
    c.transport_opened();
    c.connected_now();
    c
}

fn msg(event: &str, data: Option<JsonValue>) -> WebSocketMessage {
    WebSocketMessage { event: event.to_string(), data, channel: None, symbol: None, id: None }
}

fn obj(members: Vec<(&str, JsonValue)>) -> JsonValue {
    JsonValue::Object(
        members
            .into_iter()
            .map(|(k, v)| JsonMember { key: k.to_string(), value: v })
            .collect(),
    )
}

fn s(text: &str) -> JsonValue {
    JsonValue::Str(text.to_string())
}

#[test]
fn test_connection_state_variants() {
    let _disconnected = ConnectionState::Disconnected;
    let _connecting = ConnectionState::Connecting;
    let _authenticating = ConnectionState::Authenticating;
    let _connected = ConnectionState::Connected;
    let _reconnecting = ConnectionState::Reconnecting { attempt: 1 };
    let _closed = ConnectionState::Closed {
        code: Some(1000),
        reason: "Normal closure".to_string(),
    };
}

#[test]
fn test_connection_event_variants() {
    let _connecting = ConnectionEvent::Connecting;
    let _connected = ConnectionEvent::Connected;
    let _authenticated = ConnectionEvent::Authenticated;
    let _unauthenticated = ConnectionEvent::Unauthenticated {
        message: "Invalid credentials".to_string(),
    };
    let _disconnected = ConnectionEvent::Disconnected {
        code: Some(1000),
        reason: "Normal closure".to_string(),
    };
    let _reconnecting = ConnectionEvent::Reconnecting { attempt: 1 };
    let _failed = ConnectionEvent::ReconnectFailed { attempts: 5 };
    let _error = ConnectionEvent::Error {
        message: "Connection failed".to_string(),
        code: 2001,
    };
}

#[test]
fn test_new_starts_disconnected() {
    let client = fresh_core();
    assert_eq!(*client.state(), ConnectionState::Disconnected);
    assert!(!client.is_closed());
    assert!(!client.is_connected());
}

#[test]
fn test_subscribe_before_connect_records_subscription() {
    let mut client = fresh_core();
    let sub = StockSubscription::new(Channel::Trades, "2330");
    assert_eq!(client.subscribe(&sub).unwrap(), None);
    assert_eq!(client.subscription_keys().len(), 1);
}

#[test]
fn test_unsubscribe_when_disconnected_removes_state() {
    let mut client = fresh_core();
    let sub = StockSubscription::new(Channel::Trades, "2330");
    client.subscribe(&sub).unwrap();
    assert_eq!(client.subscription_keys().len(), 1);

    assert_eq!(client.unsubscribe(&vec!["trades:2330".to_string()]).unwrap(), None);
    assert_eq!(client.subscription_keys().len(), 0);
}

#[test]
fn test_is_closed_sync() {
    let client = fresh_core();
    assert!(!client.is_closed());
}

#[test]
fn connect_handshake_moves_through_the_states() {
    let mut c = fresh_core();
    assert_eq!(c.begin_connect().unwrap(), ConnectionEvent::Connecting);
    assert_eq!(*c.state(), ConnectionState::Connecting);
    let (ev, frame) = c.transport_opened();
    assert_eq!(ev, ConnectionEvent::Connected);
    assert_eq!(frame, r#"{"event":"auth","data":{"apikey":"test"}}"#);
    assert_eq!(*c.state(), ConnectionState::Authenticating);
    assert_eq!(c.connected_now(), ConnectionEvent::Authenticated);
    assert!(c.is_connected());
}

#[test]
fn failed_connect_reports_and_disconnects() {
    let mut c = fresh_core();
    c.begin_connect().unwrap();
    let err = MarketDataError::ConnectionError { msg: "refused".to_string() };
    let ev = c.connect_failed(&err);
    assert_eq!(
        ev,
        ConnectionEvent::Error { message: "Connection error: refused".to_string(), code: 2001 }
    );
    assert_eq!(*c.state(), ConnectionState::Disconnected);

    let rejected = MarketDataError::AuthError { msg: "bad key".to_string() };
    assert_eq!(
        failure_event(&rejected),
        ConnectionEvent::Unauthenticated { message: "bad key".to_string() }
    );
}

#[test]
fn closed_client_refuses_everything() {
    let mut c = connected_core();
    let ev = c.closed_by_client(false);
    assert_eq!(
        ev,
        ConnectionEvent::Disconnected { code: Some(1000), reason: "Normal closure".to_string() }
    );
    assert!(c.is_closed());
    assert_eq!(c.begin_connect(), Err(MarketDataError::ClientClosed));
    assert_eq!(c.prepare_reconnect(), Err(MarketDataError::ClientClosed));
    let sub = StockSubscription::new(Channel::Trades, "2330");
    assert_eq!(c.subscribe(&sub), Err(MarketDataError::ClientClosed));
    let fsub = FutOptSubscription::new(FutOptChannel::Trades, "TXFC4");
    assert_eq!(c.subscribe_futopt(&fsub), Err(MarketDataError::ClientClosed));
    assert_eq!(c.unsubscribe(&vec!["x".to_string()]), Err(MarketDataError::ClientClosed));
    assert!(c.subscription_keys().is_empty());
}

#[test]
fn force_close_uses_abnormal_code() {
    let mut c = connected_core();
    let ev = c.closed_by_client(true);
    assert_eq!(
        ev,
        ConnectionEvent::Disconnected { code: Some(1006), reason: "Force closed".to_string() }
    );
    assert_eq!(
        *c.state(),
        ConnectionState::Closed { code: Some(1006), reason: "Force closed".to_string() }
    );
}

#[test]
fn subscribe_while_connected_returns_the_frame() {
    let mut c = connected_core();
    let sub = StockSubscription::new(Channel::Trades, vec!["2330", "2454"]);
    let frame = c.subscribe(&sub).unwrap();
    assert_eq!(
        frame,
        Some(r#"{"event":"subscribe","data":{"channel":"trades","symbols":["2330","2454"]}}"#.to_string())
    );
    assert_eq!(c.subscription_keys(), vec!["trades:2330", "trades:2454"]);
}

#[test]
fn unsubscribe_sends_server_ids_or_keys() {
    let mut c = connected_core();
    c.subscribe(&StockSubscription::new(Channel::Trades, vec!["2330", "2454"])).unwrap();
    let ack = msg(
        "subscribed",
        Some(obj(vec![("id", s("sub-9")), ("channel", s("trades")), ("symbol", s("2330"))])),
    );
    c.on_frame(InboundFrame::Text(Ok(ack)));
    let frame = c
        .unsubscribe(&vec!["trades:2330".to_string(), "trades:2454".to_string()])
        .unwrap();
    assert_eq!(
        frame,
        Some(r#"{"event":"unsubscribe","data":{"ids":["sub-9","trades:2454"]}}"#.to_string())
    );
    assert!(c.subscription_keys().is_empty());
    assert_eq!(c.unsubscribe(&Vec::new()).unwrap(), None);
}

#[test]
fn reconnect_replays_rows_in_order() {
    let mut c = connected_core();
    c.subscribe(&StockSubscription::new(Channel::Books, "2454")).unwrap();
    c.subscribe_futopt(&FutOptSubscription::new(FutOptChannel::Trades, "TXFC4").with_after_hours(true))
        .unwrap();
    let (after, ev) = c.after_owner_exit(false, Some(1006));
    assert_eq!(after, AfterExit::Retry);
    assert_eq!(ev, None);
    let (attempt, ev) = c.next_attempt(Some(1006));
    assert_eq!(attempt, Attempt::Wait { attempt: 1, delay: Duration::from_millis(1030) });
    assert_eq!(ev, ConnectionEvent::Reconnecting { attempt: 1 });
    assert_eq!(*c.state(), ConnectionState::Reconnecting { attempt: 1 });
    assert_eq!(c.begin_reconnect(), ConnectionEvent::Connecting);
    c.transport_opened();
    let (ev, frames) = c.reconnected();
    assert_eq!(ev, ConnectionEvent::Authenticated);
    assert_eq!(
        frames,
        vec![
            r#"{"event":"subscribe","data":{"channel":"books","symbol":"2454"}}"#.to_string(),
            r#"{"event":"subscribe","data":{"channel":"trades","symbol":"TXFC4","afterHours":true}}"#
                .to_string(),
        ]
    );
    assert!(c.is_connected());
}

#[test]
fn supervisor_gives_up_after_the_attempt_limit() {
    let config = ReconnectionConfig::default().with_max_attempts(1).unwrap();
    let mut c = ClientCore::new(AuthRequest::with_api_key("k"), config);
    let (a, _) = c.next_attempt(None);
    assert!(matches!(a, Attempt::Wait { attempt: 1, .. }));
    let (a, ev) = c.next_attempt(None);
    assert_eq!(a, Attempt::GiveUp);
    assert_eq!(ev, ConnectionEvent::ReconnectFailed { attempts: 1 });
    assert_eq!(
        *c.state(),
        ConnectionState::Closed {
            code: None,
            reason: "Max reconnection attempts reached".to_string()
        }
    );
}

#[test]
fn non_retriable_close_stops_the_supervisor() {
    let mut c = connected_core();
    let (after, ev) = c.after_owner_exit(false, Some(4001));
    assert_eq!(after, AfterExit::Stop);
    assert_eq!(ev, Some(ConnectionEvent::ReconnectFailed { attempts: 0 }));
    assert_eq!(
        *c.state(),
        ConnectionState::Closed { code: Some(4001), reason: "Non-retriable error".to_string() }
    );

    let mut d = connected_core();
    let (after, ev) = d.after_owner_exit(true, None);
    assert_eq!(after, AfterExit::Stop);
    assert_eq!(ev, None);
    assert_eq!(
        *d.state(),
        ConnectionState::Closed { code: Some(1000), reason: "Client disconnected".to_string() }
    );
}

#[test]
fn read_loop_decisions() {
    let mut c = connected_core();
    let step = c.on_frame(InboundFrame::Ping(vec![1, 2]));
    assert_eq!(step.pong, Some(vec![1, 2]));
    assert!(step.alive && step.exit.is_none());

    let step = c.on_frame(InboundFrame::Text(Err("bad json".to_string())));
    assert_eq!(
        step.event,
        Some(ConnectionEvent::Error {
            message: "Failed to deserialize message: bad json".to_string(),
            code: 2003
        })
    );

    let step = c.on_frame(InboundFrame::Close(Some(CloseFrame { code: 1001, reason: "bye".to_string() })));
    assert_eq!(step.exit, Some(Some(1001)));
    assert_eq!(
        step.event,
        Some(ConnectionEvent::Disconnected { code: Some(1001), reason: "bye".to_string() })
    );

    let step = c.on_frame(InboundFrame::Close(None));
    assert_eq!(
        step.event,
        Some(ConnectionEvent::Disconnected { code: None, reason: "Server initiated close".to_string() })
    );

    let step = c.on_frame(InboundFrame::StreamEnded("gone".to_string()));
    assert_eq!(step.exit, Some(None));
    assert_eq!(
        step.event,
        Some(ConnectionEvent::Disconnected { code: None, reason: "Connection closed".to_string() })
    );

    let step = c.on_frame(InboundFrame::ReadFailed("reset".to_string()));
    assert_eq!(
        step.event,
        Some(ConnectionEvent::Error { message: "WebSocket read error: reset".to_string(), code: 2001 })
    );

    let step = c.on_frame(InboundFrame::ReadTimedOut);
    assert!(!step.alive && step.event.is_none() && step.exit.is_none());

    let step = c.on_frame(InboundFrame::Text(Ok(msg("data", None))));
    assert_eq!(step.deliver.map(|m| m.event), Some("data".to_string()));

    assert_eq!(
        write_failed_event("broken pipe"),
        ConnectionEvent::Error { message: "WebSocket write error: broken pipe".to_string(), code: 2002 }
    );
}

#[test]
fn auth_handshake_steps() {
    let (m, p) = auth_step(InboundFrame::Text(Ok(msg("authenticated", None))));
    assert!(m.is_some());
    assert!(matches!(p, AuthProgress::Done));

    let rejected = msg("error", Some(obj(vec![("message", s("Invalid key"))])));
    let (_, p) = auth_step(InboundFrame::Text(Ok(rejected)));
    assert!(matches!(p, AuthProgress::Failed(MarketDataError::AuthError { ref msg }) if msg == "Invalid key"));

    let (m, p) = auth_step(InboundFrame::Close(None));
    assert!(m.is_none());
    assert!(matches!(
        p,
        AuthProgress::Failed(MarketDataError::ConnectionError { ref msg })
            if msg == "Stream closed during authentication"
    ));

    let (_, p) = auth_step(InboundFrame::ReadFailed("eof".to_string()));
    assert!(matches!(
        p,
        AuthProgress::Failed(MarketDataError::ConnectionError { ref msg }) if msg == "Auth read error: eof"
    ));

    let (_, p) = auth_step(InboundFrame::ReadTimedOut);
    assert!(matches!(p, AuthProgress::Continue));

    assert!(auth_deadline(&Duration::from_millis(9_999)).is_none());
    assert_eq!(
        auth_deadline(&Duration::from_secs(10)),
        Some(MarketDataError::TimeoutError { operation: "WebSocket authentication".to_string() })
    );
}

#[test]
fn heartbeat_verdicts() {
    let health = HealthCheckConfig::default();
    assert_eq!(heartbeat_expired(&health, &Duration::from_secs(35)), None);
    assert_eq!(
        heartbeat_expired(&health, &Duration::from_millis(35_001)),
        Some(ConnectionEvent::HeartbeatTimeout { elapsed: Duration::from_secs(35) })
    );
    assert_eq!(heartbeat_expired(&HealthCheckConfig::disabled(), &Duration::from_secs(3600)), None);
}

#[test]
fn manual_reconnect_resets_attempts() {
    let mut c = connected_core();
    c.next_attempt(Some(1006));
    c.next_attempt(Some(1006));
    c.prepare_reconnect().unwrap();
    let (a, _) = c.next_attempt(Some(1006));
    assert!(matches!(a, Attempt::Wait { attempt: 1, .. }));
}

#[test]
fn binding_compensation_call_shape_compiles() {
    let auth = AuthRequest::with_api_key("test-key");
    let _client = ClientCore::new(auth, ReconnectionConfig::disabled());
}

#[test]
fn disabled_reconnection_stops_after_a_drop() {
    let mut c = ClientCore::new(AuthRequest::with_api_key("k"), ReconnectionConfig::disabled());
    c.begin_connect().unwrap();
    c.transport_opened();
    c.connected_now();
    let (after, ev) = c.after_owner_exit(false, Some(1006));
    assert_eq!(after, AfterExit::Stop);
    assert_eq!(ev, Some(ConnectionEvent::ReconnectFailed { attempts: 0 }));
}

#[test]
fn unsubscribe_does_not_affect_other_subscriptions() {
    let mut c = fresh_core();
    c.subscribe(&StockSubscription::new(Channel::Trades, "2330")).unwrap();
    c.subscribe(&StockSubscription::new(Channel::Books, "2454")).unwrap();
    let before = c.subscription_keys();
    let sub = StockSubscription::new(Channel::Candles, vec!["2317", "2603"]).with_odd_lot(true);
    c.subscribe(&sub).unwrap();
    assert_eq!(c.unsubscribe(&sub.keys()).unwrap(), None);
    assert_eq!(c.subscription_keys(), before);
    assert_eq!(c.unsubscribe(&Vec::new()).unwrap(), None);
    assert_eq!(c.subscription_keys(), before);
}
