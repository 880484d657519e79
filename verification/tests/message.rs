use fugle_marketdata::error::MarketDataError;
use fugle_marketdata::message::{blocking_result, timed_result, MessageReceiver, TimedRead};
use fugle_marketdata::protocol::WebSocketMessage;
use std::sync::mpsc;
use std::time::Duration;

fn data_msg(channel: Option<&str>, symbol: Option<&str>) -> WebSocketMessage {
    WebSocketMessage {
        event: "data".to_string(),
        data: None,
        channel: channel.map(String::from),
        symbol: symbol.map(String::from),
        id: None,
    }
}

#[test]
fn test_receive_blocking() {
    let (tx, rx) = mpsc::channel();
    let receiver = MessageReceiver::new(rx);
    tx.send(data_msg(Some("trades"), Some("2330"))).unwrap();

    let result = receiver.receive();
    assert!(result.is_ok());
    let msg = result.unwrap();
    assert_eq!(msg.event, "data");
    assert_eq!(msg.channel, Some("trades".to_string()));
}

#[test]
fn test_receive_timeout_returns_none() {
    let (_tx, rx) = mpsc::channel::<WebSocketMessage>();
    let receiver = MessageReceiver::new(rx);

    let result = receiver.receive_timeout(Duration::from_millis(50));
    assert!(result.is_ok());
    assert!(result.unwrap().is_none());
}

#[test]
fn test_receive_timeout_returns_message() {
    let (tx, rx) = mpsc::channel();
    let receiver = MessageReceiver::new(rx);
    tx.send(data_msg(Some("trades"), Some("2330"))).unwrap();

    let result = receiver.receive_timeout(Duration::from_secs(1));
    assert!(result.is_ok());
    let received = result.unwrap();
    assert!(received.is_some());
    assert_eq!(received.unwrap().event, "data");
}

#[test]
fn test_try_receive_non_blocking() {
    let (tx, rx) = mpsc::channel();
    let receiver = MessageReceiver::new(rx);

    assert!(receiver.try_receive().is_none());

    tx.send(data_msg(None, None)).unwrap();

    let received = receiver.try_receive();
    assert!(received.is_some());
    assert_eq!(received.unwrap().event, "data");
}

#[test]
fn test_channel_closed_returns_error() {
    let (tx, rx) = mpsc::channel::<WebSocketMessage>();
    let receiver = MessageReceiver::new(rx);
    drop(tx);

    let result = receiver.receive();
    assert!(result.is_err());
    match result {
        Err(MarketDataError::ConnectionError { msg }) => {
            assert!(msg.contains("closed"));
        }
        _ => panic!("Expected ConnectionError"),
    }
}

#[test]
fn test_channel_closed_timeout_returns_error() {
    let (tx, rx) = mpsc::channel::<WebSocketMessage>();
    let receiver = MessageReceiver::new(rx);
    drop(tx);

    let result = receiver.receive_timeout(Duration::from_secs(1));
    assert!(result.is_err());
}

#[test]
fn test_try_receive_after_close() {
    let (tx, rx) = mpsc::channel();
    let receiver = MessageReceiver::new(rx);
    tx.send(data_msg(None, None)).unwrap();
    drop(tx);

    let received = receiver.try_receive();
    assert!(received.is_some());

    let received2 = receiver.try_receive();
    assert!(received2.is_none());
}

#[test]
fn read_results_map_to_the_documented_errors() {
    match blocking_result(None) {
        Err(MarketDataError::ConnectionError { msg }) => assert_eq!(msg, "Message channel closed"),
        _ => panic!("expected the closed-channel error"),
    }
    assert!(matches!(timed_result(TimedRead::Timeout), Ok(None)));
    match timed_result(TimedRead::Closed) {
        Err(MarketDataError::ConnectionError { msg }) => assert_eq!(msg, "Message channel closed"),
        _ => panic!("expected the closed-channel error"),
    }
    assert!(matches!(
        timed_result(TimedRead::Message(data_msg(None, None))),
        Ok(Some(m)) if m.event == "data"
    ));
}
