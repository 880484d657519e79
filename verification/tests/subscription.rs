use fugle_marketdata::models::{Channel, SubscribeRequest};
use fugle_marketdata::subscription::SubscriptionManager;

#[test]
fn test_subscribe_adds_to_state() {
    let mut manager = SubscriptionManager::new();
    let req = SubscribeRequest::new(Channel::Trades, "2330");

    manager.subscribe(req.clone());

    assert_eq!(manager.count(), 1);
    assert!(manager.contains("trades:2330"));

    let all = manager.get_all();
    assert_eq!(all.len(), 1);
    assert_eq!(all[0], req);
}

#[test]
fn subscription_test_unsubscribe_removes_from_state() {
    let mut manager = SubscriptionManager::new();
    let req = SubscribeRequest::new(Channel::Trades, "2330");

    manager.subscribe(req.clone());
    assert_eq!(manager.count(), 1);

    manager.unsubscribe("trades:2330");
    assert_eq!(manager.count(), 0);
    assert!(!manager.contains("trades:2330"));
}

#[test]
fn test_insertion_order_preserved() {
    let mut manager = SubscriptionManager::new();

    manager.subscribe(SubscribeRequest::new(Channel::Trades, "2330"));
    manager.subscribe(SubscribeRequest::new(Channel::Candles, "2317"));
    manager.subscribe(SubscribeRequest::new(Channel::Books, "2454"));

    let all = manager.get_all();
    assert_eq!(all.len(), 3);
    assert_eq!(all[0].key(), "trades:2330");
    assert_eq!(all[1].key(), "candles:2317");
    assert_eq!(all[2].key(), "books:2454");
}

#[test]
fn test_unsubscribe_during_disconnect_removes() {
    let mut manager = SubscriptionManager::new();

    manager.subscribe(SubscribeRequest::new(Channel::Trades, "2330"));
    manager.subscribe(SubscribeRequest::new(Channel::Candles, "2317"));
    assert_eq!(manager.count(), 2);

    manager.unsubscribe("trades:2330");

    assert_eq!(manager.count(), 1);
    assert!(!manager.contains("trades:2330"));
    assert!(manager.contains("candles:2317"));

    let all = manager.get_all();
    assert_eq!(all.len(), 1);
    assert_eq!(all[0].key(), "candles:2317");
}

#[test]
fn test_get_all_returns_in_order() {
    let mut manager = SubscriptionManager::new();

    manager.subscribe(SubscribeRequest::new(Channel::Aggregates, "2330"));
    manager.subscribe(SubscribeRequest::new(Channel::Trades, "2317"));
    manager.subscribe(SubscribeRequest::new(Channel::Books, "2454"));
    manager.subscribe(SubscribeRequest::new(Channel::Candles, "2886"));

    let all = manager.get_all();
    assert_eq!(all.len(), 4);

    assert_eq!(all[0].key(), "aggregates:2330");
    assert_eq!(all[1].key(), "trades:2317");
    assert_eq!(all[2].key(), "books:2454");
    assert_eq!(all[3].key(), "candles:2886");
}

#[test]
fn test_unsubscribe_by_channel_symbol() {
    let mut manager = SubscriptionManager::new();
    manager.subscribe(SubscribeRequest::new(Channel::Trades, "2330"));

    assert!(manager.contains("trades:2330"));

    manager.unsubscribe_by_channel_symbol("trades", "2330");

    assert!(!manager.contains("trades:2330"));
    assert_eq!(manager.count(), 0);
}

#[test]
fn test_clear_removes_all() {
    let mut manager = SubscriptionManager::new();

    manager.subscribe(SubscribeRequest::new(Channel::Trades, "2330"));
    manager.subscribe(SubscribeRequest::new(Channel::Candles, "2317"));
    manager.subscribe(SubscribeRequest::new(Channel::Books, "2454"));

    assert_eq!(manager.count(), 3);

    manager.clear();

    assert_eq!(manager.count(), 0);
    assert!(manager.get_all().is_empty());
}

#[test]
fn test_subscribe_updates_existing() {
    let mut manager = SubscriptionManager::new();

    let req1 = SubscribeRequest::new(Channel::Trades, "2330");
    manager.subscribe(req1);
    assert_eq!(manager.count(), 1);

    let req2 = SubscribeRequest::new(Channel::Trades, "2330");
    manager.subscribe(req2);

    assert_eq!(manager.count(), 1);
}

#[test]
fn resubscribe_keeps_first_position() {
    let mut manager = SubscriptionManager::new();
    manager.subscribe(SubscribeRequest::new(Channel::Trades, "2330"));
    manager.subscribe(SubscribeRequest::new(Channel::Books, "2454"));
    let mut odd = SubscribeRequest::new(Channel::Trades, "2330");
    odd.symbols = Some(vec!["x".to_string()]);
    manager.subscribe(odd.clone());
    assert_eq!(manager.keys(), vec!["trades:2330".to_string(), "books:2454".to_string()]);
    assert_eq!(manager.get_all()[0], odd);
}

#[test]
fn subscribe_then_unsubscribe_restores_rows() {
    let mut manager = SubscriptionManager::new();
    manager.subscribe(SubscribeRequest::new(Channel::Trades, "2330"));
    manager.subscribe(SubscribeRequest::new(Channel::Books, "2454"));
    let before = manager.get_all();
    manager.subscribe(SubscribeRequest::new(Channel::Candles, "2317"));
    manager.unsubscribe("candles:2317");
    assert_eq!(manager.get_all(), before);
}

#[test]
fn server_ids_are_recorded_and_taken_once() {
    let mut manager = SubscriptionManager::new();
    manager.record_server_id("trades:2330".to_string(), "sub-1".to_string());
    manager.record_server_id("trades:2330".to_string(), "sub-2".to_string());
    assert_eq!(manager.take_server_id("trades:2330"), Some("sub-2".to_string()));
    assert_eq!(manager.take_server_id("trades:2330"), None);

    manager.record_server_id("books:2454".to_string(), "sub-3".to_string());
    manager.clear_server_ids();
    assert_eq!(manager.take_server_id("books:2454"), None);
}
