use fugle_marketdata::channels::{FutOptSubscription, StockSubscription};
use fugle_marketdata::json::to_json_text;
use fugle_marketdata::models::{Channel, FutOptChannel, SymbolSpec, Symbols};

#[test]
fn stock_new_single_symbol() {
    let sub = StockSubscription::new(Channel::Trades, "2330");
    assert_eq!(sub.channel, Channel::Trades);
    assert!(matches!(sub.symbols, SymbolSpec::Single(ref s) if s == "2330"));
    assert!(!sub.intraday_odd_lot);
}

#[test]
fn stock_new_batch_symbols() {
    let sub = StockSubscription::new(Channel::Trades, vec!["2330", "2454"]);
    assert!(matches!(sub.symbols, SymbolSpec::Many(ref v) if v == &["2330", "2454"]));
}

#[test]
fn stock_keys_returns_per_symbol_entries() {
    let single = StockSubscription::new(Channel::Trades, "2330");
    assert_eq!(single.keys(), vec!["trades:2330".to_string()]);

    let batch = StockSubscription::new(Channel::Books, ["2330", "2454", "2317"]);
    assert_eq!(
        batch.keys(),
        vec![
            "books:2330".to_string(),
            "books:2454".to_string(),
            "books:2317".to_string()
        ]
    );
}

#[test]
fn odd_lot_modifier_applies_to_all_keys() {
    let batch = StockSubscription::new(Channel::Trades, ["2330", "2454"]).with_odd_lot(true);
    assert_eq!(
        batch.keys(),
        vec![
            "trades:2330:oddlot".to_string(),
            "trades:2454:oddlot".to_string()
        ]
    );
}

#[test]
fn stock_to_subscribe_data_single_uses_symbol_field() {
    let sub = StockSubscription::new(Channel::Candles, "2454");
    let data = sub.to_subscribe_data();
    assert_eq!(data.get("channel").and_then(|v| v.as_str()), Some("candles"));
    assert_eq!(data.get("symbol").and_then(|v| v.as_str()), Some("2454"));
    assert!(data.get("symbols").is_none());
    assert!(data.get("intradayOddLot").is_none());
}

#[test]
fn stock_to_subscribe_data_batch_uses_symbols_field() {
    let sub = StockSubscription::new(Channel::Aggregates, vec!["2330", "0050", "2603"]);
    let data = sub.to_subscribe_data();
    assert_eq!(data.get("channel").and_then(|v| v.as_str()), Some("aggregates"));
    let symbols = data.get("symbols").and_then(|v| v.as_array()).unwrap();
    let names: Vec<&str> = symbols.iter().filter_map(|v| v.as_str()).collect();
    assert_eq!(names, vec!["2330", "0050", "2603"]);
    assert!(data.get("symbol").is_none());
}

#[test]
fn to_subscribe_data_with_odd_lot() {
    let sub = StockSubscription::new(Channel::Trades, "2330").with_odd_lot(true);
    let data = sub.to_subscribe_data();
    assert_eq!(data.get("symbol").and_then(|v| v.as_str()), Some("2330"));
    assert_eq!(data.get("intradayOddLot").and_then(|v| v.as_bool()), Some(true));
}

#[test]
fn futopt_new_single_symbol() {
    let sub = FutOptSubscription::new(FutOptChannel::Trades, "TXF202502");
    assert!(matches!(sub.symbols, Symbols::Single(ref s) if s == "TXF202502"));
    assert!(!sub.after_hours);
}

#[test]
fn futopt_new_batch_symbols() {
    let sub = FutOptSubscription::new(FutOptChannel::Trades, vec!["TXFC4", "MXFC4"]);
    assert!(matches!(sub.symbols, Symbols::Many(ref v) if v == &["TXFC4", "MXFC4"]));
}

#[test]
fn futopt_keys_returns_per_symbol_entries() {
    let single = FutOptSubscription::new(FutOptChannel::Trades, "TXFC4");
    assert_eq!(single.keys(), vec!["trades:TXFC4".to_string()]);

    let batch = FutOptSubscription::new(FutOptChannel::Books, ["TXFC4", "MXFC4"]);
    assert_eq!(
        batch.keys(),
        vec!["books:TXFC4".to_string(), "books:MXFC4".to_string()]
    );
}

#[test]
fn after_hours_modifier_applies_to_all_keys() {
    let batch =
        FutOptSubscription::new(FutOptChannel::Trades, ["TXFC4", "MXFC4"]).with_after_hours(true);
    assert_eq!(
        batch.keys(),
        vec![
            "trades:TXFC4:afterhours".to_string(),
            "trades:MXFC4:afterhours".to_string()
        ]
    );
}

#[test]
fn futopt_to_subscribe_data_single_uses_symbol_field() {
    let sub = FutOptSubscription::new(FutOptChannel::Candles, "MXFB4");
    let data = sub.to_subscribe_data();
    assert_eq!(data.get("channel").and_then(|v| v.as_str()), Some("candles"));
    assert_eq!(data.get("symbol").and_then(|v| v.as_str()), Some("MXFB4"));
    assert!(data.get("symbols").is_none());
    assert!(data.get("afterHours").is_none());
}

#[test]
fn futopt_to_subscribe_data_batch_uses_symbols_field() {
    let sub = FutOptSubscription::new(FutOptChannel::Aggregates, vec!["TXFC4", "MXFC4"]);
    let data = sub.to_subscribe_data();
    let symbols = data.get("symbols").and_then(|v| v.as_array()).unwrap();
    let names: Vec<&str> = symbols.iter().filter_map(|v| v.as_str()).collect();
    assert_eq!(names, vec!["TXFC4", "MXFC4"]);
    assert!(data.get("symbol").is_none());
}

#[test]
fn to_subscribe_data_with_after_hours() {
    let sub = FutOptSubscription::new(FutOptChannel::Trades, "TXFC4").with_after_hours(true);
    let data = sub.to_subscribe_data();
    assert_eq!(data.get("symbol").and_then(|v| v.as_str()), Some("TXFC4"));
    assert_eq!(data.get("afterHours").and_then(|v| v.as_bool()), Some(true));
}

#[test]
fn subscribe_request_text_is_exact() {
    let sub = StockSubscription::new(Channel::Trades, "2330").with_odd_lot(true);
    assert_eq!(
        to_json_text(&sub.to_subscribe_request()),
        r#"{"event":"subscribe","data":{"channel":"trades","symbol":"2330","intradayOddLot":true}}"#
    );
    let batch = FutOptSubscription::new(FutOptChannel::Books, vec!["TXFC4", "MXFC4"]);
    assert_eq!(
        to_json_text(&batch.to_subscribe_request()),
        r#"{"event":"subscribe","data":{"channel":"books","symbols":["TXFC4","MXFC4"]}}"#
    );
}
