use fugle_marketdata::version::{FutOptVersion, StockVersion};

#[test]
fn test_stock_default_is_v1_0() {
    assert_eq!(StockVersion::default(), StockVersion::V1_0);
    assert_eq!(StockVersion::default().as_str(), "v1.0");
}

#[test]
fn test_futopt_default_is_v1_1() {
    assert_eq!(FutOptVersion::default(), FutOptVersion::V1_1);
    assert_eq!(FutOptVersion::default().as_str(), "v1.1");
}

#[test]
fn test_futopt_v1_0_still_reachable() {
    assert_eq!(FutOptVersion::V1_0.as_str(), "v1.0");
}
