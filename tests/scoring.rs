use trading_api::scoring::{has_enough_history, is_liquid, liquidity_tenths};

#[test]
fn liquidity_buckets() {
    assert_eq!(liquidity_tenths(Some(1001)), 10);
    assert_eq!(liquidity_tenths(Some(1000)), 7);
    assert_eq!(liquidity_tenths(Some(501)), 7);
    assert_eq!(liquidity_tenths(Some(500)), 4);
    assert_eq!(liquidity_tenths(Some(101)), 4);
    assert_eq!(liquidity_tenths(Some(100)), 1);
    assert_eq!(liquidity_tenths(None), 1);
}

#[test]
fn liquid_flag() {
    assert!(is_liquid(Some(501)));
    assert!(!is_liquid(Some(500)));
    assert!(!is_liquid(None));
}

#[test]
fn history_policy() {
    assert!(!has_enough_history(9));
    assert!(has_enough_history(10));
}
