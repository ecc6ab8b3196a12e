use trading_api::errors::ApiError;
use trading_api::params::{batch_tickers, parse_symbols_csv, periods_per_year_from_interval};

#[test]
fn periods_per_year_by_interval() {
    assert_eq!(periods_per_year_from_interval("1wk"), 52);
    assert_eq!(periods_per_year_from_interval("1mo"), 12);
    assert_eq!(periods_per_year_from_interval("1d"), 252);
    assert_eq!(periods_per_year_from_interval("bad"), 252);
}

#[test]
fn csv_symbols_trimmed_and_nonempty() {
    assert_eq!(parse_symbols_csv("AAPL, MSFT ,,  ,TSLA"), vec!["AAPL", "MSFT", "TSLA"]);
    assert_eq!(parse_symbols_csv(" NVDA "), vec!["NVDA"]);
    assert!(parse_symbols_csv("").is_empty());
    assert!(parse_symbols_csv(" , ,").is_empty());
    assert_eq!(parse_symbols_csv("a,b,"), vec!["a", "b"]);
}

#[test]
fn batch_tickers_requires_one() {
    assert_eq!(batch_tickers("AAPL,BAD_TICKER").ok().unwrap(), vec!["AAPL", "BAD_TICKER"]);
    match batch_tickers(" , ") {
        Err(ApiError::BadRequest(m)) => assert_eq!(m, "No tickers provided"),
        _ => panic!("expected a bad request"),
    }
}
