use trading_api::errors::ApiError;
use trading_api::symbols::{
    contracts_underlying, merge_unique_symbols, normalize_ticker_symbol, validate_and_clean_symbols,
    validate_ticker_symbol, TickerSymbol,
};

fn validation_message(r: Result<(), ApiError>) -> String {
    match r {
        Err(ApiError::ValidationError(m)) => m,
        _ => panic!("expected a validation error"),
    }
}

#[test]
fn valid_tickers_pass() {
    assert!(validate_ticker_symbol("AAPL").is_ok());
    assert!(validate_ticker_symbol("BRK.B").is_ok());
    assert!(validate_ticker_symbol("BF-B").is_ok());
    assert!(validate_ticker_symbol("ABCDEFGHIJ").is_ok());
}

#[test]
fn empty_ticker_is_refused() {
    assert_eq!(validation_message(validate_ticker_symbol("")), "Ticker symbol cannot be empty");
}

#[test]
fn long_ticker_is_refused() {
    assert_eq!(validation_message(validate_ticker_symbol("ABCDEFGHIJK")), "Ticker symbol too long");
}

#[test]
fn ticker_length_counts_bytes() {
    // six two-byte characters: twelve bytes
    assert_eq!(validation_message(validate_ticker_symbol("ÄÄÄÄÄÄ")), "Ticker symbol too long");
    assert!(validate_ticker_symbol("ÄÄÄÄÄ").is_ok());
}

#[test]
fn bad_characters_are_refused() {
    assert_eq!(
        validation_message(validate_ticker_symbol("AA PL")),
        "Invalid characters in ticker symbol"
    );
    assert_eq!(
        validation_message(validate_ticker_symbol("A$")),
        "Invalid characters in ticker symbol"
    );
}

#[test]
fn normalization_trims_and_uppercases() {
    assert_eq!(normalize_ticker_symbol("  aapl \t"), "AAPL");
    assert_eq!(normalize_ticker_symbol("msft"), "MSFT");
    assert_eq!(normalize_ticker_symbol("   "), "");
}

#[test]
fn clean_symbols_in_order() {
    let input = vec![" aapl".to_string(), "msft ".to_string(), "brk.b".to_string()];
    let out = validate_and_clean_symbols(&input).ok().unwrap();
    assert_eq!(out, vec!["AAPL", "MSFT", "BRK.B"]);
}

#[test]
fn clean_symbols_reports_first_invalid() {
    let input = vec!["aapl".to_string(), "a b".to_string(), "".to_string()];
    match validate_and_clean_symbols(&input) {
        Err(ApiError::ValidationError(m)) => assert_eq!(m, "Invalid characters in ticker symbol"),
        _ => panic!("expected a validation error"),
    }
}

#[test]
fn clean_symbols_refuses_empty_list() {
    match validate_and_clean_symbols(&[]) {
        Err(ApiError::ValidationError(m)) => assert_eq!(m, "At least one symbol is required"),
        _ => panic!("expected a validation error"),
    }
}

#[test]
fn ticker_symbol_new() {
    let t = TickerSymbol::new("  tsla ".to_string()).ok().unwrap();
    assert_eq!(t.as_str(), "TSLA");
    assert_eq!(TickerSymbol::new("   ".to_string()).err().unwrap(), "Invalid ticker symbol");
    assert_eq!(
        TickerSymbol::new("abcdefghijk".to_string()).err().unwrap(),
        "Invalid ticker symbol"
    );
}

#[test]
fn renamed_underlying_is_mapped() {
    assert_eq!(contracts_underlying("FB"), "META");
    assert_eq!(contracts_underlying("AAPL"), "AAPL");
    assert_eq!(contracts_underlying("FBX"), "FBX");
}

#[test]
fn merge_keeps_first_seen_order() {
    let all: Vec<String> = ["TSLA", "AAPL", "TSLA", "NVDA", "AAPL", "AMD"]
        .iter()
        .map(|s| s.to_string())
        .collect();
    assert_eq!(merge_unique_symbols(&all), vec!["TSLA", "AAPL", "NVDA", "AMD"]);
    assert!(merge_unique_symbols(&Vec::new()).is_empty());
}
