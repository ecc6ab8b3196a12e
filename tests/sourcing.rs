use trading_api::errors::ApiError;
use trading_api::mentions::{is_common_word, tickers_in_post};
use trading_api::sourcing::{
    check_yahoo_only, finish_symbols, parse_order, parse_screener, parse_signal, screener_symbols,
    symbol_source, yahoo_screener, ScreenerOrder, ScreenerSignal, ScreenerView, SymbolSource,
};
use trading_api::text::eq_ignore_ascii_case;

#[test]
fn post_mentions_skip_common_words() {
    let found = tickers_in_post("Why GME and amc will moon", "I think the NVDA call is cheap");
    assert_eq!(found, vec!["WHY", "GME", "AMC", "MOON", "I", "THINK", "NVDA", "IS", "CHEAP"]);
}

#[test]
fn post_mentions_need_word_boundaries() {
    assert_eq!(tickers_in_post("TOOLONGWORD", ""), Vec::<String>::new());
    assert_eq!(tickers_in_post("", "ab-cd"), vec!["AB", "CD"]);
}

#[test]
fn common_words() {
    assert!(is_common_word("THE"));
    assert!(is_common_word("PART"));
    assert!(!is_common_word("TSLA"));
    assert!(!is_common_word("the"));
}

#[test]
fn source_names() {
    assert_eq!(symbol_source(None), SymbolSource::Both);
    assert_eq!(symbol_source(Some("Yahoo")), SymbolSource::Yahoo);
    assert_eq!(symbol_source(Some("FINVIZ")), SymbolSource::Finviz);
    assert_eq!(symbol_source(Some("both")), SymbolSource::Both);
    assert_eq!(symbol_source(Some("reddit")), SymbolSource::Neither);
    assert!(SymbolSource::Both.uses_yahoo() && SymbolSource::Both.uses_finviz());
    assert!(!SymbolSource::Yahoo.uses_finviz());
    assert!(!SymbolSource::Neither.uses_yahoo());
}

#[test]
fn screener_names() {
    assert_eq!(yahoo_screener("Trending"), None);
    assert_eq!(yahoo_screener("GAINERS"), Some("day_gainers"));
    assert_eq!(yahoo_screener("losers"), Some("day_losers"));
    assert_eq!(yahoo_screener("actives"), Some("most_actives"));
    assert_eq!(yahoo_screener("anything"), Some("most_actives"));
}

#[test]
fn ascii_case_comparison() {
    assert!(eq_ignore_ascii_case("TrEnDiNg", "trending"));
    assert!(!eq_ignore_ascii_case("trend", "trending"));
    assert!(!eq_ignore_ascii_case("Ä", "ä"));
}

#[test]
fn yahoo_only_needs_symbols() {
    assert!(check_yahoo_only(SymbolSource::Yahoo, 1).is_ok());
    assert!(check_yahoo_only(SymbolSource::Both, 0).is_ok());
    match check_yahoo_only(SymbolSource::Yahoo, 0) {
        Err(ApiError::BadRequest(m)) => {
            assert_eq!(m, "symbols_source=yahoo requires yahoo_search or 'symbols'/'symbol' params")
        }
        _ => panic!("expected a bad request"),
    }
}

#[test]
fn finished_symbols() {
    let s: Vec<String> = ["A", "B", "A"].iter().map(|x| x.to_string()).collect();
    assert_eq!(finish_symbols(&s).ok().unwrap(), vec!["A", "B"]);
    match finish_symbols(&Vec::new()) {
        Err(ApiError::BadRequest(m)) => assert_eq!(m, "no symbols available"),
        _ => panic!("expected a bad request"),
    }
}

fn row(cells: &[&str]) -> Vec<String> {
    cells.iter().map(|c| c.to_string()).collect()
}

#[test]
fn screener_names_parse() {
    assert_eq!(parse_signal("TopLosers"), ScreenerSignal::TopLosers);
    assert_eq!(parse_signal("NewLow"), ScreenerSignal::NewLow);
    assert_eq!(parse_signal("whatever"), ScreenerSignal::TopGainers);
    assert_eq!(parse_order("MarketCap"), ScreenerOrder::MarketCap);
    assert_eq!(parse_order("marketcap"), ScreenerOrder::Price);
    assert_eq!(parse_screener("Ownership"), ScreenerView::Ownership);
    assert_eq!(parse_screener("Technical"), ScreenerView::Performance);
}

#[test]
fn screener_rows_to_symbols() {
    let rows = vec![row(&["Ticker", "Company"]), row(&["AAPL", "Apple"]), row(&[]), row(&["", "x"]), row(&["MSFT"])];
    assert_eq!(screener_symbols(&rows, 10), vec!["AAPL", "MSFT"]);
    assert_eq!(screener_symbols(&rows, 2), vec!["AAPL"]);
    assert!(screener_symbols(&rows, 0).is_empty());
}
