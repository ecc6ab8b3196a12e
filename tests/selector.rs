use trading_api::selector::{
    combine_windows, contracts_status_message, leap_window, pick_highest_open_interest,
    quote_symbol, short_term_window, window_dates, HighOpenInterestResult, LEAP_FIRST_DAY,
};

#[test]
fn picks_highest_open_interest_in_any_order() {
    let orders: [[u64; 3]; 6] = [
        [10, 500, 50],
        [10, 50, 500],
        [500, 10, 50],
        [500, 50, 10],
        [50, 10, 500],
        [50, 500, 10],
    ];
    for order in orders.iter() {
        let ois: Vec<Option<u64>> = order.iter().map(|v| Some(*v)).collect();
        let i = pick_highest_open_interest(&ois).unwrap();
        assert_eq!(ois[i], Some(500));
    }
}

#[test]
fn missing_open_interest_counts_as_zero() {
    let ois = vec![None, Some(0), Some(3), None];
    assert_eq!(pick_highest_open_interest(&ois), Some(2));
    let ties = vec![None, Some(0)];
    assert_eq!(pick_highest_open_interest(&ties), Some(0));
    assert_eq!(pick_highest_open_interest(&Vec::new()), None);
}

#[test]
fn first_of_equal_open_interest_wins() {
    let ois = vec![Some(5), Some(9), Some(9)];
    assert_eq!(pick_highest_open_interest(&ois), Some(1));
}

#[test]
fn windows_from_today() {
    // 2024-01-01 is day 738886 counted from 0001-01-01
    let today = 738_886;
    let s = short_term_window(today);
    assert_eq!((s.from_day, s.to_day), (today + 1, today + 60));
    let l = leap_window(today);
    assert_eq!((l.from_day, l.to_day), (today + LEAP_FIRST_DAY, today + 730));
    let (a, b) = window_dates(&s).unwrap();
    assert_eq!(a, "2024-01-02");
    assert_eq!(b, "2024-03-01");
    let (c, d) = window_dates(&l).unwrap();
    assert_eq!(c, "2024-12-31");
    assert_eq!(d, "2025-12-31");
}

#[test]
fn window_outside_calendar_has_no_dates() {
    let w = short_term_window(i32::MAX - 60);
    assert!(window_dates(&w).is_none());
}

#[test]
fn combine_keeps_each_window() {
    let r: HighOpenInterestResult<u32> = combine_windows(Ok(Some(1)), Ok(Some(2)));
    assert_eq!((r.short_term, r.leap, r.error), (Some(1), Some(2), None));
    let r: HighOpenInterestResult<u32> = combine_windows(Ok(None), Ok(None));
    assert_eq!((r.short_term, r.leap, r.error), (None, None, None));
}

#[test]
fn one_failed_window_does_not_hide_the_other() {
    let r: HighOpenInterestResult<u32> = combine_windows(Err("down".to_string()), Ok(Some(2)));
    assert_eq!((r.short_term, r.leap, r.error), (None, Some(2), Some("down".to_string())));
    let r: HighOpenInterestResult<u32> = combine_windows(Ok(Some(1)), Err("late".to_string()));
    assert_eq!((r.short_term, r.leap, r.error), (Some(1), None, Some("late".to_string())));
    let r: HighOpenInterestResult<u32> =
        combine_windows(Err("first".to_string()), Err("second".to_string()));
    assert_eq!(r.error, Some("first".to_string()));
}

#[test]
fn status_messages() {
    assert_eq!(
        contracts_status_message("BAD_TICKER", 422).unwrap(),
        "Invalid ticker symbol: BAD_TICKER"
    );
    assert_eq!(
        contracts_status_message("FB", 422).unwrap(),
        "Invalid ticker symbol: FB (Note: Meta's ticker changed from FB to META in June 2022)"
    );
    assert_eq!(contracts_status_message("AAPL", 429).unwrap(), "Rate limit hit for AAPL");
    assert!(contracts_status_message("AAPL", 500).is_none());
}

#[test]
fn quote_symbol_replaces_renamed_root() {
    assert_eq!(quote_symbol("FB240119C00300000"), "META240119C00300000");
    assert_eq!(quote_symbol("AAPL240119C00150000"), "AAPL240119C00150000");
}

#[test]
fn batch_keeps_every_ticker_in_order() {
    let tickers = ["AAPL", "BAD_TICKER"];
    let mut batch: Vec<(String, HighOpenInterestResult<u64>)> = Vec::new();
    for t in tickers.iter() {
        let result = if *t == "AAPL" {
            combine_windows(Ok(Some(500)), Ok(Some(120)))
        } else {
            let m = contracts_status_message(t, 422).unwrap();
            combine_windows(Err(m.clone()), Err(m))
        };
        batch.push((t.to_string(), result));
    }
    assert_eq!(batch.len(), 2);
    assert_eq!(batch[0].0, "AAPL");
    assert_eq!(batch[0].1.short_term, Some(500));
    assert!(batch[0].1.error.is_none());
    assert_eq!(batch[1].0, "BAD_TICKER");
    assert_eq!(batch[1].1.error, Some("Invalid ticker symbol: BAD_TICKER".to_string()));
}

#[test]
fn window_dates_within_four_digit_years() {
    let first = trading_api::selector::ExpirationWindow { from_day: 1, to_day: trading_api::selector::LAST_FOUR_DIGIT_DAY };
    let (a, b) = window_dates(&first).unwrap();
    assert_eq!(a, "0001-01-01");
    assert_eq!(b, "9999-12-31");
}
