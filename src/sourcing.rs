//! Where the symbols of an options recommendation come from.

use vstd::prelude::*;
use vstd::string::*;

use crate::errors::ApiError;
use crate::symbols::{first_seen, merge_unique_symbols};
use crate::text::{eq_ignore_ascii_case, lower_of, lowercase, same_ignoring_ascii_case, same_text};

verus! {

/// Which listings supply the symbols.
#[derive(Debug, Clone, Copy, PartialEq, Eq, Structural)]
pub enum SymbolSource {
    Yahoo,
    Finviz,
    Both,
    /// A name that is none of the above: no listing is asked.
    Neither,
}

/// The source that a name selects, compared in lower case.
pub open spec fn source_of(name: Seq<char>) -> SymbolSource {
    let l = lower_of(name);
    if l == "yahoo"@ {
        SymbolSource::Yahoo
    } else if l == "finviz"@ {
        SymbolSource::Finviz
    } else if l == "both"@ {
        SymbolSource::Both
    } else {
        SymbolSource::Neither
    }
}

/// The source that the request names; both listings when it names none.
pub fn symbol_source(name: Option<&str>) -> (r: SymbolSource)
    ensures
        r == match name {
            Some(n) => source_of(n@),
            None => SymbolSource::Both,
        },
{
    match name {
        Some(n) => {
            let l = lowercase(n);
            if same_text(l.as_str(), "yahoo") {
                SymbolSource::Yahoo
            } else if same_text(l.as_str(), "finviz") {
                SymbolSource::Finviz
            } else if same_text(l.as_str(), "both") {
                SymbolSource::Both
            } else {
                SymbolSource::Neither
            }
        },
        None => SymbolSource::Both,
    }
}

impl SymbolSource {
    /// Whether the quote site's lists are asked.
    pub fn uses_yahoo(&self) -> (r: bool)
        ensures
            r == (*self == SymbolSource::Yahoo || *self == SymbolSource::Both),
    {
        match self {
            SymbolSource::Yahoo | SymbolSource::Both => true,
            _ => false,
        }
    }

    /// Whether the screener is asked.
    pub fn uses_finviz(&self) -> (r: bool)
        ensures
            r == (*self == SymbolSource::Finviz || *self == SymbolSource::Both),
    {
        match self {
            SymbolSource::Finviz | SymbolSource::Both => true,
            _ => false,
        }
    }
}

/// The quote site's predefined screener that a list name selects (case aside): `None` for the
/// trending list, day gainers or day losers by name, the most active otherwise.
pub open spec fn screener_of(list: Seq<char>) -> Option<Seq<char>> {
    if same_ignoring_ascii_case(list, "trending"@) {
        None
    } else if same_ignoring_ascii_case(list, "gainers"@) {
        Some("day_gainers"@)
    } else if same_ignoring_ascii_case(list, "losers"@) {
        Some("day_losers"@)
    } else {
        Some("most_actives"@)
    }
}

/// The predefined screener for a list name; `None` when the trending list is meant.
pub fn yahoo_screener(list: &str) -> (r: Option<&'static str>)
    ensures
        match r {
            Some(id) => screener_of(list@) == Some(id@),
            None => screener_of(list@) is None,
        },
{
    if eq_ignore_ascii_case(list, "trending") {
        None
    } else if eq_ignore_ascii_case(list, "gainers") {
        Some("day_gainers")
    } else if eq_ignore_ascii_case(list, "losers") {
        Some("day_losers")
    } else {
        Some("most_actives")
    }
}

/// With the quote site as the only source, the request must have yielded some symbol.
pub fn check_yahoo_only(source: SymbolSource, n_symbols: usize) -> (r: Result<(), ApiError>)
    ensures
        match r {
            Ok(_) => !(source == SymbolSource::Yahoo && n_symbols == 0),
            Err(ApiError::BadRequest(m)) => source == SymbolSource::Yahoo && n_symbols == 0 && m@
                == "symbols_source=yahoo requires yahoo_search or 'symbols'/'symbol' params"@,
            Err(_) => false,
        },
{
    if source == SymbolSource::Yahoo && n_symbols == 0 {
        return Err(
            ApiError::BadRequest(
                String::from_str(
                    "symbols_source=yahoo requires yahoo_search or 'symbols'/'symbol' params",
                ),
            ),
        );
    }
    Ok(())
}

/// The sourced symbols without repeats, first occurrences in order; none at all is refused.
pub fn finish_symbols(symbols: &Vec<String>) -> (r: Result<Vec<String>, ApiError>)
    ensures
        match r {
            Ok(v) => v@.map_values(|x: String| x@) == first_seen(
                symbols@.map_values(|x: String| x@),
            ) && v@.len() > 0,
            Err(ApiError::BadRequest(m)) => first_seen(symbols@.map_values(|x: String| x@)).len()
                == 0 && m@ == "no symbols available"@,
            Err(_) => false,
        },
{
    let unique = merge_unique_symbols(symbols);
    if unique.len() == 0 {
        return Err(ApiError::BadRequest(String::from_str("no symbols available")));
    }
    Ok(unique)
}

/// The screener's signals that a request may name.
#[derive(Debug, Clone, Copy, PartialEq, Eq, Structural)]
pub enum ScreenerSignal {
    TopGainers,
    TopLosers,
    NewHigh,
    NewLow,
}

/// The screener's sort orders that a request may name.
#[derive(Debug, Clone, Copy, PartialEq, Eq, Structural)]
pub enum ScreenerOrder {
    Price,
    MarketCap,
    Change,
}

/// The screener's table views that a request may name.
#[derive(Debug, Clone, Copy, PartialEq, Eq, Structural)]
pub enum ScreenerView {
    Financial,
    Ownership,
    Performance,
}

/// The signal a name selects; unknown names select top gainers.
pub open spec fn signal_of(name: Seq<char>) -> ScreenerSignal {
    if name == "TopLosers"@ {
        ScreenerSignal::TopLosers
    } else if name == "NewHigh"@ {
        ScreenerSignal::NewHigh
    } else if name == "NewLow"@ {
        ScreenerSignal::NewLow
    } else {
        ScreenerSignal::TopGainers
    }
}

/// The sort order a name selects; unknown names sort by price.
pub open spec fn order_of(name: Seq<char>) -> ScreenerOrder {
    if name == "MarketCap"@ {
        ScreenerOrder::MarketCap
    } else if name == "Change"@ {
        ScreenerOrder::Change
    } else {
        ScreenerOrder::Price
    }
}

/// The view a name selects; unknown names select the performance view.
pub open spec fn view_of(name: Seq<char>) -> ScreenerView {
    if name == "Financial"@ {
        ScreenerView::Financial
    } else if name == "Ownership"@ {
        ScreenerView::Ownership
    } else {
        ScreenerView::Performance
    }
}

/// Reads a screener signal name.
pub fn parse_signal(name: &str) -> (r: ScreenerSignal)
    ensures
        r == signal_of(name@),
{
    if same_text(name, "TopLosers") {
        ScreenerSignal::TopLosers
    } else if same_text(name, "NewHigh") {
        ScreenerSignal::NewHigh
    } else if same_text(name, "NewLow") {
        ScreenerSignal::NewLow
    } else {
        ScreenerSignal::TopGainers
    }
}

/// Reads a screener sort-order name.
pub fn parse_order(name: &str) -> (r: ScreenerOrder)
    ensures
        r == order_of(name@),
{
    if same_text(name, "MarketCap") {
        ScreenerOrder::MarketCap
    } else if same_text(name, "Change") {
        ScreenerOrder::Change
    } else {
        ScreenerOrder::Price
    }
}

/// Reads a screener view name.
pub fn parse_screener(name: &str) -> (r: ScreenerView)
    ensures
        r == view_of(name@),
{
    if same_text(name, "Financial") {
        ScreenerView::Financial
    } else if same_text(name, "Ownership") {
        ScreenerView::Ownership
    } else {
        ScreenerView::Performance
    }
}

/// The first cell of a row, where it is a ticker: not empty and not the header's `Ticker`.
pub open spec fn row_ticker(row: Seq<String>) -> Option<Seq<char>> {
    if row.len() > 0 && row[0]@.len() > 0 && row[0]@ != "Ticker"@ {
        Some(row[0]@)
    } else {
        None
    }
}

/// The tickers of a run of screener rows, in order.
pub open spec fn row_tickers(rows: Seq<Vec<String>>) -> Seq<Seq<char>>
    decreases rows.len(),
{
    if rows.len() == 0 {
        Seq::empty()
    } else {
        let t = row_tickers(rows.drop_last());
        match row_ticker(rows.last()@) {
            Some(x) => t.push(x),
            None => t,
        }
    }
}

/// The tickers of the first `limit` rows of a screener table, the header row skipped.
pub fn screener_symbols(rows: &Vec<Vec<String>>, limit: usize) -> (r: Vec<String>)
    ensures
        r@.map_values(|x: String| x@) == row_tickers(
            if rows@.len() > limit {
                rows@.take(limit as int)
            } else {
                rows@
            },
        ),
{
    let n = if rows.len() > limit {
        limit
    } else {
        rows.len()
    };
    let ghost head = if rows@.len() > limit {
        rows@.take(limit as int)
    } else {
        rows@
    };
    let mut out: Vec<String> = Vec::new();
    let mut i: usize = 0;
    while i < n
        invariant
            n <= rows@.len(),
            head == rows@.take(n as int),
            i <= n,
            out@.map_values(|x: String| x@) == row_tickers(head.take(i as int)),
        decreases n - i,
    {
        assert(head.take(i as int + 1).drop_last() =~= head.take(i as int));
        assert(head.take(i as int + 1).last() == rows@[i as int]);
        let row = &rows[i];
        if row.len() > 0 && row[0].as_str().unicode_len() > 0 && !same_text(row[0].as_str(), "Ticker") {
            let ghost before = out@.map_values(|x: String| x@);
            out.push(row[0].clone());
            assert(out@.map_values(|x: String| x@) =~= before.push(rows@[i as int]@[0]@));
        }
        i = i + 1;
    }
    assert(head.take(n as int) =~= head);
    out
}

} // verus!
