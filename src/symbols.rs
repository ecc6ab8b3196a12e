//! Ticker symbols: cleaning, validation, renamed listings and de-duplication.

use vstd::prelude::*;
use vstd::string::*;

use crate::errors::ApiError;
use crate::text::{
    alphanumeric, is_alphanumeric, same_text, trim_text, trimmed, upper_of, uppercase, utf8_len,
    utf8_len_at_most,
};

verus! {

/// Longest accepted ticker, in bytes.
pub const MAX_TICKER_BYTES: usize = 10;

/// A character that may stand in a ticker: a letter or digit, a dot or a hyphen.
pub open spec fn ticker_char(c: char) -> bool {
    alphanumeric(c) || c == '.' || c == '-'
}

/// What is wrong with a ticker, if anything, in the words reported to the caller.
pub open spec fn ticker_problem(s: Seq<char>) -> Option<Seq<char>> {
    if s.len() == 0 {
        Some("Ticker symbol cannot be empty"@)
    } else if utf8_len(s) > MAX_TICKER_BYTES {
        Some("Ticker symbol too long"@)
    } else if exists|i: int| 0 <= i < s.len() && !ticker_char(#[trigger] s[i]) {
        Some("Invalid characters in ticker symbol"@)
    } else {
        None
    }
}

/// The cleaned form of a ticker: surrounding white space removed, upper case.
pub open spec fn normalized(s: Seq<char>) -> Seq<char> {
    upper_of(trimmed(s))
}

/// Checks a ticker: non-empty, at most ten bytes, only letters, digits, dots and hyphens.
pub fn validate_ticker_symbol(symbol: &str) -> (r: Result<(), ApiError>)
    ensures
        match r {
            Ok(_) => ticker_problem(symbol@) is None,
            Err(ApiError::ValidationError(m)) => ticker_problem(symbol@) == Some(m@),
            Err(_) => false,
        },
{
    let n = symbol.unicode_len();
    if n == 0 {
        return Err(ApiError::ValidationError(String::from_str("Ticker symbol cannot be empty")));
    }
    if !utf8_len_at_most(symbol, MAX_TICKER_BYTES) {
        return Err(ApiError::ValidationError(String::from_str("Ticker symbol too long")));
    }
    let mut i: usize = 0;
    while i < n
        invariant
            n == symbol@.len(),
            n > 0,
            utf8_len(symbol@) <= MAX_TICKER_BYTES,
            i <= n,
            forall|j: int| 0 <= j < i ==> ticker_char(#[trigger] symbol@[j]),
        decreases n - i,
    {
        let c = symbol.get_char(i);
        if !(is_alphanumeric(c) || c == '.' || c == '-') {
            assert(!ticker_char(symbol@[i as int]));
            return Err(
                ApiError::ValidationError(String::from_str("Invalid characters in ticker symbol")),
            );
        }
        i = i + 1;
    }
    Ok(())
}

/// Removes surrounding white space and upper-cases a ticker.
pub fn normalize_ticker_symbol(symbol: &str) -> (r: String)
    ensures
        r@ == normalized(symbol@),
{
    uppercase(trim_text(symbol))
}

/// The outcome of cleaning a list of tickers: each cleaned in order, the first that
/// fails validation reported, and an empty list refused.
pub open spec fn cleaned_symbols(symbols: Seq<String>) -> Result<Seq<Seq<char>>, Seq<char>> {
    if exists|i: int|
        0 <= i < symbols.len() && #[trigger] ticker_problem(normalized(symbols[i]@)) is Some {
        let i = choose|i: int|
            0 <= i < symbols.len() && #[trigger] ticker_problem(normalized(symbols[i]@)) is Some
                && forall|j: int|
                0 <= j < i ==> #[trigger] ticker_problem(normalized(symbols[j]@)) is None;
        Err(ticker_problem(normalized(symbols[i]@))->Some_0)
    } else if symbols.len() == 0 {
        Err("At least one symbol is required"@)
    } else {
        Ok(symbols.map_values(|s: String| normalized(s@)))
    }
}

proof fn lemma_first_problem(symbols: Seq<String>, i: int)
    requires
        0 <= i < symbols.len(),
        ticker_problem(normalized(symbols[i]@)) is Some,
        forall|j: int| 0 <= j < i ==> #[trigger] ticker_problem(normalized(symbols[j]@)) is None,
    ensures
        cleaned_symbols(symbols) == Err::<Seq<Seq<char>>, Seq<char>>(
            ticker_problem(normalized(symbols[i]@))->Some_0,
        ),
{
    let k = choose|k: int|
        0 <= k < symbols.len() && #[trigger] ticker_problem(normalized(symbols[k]@)) is Some
            && forall|j: int| 0 <= j < k ==> #[trigger] ticker_problem(normalized(symbols[j]@)) is None;
    if k < i {
        assert(ticker_problem(normalized(symbols[k]@)) is None);
    }
    if i < k {
        assert(ticker_problem(normalized(symbols[i]@)) is None);
    }
}

/// Cleans every ticker of a list and validates it; fails on the first invalid one, and on
/// an empty list.
pub fn validate_and_clean_symbols(symbols: &[String]) -> (r: Result<Vec<String>, ApiError>)
    ensures
        match r {
            Ok(v) => cleaned_symbols(symbols@) == Ok::<Seq<Seq<char>>, Seq<char>>(
                v@.map_values(|s: String| s@),
            ),
            Err(ApiError::ValidationError(m)) => cleaned_symbols(symbols@) == Err::<
                Seq<Seq<char>>,
                Seq<char>,
            >(m@),
            Err(_) => false,
        },
{
    let mut cleaned: Vec<String> = Vec::new();
    let mut i: usize = 0;
    while i < symbols.len()
        invariant
            i <= symbols@.len(),
            cleaned@.len() == i,
            forall|j: int| 0 <= j < i ==> #[trigger] ticker_problem(normalized(symbols@[j]@)) is None,
            forall|j: int| 0 <= j < i ==> #[trigger] cleaned@[j]@ == normalized(symbols@[j]@),
        decreases symbols@.len() - i,
    {
        let normalized_symbol = normalize_ticker_symbol(symbols[i].as_str());
        match validate_ticker_symbol(normalized_symbol.as_str()) {
            Ok(_) => {},
            Err(e) => {
                proof {
                    lemma_first_problem(symbols@, i as int);
                }
                return Err(e);
            },
        }
        cleaned.push(normalized_symbol);
        i = i + 1;
    }
    if cleaned.len() == 0 {
        return Err(ApiError::ValidationError(String::from_str("At least one symbol is required")));
    }
    assert(cleaned@.map_values(|s: String| s@) =~= symbols@.map_values(|s: String| normalized(s@)));
    Ok(cleaned)
}

/// A cleaned ticker: trimmed, upper case, one to ten bytes long.
#[derive(Clone, Debug, PartialEq, Eq, Hash)]
pub struct TickerSymbol(String);

impl TickerSymbol {
    pub closed spec fn view(&self) -> Seq<char> {
        self.0@
    }

    /// Cleans `s` into a ticker; refuses a result that is empty or longer than ten bytes.
    pub fn new(s: String) -> (r: Result<Self, String>)
        ensures
            match r {
                Ok(t) => t@ == normalized(s@) && normalized(s@).len() > 0 && utf8_len(
                    normalized(s@),
                ) <= MAX_TICKER_BYTES,
                Err(m) => m@ == "Invalid ticker symbol"@ && (normalized(s@).len() == 0 || utf8_len(
                    normalized(s@),
                ) > MAX_TICKER_BYTES),
            },
    {
        let cleaned = normalize_ticker_symbol(s.as_str());
        if cleaned.as_str().unicode_len() == 0 || !utf8_len_at_most(
            cleaned.as_str(),
            MAX_TICKER_BYTES,
        ) {
            return Err(String::from_str("Invalid ticker symbol"));
        }
        Ok(TickerSymbol(cleaned))
    }

    /// The ticker's text.
    pub fn as_str(&self) -> (r: &str)
        ensures
            r@ == self@,
    {
        self.0.as_str()
    }
}

/// The symbol that the contracts provider lists an underlying under: a renamed listing
/// is looked up under its current symbol.
pub open spec fn listed_underlying(ticker: Seq<char>) -> Seq<char> {
    if ticker == "FB"@ {
        "META"@
    } else {
        ticker
    }
}

/// Maps a ticker to the symbol its contracts are listed under.
pub fn contracts_underlying(ticker: &str) -> (r: &str)
    ensures
        r@ == listed_underlying(ticker@),
{
    if same_text(ticker, "FB") {
        "META"
    } else {
        ticker
    }
}

/// `s` with the tickers that occur earlier removed: the first occurrence of each is kept,
/// in the order of first appearance.
pub open spec fn first_seen(s: Seq<Seq<char>>) -> Seq<Seq<char>>
    decreases s.len(),
{
    if s.len() == 0 {
        s
    } else {
        let d = first_seen(s.drop_last());
        if d.contains(s.last()) {
            d
        } else {
            d.push(s.last())
        }
    }
}

/// Whether `v` holds a symbol equal to `s`.
fn holds_symbol(v: &Vec<String>, s: &String) -> (r: bool)
    ensures
        r == v@.map_values(|x: String| x@).contains(s@),
{
    let mut i: usize = 0;
    while i < v.len()
        invariant
            i <= v@.len(),
            forall|j: int| 0 <= j < i ==> v@[j]@ != s@,
        decreases v@.len() - i,
    {
        if v[i] == *s {
            assert(v@.map_values(|x: String| x@)[i as int] == s@);
            return true;
        }
        i = i + 1;
    }
    proof {
        let m = v@.map_values(|x: String| x@);
        if m.contains(s@) {
            let j = choose|j: int| 0 <= j < m.len() && m[j] == s@;
            assert(v@[j]@ == s@);
        }
    }
    false
}

/// Merges the symbols that several sources reported into one list without repeats,
/// keeping the first occurrence of each in order.
pub fn merge_unique_symbols(symbols: &Vec<String>) -> (r: Vec<String>)
    ensures
        r@.map_values(|x: String| x@) == first_seen(symbols@.map_values(|x: String| x@)),
{
    let mut out: Vec<String> = Vec::new();
    let ghost all = symbols@.map_values(|x: String| x@);
    let mut i: usize = 0;
    while i < symbols.len()
        invariant
            i <= symbols@.len(),
            all == symbols@.map_values(|x: String| x@),
            out@.map_values(|x: String| x@) == first_seen(all.take(i as int)),
        decreases symbols@.len() - i,
    {
        assert(all.take(i as int + 1).drop_last() =~= all.take(i as int));
        assert(all.take(i as int + 1).last() == symbols@[i as int]@);
        if !holds_symbol(&out, &symbols[i]) {
            let ghost before = out@;
            out.push(symbols[i].clone());
            assert(out@.map_values(|x: String| x@) =~= before.map_values(|x: String| x@).push(
                symbols@[i as int]@,
            ));
        }
        i = i + 1;
    }
    assert(all.take(i as int) =~= all);
    out
}

} // verus!
