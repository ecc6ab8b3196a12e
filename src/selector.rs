//! Choice of the most liquid option contract per expiration window, and the
//! per-ticker result that reports it.

use vstd::prelude::*;
use vstd::string::*;

use crate::symbols::listed_underlying;
use crate::text::same_text;

verus! {

/// The ISO 8601 calendar date of a day counted from 0001-01-01 as day 1, as chrono writes
/// it: `YYYY-MM-DD`, with an explicit sign for years outside 0 to 9999.
pub uninterp spec fn iso_date_of(day: int) -> Seq<char>;

/// The last day that has a four-digit year: 9999-12-31.
pub const LAST_FOUR_DIGIT_DAY: i32 = 3_652_059;

/// Relies on chrono's `NaiveDate::from_num_days_from_ce_opt`, which gives `None` only outside
/// chrono's range of years (about 262,000 years either side of year 1), and on `NaiveDate`'s
/// `Display`, which writes `%Y-%m-%d`.
#[verifier::external_body]
fn iso_date(day: i32) -> (r: Option<String>)
    ensures
        r matches Some(s) ==> s@ == iso_date_of(day as int),
        1 <= day <= LAST_FOUR_DIGIT_DAY ==> r is Some,
{
    match chrono::NaiveDate::from_num_days_from_ce_opt(day) {
        Some(d) => Some(d.to_string()),
        None => None,
    }
}

/// First day of the short-term window, in days from today.
pub const SHORT_TERM_FIRST_DAY: i32 = 1;

/// Last day of the short-term window, in days from today.
pub const SHORT_TERM_LAST_DAY: i32 = 60;

/// First day of the long-dated (LEAP) window, in days from today.
pub const LEAP_FIRST_DAY: i32 = 365;

/// Last day of the long-dated (LEAP) window, in days from today.
pub const LEAP_LAST_DAY: i32 = 730;

/// A range of expiration days, both ends included, counted from 0001-01-01 as day 1.
#[derive(Clone, Copy, Debug, PartialEq, Eq, Structural)]
pub struct ExpirationWindow {
    pub from_day: i32,
    pub to_day: i32,
}

/// The short-term window seen from `today`: from tomorrow to sixty days ahead.
pub fn short_term_window(today: i32) -> (r: ExpirationWindow)
    requires
        today <= i32::MAX - SHORT_TERM_LAST_DAY,
    ensures
        r.from_day == today + SHORT_TERM_FIRST_DAY,
        r.to_day == today + SHORT_TERM_LAST_DAY,
{
    ExpirationWindow { from_day: today + SHORT_TERM_FIRST_DAY, to_day: today + SHORT_TERM_LAST_DAY }
}

/// The long-dated window seen from `today`: from one year to two years ahead.
pub fn leap_window(today: i32) -> (r: ExpirationWindow)
    requires
        today <= i32::MAX - LEAP_LAST_DAY,
    ensures
        r.from_day == today + LEAP_FIRST_DAY,
        r.to_day == today + LEAP_LAST_DAY,
{
    ExpirationWindow { from_day: today + LEAP_FIRST_DAY, to_day: today + LEAP_LAST_DAY }
}

/// The two ends of a window as calendar dates, as the contracts provider takes them;
/// `None` only where a day lies outside the calendar's range.
pub fn window_dates(w: &ExpirationWindow) -> (r: Option<(String, String)>)
    ensures
        r matches Some(p) ==> p.0@ == iso_date_of(w.from_day as int) && p.1@ == iso_date_of(
            w.to_day as int,
        ),
        1 <= w.from_day <= LAST_FOUR_DIGIT_DAY && 1 <= w.to_day <= LAST_FOUR_DIGIT_DAY ==> r is Some,
{
    match (iso_date(w.from_day), iso_date(w.to_day)) {
        (Some(a), Some(b)) => Some((a, b)),
        _ => None,
    }
}

/// Open interest as ranked: a missing figure counts as zero.
pub open spec fn oi_value(o: Option<u64>) -> u64 {
    match o {
        Some(v) => v,
        None => 0,
    }
}

/// Position `i` holds the highest open interest of `s`, and no earlier position holds as much.
pub open spec fn is_highest(s: Seq<Option<u64>>, i: int) -> bool {
    &&& 0 <= i < s.len()
    &&& forall|j: int| 0 <= j < s.len() ==> oi_value(#[trigger] s[j]) <= oi_value(s[i])
    &&& forall|j: int| 0 <= j < i ==> oi_value(#[trigger] s[j]) < oi_value(s[i])
}

/// Picks the contract with the highest open interest (the first of equals) among listed
/// contracts given by their open interest; `None` when nothing is listed.
pub fn pick_highest_open_interest(open_interests: &Vec<Option<u64>>) -> (r: Option<usize>)
    ensures
        r is None <==> open_interests@.len() == 0,
        r matches Some(i) ==> is_highest(open_interests@, i as int),
{
    if open_interests.len() == 0 {
        return None;
    }
    let mut best: usize = 0;
    let mut best_oi: u64 = match open_interests[0] {
        Some(v) => v,
        None => 0,
    };
    let mut i: usize = 1;
    while i < open_interests.len()
        invariant
            1 <= i <= open_interests@.len(),
            best < i,
            best_oi == oi_value(open_interests@[best as int]),
            forall|j: int| 0 <= j < i ==> oi_value(#[trigger] open_interests@[j]) <= best_oi,
            forall|j: int| 0 <= j < best ==> oi_value(#[trigger] open_interests@[j]) < best_oi,
        decreases open_interests@.len() - i,
    {
        let oi = match open_interests[i] {
            Some(v) => v,
            None => 0,
        };
        if oi > best_oi {
            best = i;
            best_oi = oi;
        }
        i = i + 1;
    }
    Some(best)
}

/// The pick does not depend on the order in which the provider lists the contracts:
/// in any reordering of the same listing the picked contract has the same open interest.
pub proof fn lemma_pick_order_independent(a: Seq<Option<u64>>, b: Seq<Option<u64>>, i: int, j: int)
    requires
        a.to_multiset() == b.to_multiset(),
        is_highest(a, i),
        is_highest(b, j),
    ensures
        oi_value(a[i]) == oi_value(b[j]),
{
    a.to_multiset_ensures();
    b.to_multiset_ensures();
    assert(a.to_multiset().count(a[i]) > 0);
    assert(b.contains(a[i]));
    let k = choose|k: int| 0 <= k < b.len() && b[k] == a[i];
    assert(oi_value(b[k]) <= oi_value(b[j]));
    assert(b.to_multiset().count(b[j]) > 0);
    assert(a.contains(b[j]));
    let l = choose|l: int| 0 <= l < a.len() && a[l] == b[j];
    assert(oi_value(a[l]) <= oi_value(a[i]));
}

/// The contracts chosen for one ticker: at most one short-term and one long-dated contract,
/// and a note on what failed, if anything did.
pub struct HighOpenInterestResult<C> {
    pub short_term: Option<C>,
    pub leap: Option<C>,
    pub error: Option<String>,
}

/// What one window's lookup yielded: `None` for a failure or for no contract.
pub open spec fn window_pick<C>(w: Result<Option<C>, String>) -> Option<C> {
    match w {
        Ok(c) => c,
        Err(_) => None,
    }
}

/// Combines the lookups of the two windows into one result; a failure in one window does not
/// hide the other's contract, and the first failure's message becomes the note.
pub fn combine_windows<C>(short_term: Result<Option<C>, String>, leap: Result<Option<C>, String>) -> (r:
    HighOpenInterestResult<C>)
    ensures
        r.short_term == window_pick(short_term),
        r.leap == window_pick(leap),
        match (short_term, leap) {
            (Err(m), _) => r.error matches Some(e) && e@ == m@,
            (Ok(_), Err(m)) => r.error matches Some(e) && e@ == m@,
            (Ok(_), Ok(_)) => r.error is None,
        },
{
    match (short_term, leap) {
        (Err(m), l) => HighOpenInterestResult {
            short_term: None,
            leap: match l {
                Ok(c) => c,
                Err(_) => None,
            },
            error: Some(m),
        },
        (Ok(s), Err(m)) => HighOpenInterestResult { short_term: s, leap: None, error: Some(m) },
        (Ok(s), Ok(l)) => HighOpenInterestResult { short_term: s, leap: l, error: None },
    }
}

/// The message for a contracts lookup that the provider refused with `status`, where the
/// status has a message of its own: an unknown symbol (422) or a rate limit (429).
pub open spec fn status_message(ticker: Seq<char>, status: u16) -> Option<Seq<char>> {
    if status == 422 {
        if listed_underlying(ticker) == "META"@ {
            Some(
                "Invalid ticker symbol: "@ + ticker
                    + " (Note: Meta's ticker changed from FB to META in June 2022)"@,
            )
        } else {
            Some("Invalid ticker symbol: "@ + ticker)
        }
    } else if status == 429 {
        Some("Rate limit hit for "@ + ticker)
    } else {
        None
    }
}

/// Describes a refused contracts lookup for the statuses that have a message of their own.
pub fn contracts_status_message(ticker: &str, status: u16) -> (r: Option<String>)
    ensures
        match r {
            Some(m) => status_message(ticker@, status) == Some(m@),
            None => status_message(ticker@, status) is None,
        },
{
    if status == 422 {
        let mut m = String::from_str("Invalid ticker symbol: ");
        m.append(ticker);
        if same_text(crate::symbols::contracts_underlying(ticker), "META") {
            m.append(" (Note: Meta's ticker changed from FB to META in June 2022)");
        }
        Some(m)
    } else if status == 429 {
        let mut m = String::from_str("Rate limit hit for ");
        m.append(ticker);
        Some(m)
    } else {
        None
    }
}

/// `s` with every occurrence of `from` replaced by `to`, matches taken left to right.
pub open spec fn replace_all(s: Seq<char>, from: Seq<char>, to: Seq<char>) -> Seq<char>
    decreases s.len(),
{
    if s.len() == 0 {
        s
    } else if 0 < from.len() <= s.len() && s.take(from.len() as int) == from {
        to + replace_all(s.skip(from.len() as int), from, to)
    } else {
        seq![s[0]] + replace_all(s.drop_first(), from, to)
    }
}

/// Relies on `str::replace`: each non-overlapping match of the pattern, found from the left,
/// is replaced.
#[verifier::external_body]
fn replace_text(s: &str, from: &str, to: &str) -> (r: String)
    requires
        from@.len() > 0,
    ensures
        r@ == replace_all(s@, from@, to@),
{
    s.replace(from, to)
}

/// The contract symbol under which quotes are requested: the renamed underlying's old
/// symbol is replaced by its current one.
pub fn quote_symbol(contract_symbol: &str) -> (r: String)
    ensures
        r@ == replace_all(contract_symbol@, "FB"@, "META"@),
{
    proof {
        reveal_strlit("FB");
    }
    replace_text(contract_symbol, "FB", "META")
}

} // verus!
