//! The integer parts of contract scoring and of the data-sufficiency policy.
//!
//! Scores are tenths here: a liquidity score of 0.7 is 7.

use vstd::prelude::*;

verus! {

/// Fewest price points for which a ticker's history is analysed.
pub const MIN_PRICE_POINTS: usize = 10;

/// Whether a price history is long enough to be analysed; shorter ones are skipped.
pub fn has_enough_history(n_prices: usize) -> (r: bool)
    ensures
        r == (n_prices >= MIN_PRICE_POINTS),
{
    n_prices >= MIN_PRICE_POINTS
}

/// Liquidity score of a contract in tenths, by open interest: 10 above 1000, 7 above 500,
/// 4 above 100, 1 otherwise.
pub open spec fn liquidity_tenths_of(open_interest: u64) -> u8 {
    if open_interest > 1000 {
        10
    } else if open_interest > 500 {
        7
    } else if open_interest > 100 {
        4
    } else {
        1
    }
}

/// Liquidity score of a contract in tenths; a missing open interest counts as zero.
pub fn liquidity_tenths(open_interest: Option<u64>) -> (r: u8)
    ensures
        r == liquidity_tenths_of(
            match open_interest {
                Some(v) => v,
                None => 0,
            },
        ),
{
    let oi = match open_interest {
        Some(v) => v,
        None => 0,
    };
    if oi > 1000 {
        10
    } else if oi > 500 {
        7
    } else if oi > 100 {
        4
    } else {
        1
    }
}

/// Whether a contract counts as liquid: open interest above 500, a missing one counting as zero.
pub fn is_liquid(open_interest: Option<u64>) -> (r: bool)
    ensures
        r == (open_interest matches Some(v) && v > 500),
{
    match open_interest {
        Some(v) => v > 500,
        None => false,
    }
}

} // verus!
