//! Request parameters: sampling intervals and lists of symbols.

use vstd::prelude::*;
use vstd::string::*;

use crate::errors::ApiError;
use crate::text::{same_text, trim_text, trimmed};

verus! {

/// Periods per year of a sampling interval: weekly 52, monthly 12, anything else daily 252.
pub open spec fn periods_per_year_of(interval: Seq<char>) -> usize {
    if interval == "1wk"@ {
        52
    } else if interval == "1mo"@ {
        12
    } else {
        252
    }
}

/// Periods per year of a sampling interval label.
pub fn periods_per_year_from_interval(interval: &str) -> (r: usize)
    ensures
        r == periods_per_year_of(interval@),
{
    if same_text(interval, "1wk") {
        52
    } else if same_text(interval, "1mo") {
        12
    } else {
        252
    }
}

/// The pieces of `s` between commas, in order; a text without a comma is one piece.
pub open spec fn comma_pieces(s: Seq<char>) -> Seq<Seq<char>>
    decreases s.len(),
{
    if s.len() == 0 {
        seq![Seq::empty()]
    } else {
        let p = comma_pieces(s.drop_last());
        if s.last() == ',' {
            p.push(Seq::empty())
        } else {
            p.update(p.len() - 1, p.last().push(s.last()))
        }
    }
}

/// The trimmed pieces that are not empty, in order.
pub open spec fn kept_pieces(pieces: Seq<Seq<char>>) -> Seq<Seq<char>>
    decreases pieces.len(),
{
    if pieces.len() == 0 {
        Seq::empty()
    } else {
        let k = kept_pieces(pieces.drop_last());
        if trimmed(pieces.last()).len() > 0 {
            k.push(trimmed(pieces.last()))
        } else {
            k
        }
    }
}

/// The symbols of a comma-separated list: each piece trimmed, empty pieces left out.
pub open spec fn csv_symbols(s: Seq<char>) -> Seq<Seq<char>> {
    kept_pieces(comma_pieces(s))
}

proof fn lemma_pieces_nonempty(s: Seq<char>)
    ensures
        comma_pieces(s).len() >= 1,
    decreases s.len(),
{
    if s.len() > 0 {
        lemma_pieces_nonempty(s.drop_last());
    }
}

/// Splits a comma-separated list of symbols, trimming each and leaving out empty ones.
pub fn parse_symbols_csv(s: &str) -> (r: Vec<String>)
    ensures
        r@.map_values(|x: String| x@) == csv_symbols(s@),
{
    let n = s.unicode_len();
    let mut out: Vec<String> = Vec::new();
    let mut start: usize = 0;
    let mut i: usize = 0;
    while i < n
        invariant
            n == s@.len(),
            start <= i <= n,
            comma_pieces(s@.take(i as int)).len() >= 1,
            comma_pieces(s@.take(i as int)).last() == s@.subrange(start as int, i as int),
            out@.map_values(|x: String| x@) == kept_pieces(comma_pieces(s@.take(i as int)).drop_last()),
        decreases n - i,
    {
        let c = s.get_char(i);
        let ghost prev = comma_pieces(s@.take(i as int));
        assert(s@.take(i as int + 1).drop_last() =~= s@.take(i as int));
        if c == ',' {
            let piece = trim_text(s.substring_char(start, i));
            let ghost before = out@.map_values(|x: String| x@);
            if piece.unicode_len() > 0 {
                out.push(String::from_str(piece));
                assert(out@.map_values(|x: String| x@) =~= before.push(piece@));
            } else {
                assert(out@.map_values(|x: String| x@) =~= before);
            }
            proof {
                let next = comma_pieces(s@.take(i as int + 1));
                assert(next == prev.push(Seq::empty()));
                assert(next.drop_last() =~= prev);
                assert(prev.drop_last().push(prev.last()) =~= prev);
                assert(s@.subrange(i as int + 1, i as int + 1) =~= Seq::<char>::empty());
            }
            start = i + 1;
        } else {
            proof {
                let next = comma_pieces(s@.take(i as int + 1));
                assert(next == prev.update(prev.len() - 1, prev.last().push(c)));
                assert(next.drop_last() =~= prev.drop_last());
                assert(s@.subrange(start as int, i as int + 1) =~= prev.last().push(c));
            }
        }
        i = i + 1;
    }
    assert(s@.take(n as int) =~= s@);
    let ghost pieces = comma_pieces(s@);
    let piece = trim_text(s.substring_char(start, n));
    let ghost before = out@.map_values(|x: String| x@);
    if piece.unicode_len() > 0 {
        out.push(String::from_str(piece));
        assert(out@.map_values(|x: String| x@) =~= before.push(piece@));
    } else {
        assert(out@.map_values(|x: String| x@) =~= before);
    }
    assert(pieces.drop_last().push(pieces.last()) =~= pieces);
    out
}

/// The tickers of a batch request: the comma-separated list, trimmed, empty entries left out;
/// a list with no ticker is refused.
pub fn batch_tickers(list: &str) -> (r: Result<Vec<String>, ApiError>)
    ensures
        match r {
            Ok(v) => v@.map_values(|x: String| x@) == csv_symbols(list@) && v@.len() > 0,
            Err(ApiError::BadRequest(m)) => csv_symbols(list@).len() == 0 && m@
                == "No tickers provided"@,
            Err(_) => false,
        },
{
    let tickers = parse_symbols_csv(list);
    if tickers.len() == 0 {
        return Err(ApiError::BadRequest(String::from_str("No tickers provided")));
    }
    Ok(tickers)
}

} // verus!
