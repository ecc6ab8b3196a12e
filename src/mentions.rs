//! Ticker mentions in forum posts.

use vstd::prelude::*;
use vstd::string::*;

use crate::text::{same_text, upper_of, uppercase};

verus! {

/// The texts that the regex crate finds for `pattern` in `text`, left to right and without
/// overlap; `None` when `pattern` is not a valid expression.
pub uninterp spec fn regex_matches_of(pattern: Seq<char>, text: Seq<char>) -> Option<Seq<Seq<char>>>;

/// Relies on `regex::Regex::new` and `Regex::find_iter`, each match taken as its text.
#[verifier::external_body]
fn regex_find_all(pattern: &str, text: &str) -> (r: Option<Vec<String>>)
    ensures
        match r {
            Some(v) => regex_matches_of(pattern@, text@) == Some(v@.map_values(|s: String| s@)),
            None => regex_matches_of(pattern@, text@) is None,
        },
{
    match regex::Regex::new(pattern) {
        Ok(re) => Some(re.find_iter(text).map(|m| m.as_str().to_string()).collect()),
        Err(_) => None,
    }
}

/// A word of one to five capital letters standing on its own: a ticker candidate.
pub const TICKER_PATTERN: &'static str = "\\b[A-Z]{1,5}\\b";

/// Words too common in posts to be taken for tickers.
pub open spec fn common_words() -> Seq<Seq<char>> {
    seq![
        "THE"@, "AND"@, "FOR"@, "YOU"@, "ARE"@, "WAS"@, "HAS"@, "HAD"@, "NOT"@, "BUT"@, "ALL"@,
        "CAN"@, "HER"@, "WERE"@, "SHE"@, "HIS"@, "ONE"@, "SAID"@, "THEY"@, "EACH"@, "WHICH"@,
        "DO"@, "HOW"@, "THEIR"@, "IF"@, "WILL"@, "UP"@, "OTHER"@, "ABOUT"@, "OUT"@, "MANY"@,
        "THEN"@, "THEM"@, "THESE"@, "SO"@, "SOME"@, "WOULD"@, "MAKE"@, "LIKE"@, "INTO"@, "HIM"@,
        "TIME"@, "TWO"@, "MORE"@, "GO"@, "NO"@, "WAY"@, "COULD"@, "MY"@, "THAN"@, "FIRST"@,
        "BEEN"@, "CALL"@, "WHO"@, "ITS"@, "NOW"@, "FIND"@, "LONG"@, "DOWN"@, "DAY"@, "DID"@,
        "GET"@, "COME"@, "MADE"@, "MAY"@, "PART"@,
    ]
}

/// Whether `w` is one of the common words.
pub fn is_common_word(w: &str) -> (r: bool)
    ensures
        r == common_words().contains(w@),
{
    let words: Vec<&str> = vec![
        "THE", "AND", "FOR", "YOU", "ARE", "WAS", "HAS", "HAD", "NOT", "BUT", "ALL", "CAN", "HER",
        "WERE", "SHE", "HIS", "ONE", "SAID", "THEY", "EACH", "WHICH", "DO", "HOW", "THEIR", "IF",
        "WILL", "UP", "OTHER", "ABOUT", "OUT", "MANY", "THEN", "THEM", "THESE", "SO", "SOME",
        "WOULD", "MAKE", "LIKE", "INTO", "HIM", "TIME", "TWO", "MORE", "GO", "NO", "WAY", "COULD",
        "MY", "THAN", "FIRST", "BEEN", "CALL", "WHO", "ITS", "NOW", "FIND", "LONG", "DOWN", "DAY",
        "DID", "GET", "COME", "MADE", "MAY", "PART",
    ];
    let ghost all = words@.map_values(|s: &str| s@);
    assert(all =~= common_words());
    let mut i: usize = 0;
    while i < words.len()
        invariant
            i <= words@.len(),
            all == words@.map_values(|s: &str| s@),
            all == common_words(),
            forall|j: int| 0 <= j < i ==> all[j] != w@,
        decreases words@.len() - i,
    {
        if same_text(words[i], w) {
            assert(all[i as int] == w@);
            return true;
        }
        i = i + 1;
    }
    proof {
        if all.contains(w@) {
            let j = choose|j: int| 0 <= j < all.len() && all[j] == w@;
        }
    }
    false
}

/// The candidates of `matches` that are not common words, in order.
pub open spec fn uncommon(matches: Seq<Seq<char>>) -> Seq<Seq<char>>
    decreases matches.len(),
{
    if matches.len() == 0 {
        matches
    } else {
        let u = uncommon(matches.drop_last());
        if common_words().contains(matches.last()) {
            u
        } else {
            u.push(matches.last())
        }
    }
}

/// The text of a post as it is searched: title and body upper-cased, joined by a space.
pub open spec fn post_text(title: Seq<char>, body: Seq<char>) -> Seq<char> {
    upper_of(title) + seq![' '] + upper_of(body)
}

/// The tickers a post mentions: the candidate words of its upper-cased title and body, left
/// to right, common words left out.
pub fn tickers_in_post(title: &str, body: &str) -> (r: Vec<String>)
    ensures
        r@.map_values(|s: String| s@) == match regex_matches_of(
            TICKER_PATTERN@,
            post_text(title@, body@),
        ) {
            Some(ms) => uncommon(ms),
            None => Seq::empty(),
        },
{
    let mut text = uppercase(title);
    proof {
        reveal_strlit(" ");
        assert(" "@ =~= seq![' ']);
    }
    text.append(" ");
    let upper_body = uppercase(body);
    text.append(upper_body.as_str());
    let mut out: Vec<String> = Vec::new();
    match regex_find_all(TICKER_PATTERN, text.as_str()) {
        Some(found) => {
            let ghost ms = found@.map_values(|s: String| s@);
            let mut i: usize = 0;
            while i < found.len()
                invariant
                    i <= found@.len(),
                    ms == found@.map_values(|s: String| s@),
                    out@.map_values(|s: String| s@) == uncommon(ms.take(i as int)),
                decreases found@.len() - i,
            {
                assert(ms.take(i as int + 1).drop_last() =~= ms.take(i as int));
                assert(ms.take(i as int + 1).last() == found@[i as int]@);
                if !is_common_word(found[i].as_str()) {
                    let ghost before = out@.map_values(|s: String| s@);
                    out.push(found[i].clone());
                    assert(out@.map_values(|s: String| s@) =~= before.push(found@[i as int]@));
                }
                i = i + 1;
            }
            assert(ms.take(i as int) =~= ms);
        },
        None => {
            assert(out@.map_values(|s: String| s@) =~= Seq::<Seq<char>>::empty());
        },
    }
    out
}

} // verus!
