//! Ranking of analysed tickers by their scores.
//!
//! Scores reach this module as order keys: integers that compare as the scores they
//! stand for, with a zero score keyed 0.

use vstd::prelude::*;

verus! {

/// Where an entry with key `k` goes in `order`: after every entry whose key is at least `k`.
pub open spec fn insert_pos(order: Seq<usize>, keys: Seq<i64>, k: i64) -> nat
    decreases order.len(),
{
    if order.len() == 0 {
        0
    } else if keys[order[0] as int] < k {
        0
    } else {
        1 + insert_pos(order.drop_first(), keys, k)
    }
}

/// The positions `0..n` of `keys`, highest key first, equal keys in input order.
pub open spec fn ranked(keys: Seq<i64>, n: nat) -> Seq<usize>
    decreases n,
{
    if n == 0 {
        Seq::empty()
    } else {
        let o = ranked(keys, (n - 1) as nat);
        o.insert(insert_pos(o, keys, keys[n - 1]) as int, (n - 1) as usize)
    }
}

/// `order` ranks positions by key, highest first; equal keys keep their input order.
pub open spec fn ranks_by_key(order: Seq<usize>, keys: Seq<i64>) -> bool {
    forall|a: int, b: int|
        0 <= a < b < order.len() ==> keys[#[trigger] order[a] as int] > keys[#[trigger] order[b] as int]
            || (keys[order[a] as int] == keys[order[b] as int] && order[a] < order[b])
}

proof fn lemma_insert_pos(order: Seq<usize>, keys: Seq<i64>, k: i64, p: int)
    requires
        0 <= p <= order.len(),
        forall|q: int| 0 <= q < p ==> keys[#[trigger] order[q] as int] >= k,
        p == order.len() || keys[order[p] as int] < k,
    ensures
        insert_pos(order, keys, k) == p,
    decreases p,
{
    if p > 0 {
        assert(keys[order[0] as int] >= k);
        let rest = order.drop_first();
        assert forall|q: int| 0 <= q < p - 1 implies keys[#[trigger] rest[q] as int] >= k by {
            assert(rest[q] == order[q + 1]);
        }
        lemma_insert_pos(rest, keys, k, p - 1);
    }
}

/// The positions of `keys` ordered by key, highest first; equal keys keep their input order.
pub fn rank_order(keys: &Vec<i64>) -> (order: Vec<usize>)
    ensures
        order@ == ranked(keys@, keys@.len()),
        order@.len() == keys@.len(),
        forall|a: int| 0 <= a < order@.len() ==> #[trigger] order@[a] < keys@.len(),
        ranks_by_key(order@, keys@),
{
    let mut order: Vec<usize> = Vec::new();
    let mut i: usize = 0;
    while i < keys.len()
        invariant
            i <= keys@.len(),
            order@ == ranked(keys@, i as nat),
            order@.len() == i,
            forall|a: int| 0 <= a < i ==> #[trigger] order@[a] < i,
            ranks_by_key(order@, keys@),
        decreases keys@.len() - i,
    {
        let k = keys[i];
        let mut p: usize = 0;
        while p < order.len() && keys[order[p]] >= k
            invariant
                i < keys@.len(),
                order@.len() == i,
                forall|a: int| 0 <= a < i ==> #[trigger] order@[a] < i,
                p <= order@.len(),
                forall|q: int| 0 <= q < p ==> keys@[#[trigger] order@[q] as int] >= k,
            decreases order@.len() - p,
        {
            p = p + 1;
        }
        let ghost old_order = order@;
        proof {
            lemma_insert_pos(old_order, keys@, k, p as int);
            assert(forall|q: int|
                p <= q < old_order.len() ==> keys@[#[trigger] old_order[q] as int] < k) by {
                assert forall|q: int| p <= q < old_order.len() implies keys@[
                    #[trigger] old_order[q] as int] < k by {
                    if q > p {
                        assert(keys@[old_order[p as int] as int] >= keys@[old_order[q] as int]);
                    }
                }
            }
        }
        order.insert(p, i);
        proof {
            old_order.insert_ensures(p as int, i);
            let n = order@;
            assert forall|a: int, b: int| 0 <= a < b < n.len() implies keys@[
                #[trigger] n[a] as int] > keys@[#[trigger] n[b] as int] || (keys@[n[a] as int]
                == keys@[n[b] as int] && n[a] < n[b]) by {
                if a < p && b < p {
                    assert(n[a] == old_order[a] && n[b] == old_order[b]);
                } else if a < p && b == p {
                    assert(n[a] == old_order[a]);
                } else if a < p && b > p {
                    assert(n[a] == old_order[a] && n[b] == old_order[b - 1]);
                } else if a == p {
                    assert(n[b] == old_order[b - 1]);
                } else {
                    assert(n[a] == old_order[a - 1] && n[b] == old_order[b - 1]);
                }
            }
            assert forall|a: int| 0 <= a < i + 1 implies #[trigger] n[a] < i + 1 by {
                if a < p {
                    assert(n[a] == old_order[a]);
                } else if a > p {
                    assert(n[a] == old_order[a - 1]);
                }
            }
        }
        i = i + 1;
    }
    order
}

/// The scores of one analysed ticker, as order keys: its underlying composite score, and the
/// best undervalued score among its contracts (`None` when it has no contract).
#[derive(Clone, Copy, Debug, PartialEq, Eq, Structural)]
pub struct ScoreKeys {
    pub underlying: i64,
    pub best_undervalued: Option<i64>,
}

/// The highest of `keys`, if there is any.
pub open spec fn is_best_key(keys: Seq<i64>, r: Option<i64>) -> bool {
    match r {
        None => keys.len() == 0,
        Some(m) => keys.contains(m) && forall|i: int| 0 <= i < keys.len() ==> keys[i] <= m,
    }
}

/// The highest key of a list; `None` for an empty list.
pub fn best_key(keys: &Vec<i64>) -> (r: Option<i64>)
    ensures
        is_best_key(keys@, r),
{
    if keys.len() == 0 {
        return None;
    }
    let mut best = keys[0];
    let mut i: usize = 1;
    while i < keys.len()
        invariant
            1 <= i <= keys@.len(),
            keys@.contains(best),
            forall|j: int| 0 <= j < i ==> keys@[j] <= best,
        decreases keys@.len() - i,
    {
        if keys[i] > best {
            best = keys[i];
        }
        i = i + 1;
    }
    Some(best)
}

/// The scores that the arrivals hold for ticker `i`: those of the last arrival for it.
pub open spec fn slot_of(arrivals: Seq<(usize, ScoreKeys)>, i: int) -> Option<ScoreKeys>
    decreases arrivals.len(),
{
    if arrivals.len() == 0 {
        None
    } else if arrivals.last().0 == i {
        Some(arrivals.last().1)
    } else {
        slot_of(arrivals.drop_last(), i)
    }
}

/// The per-ticker slots that gathering `arrivals` over `n` tickers fills.
pub open spec fn gathered(arrivals: Seq<(usize, ScoreKeys)>, n: nat) -> Seq<Option<ScoreKeys>> {
    Seq::new(n, |i: int| slot_of(arrivals, i))
}

/// Places the analyses that completed, given as (ticker position, scores) in the order they
/// completed, at their tickers' positions; tickers with no analysis stay `None`.
pub fn gather_in_order(n: usize, arrivals: &Vec<(usize, ScoreKeys)>) -> (r: Vec<Option<ScoreKeys>>)
    ensures
        r@ == gathered(arrivals@, n as nat),
{
    let mut slots: Vec<Option<ScoreKeys>> = Vec::new();
    let mut i: usize = 0;
    while i < n
        invariant
            i <= n,
            slots@.len() == i,
            forall|j: int| 0 <= j < i ==> slots@[j] is None,
        decreases n - i,
    {
        slots.push(None);
        i = i + 1;
    }
    let mut k: usize = 0;
    while k < arrivals.len()
        invariant
            k <= arrivals@.len(),
            slots@.len() == n,
            forall|j: int| 0 <= j < n ==> #[trigger] slots@[j] == slot_of(arrivals@.take(k as int), j),
        decreases arrivals@.len() - k,
    {
        let (t, s) = arrivals[k];
        assert(arrivals@.take(k as int + 1).drop_last() =~= arrivals@.take(k as int));
        if t < n {
            slots[t] = Some(s);
        }
        k = k + 1;
    }
    assert(arrivals@.take(k as int) =~= arrivals@);
    assert(slots@ =~= gathered(arrivals@, n as nat));
    slots
}

/// Each ticker position occurs in at most one arrival.
pub open spec fn distinct_tickers(arrivals: Seq<(usize, ScoreKeys)>) -> bool {
    forall|x: int, y: int|
        0 <= x < y < arrivals.len() ==> (#[trigger] arrivals[x]).0 != (#[trigger] arrivals[y]).0
}

proof fn lemma_slot_is_member(arrivals: Seq<(usize, ScoreKeys)>, i: usize)
    requires
        distinct_tickers(arrivals),
    ensures
        forall|s: ScoreKeys|
            #![trigger arrivals.contains((i, s))]
            slot_of(arrivals, i as int) == Some(s) <==> arrivals.contains((i, s)),
    decreases arrivals.len(),
{
    if arrivals.len() > 0 {
        let rest = arrivals.drop_last();
        assert(distinct_tickers(rest)) by {
            assert forall|x: int, y: int| 0 <= x < y < rest.len() implies (#[trigger] rest[x]).0
                != (#[trigger] rest[y]).0 by {
                assert(rest[x] == arrivals[x] && rest[y] == arrivals[y]);
            }
        }
        lemma_slot_is_member(rest, i);
        let last = arrivals.len() - 1;
        assert forall|s: ScoreKeys|
            #![trigger arrivals.contains((i, s))]
            slot_of(arrivals, i as int) == Some(s) <==> arrivals.contains((i, s)) by {
            if arrivals.contains((i, s)) {
                let x = choose|x: int| 0 <= x < arrivals.len() && arrivals[x] == (i, s);
                if x < last {
                    assert(rest[x] == arrivals[x]);
                    assert(rest.contains((i, s)));
                    assert(arrivals[last].0 != i);
                }
            }
            if slot_of(arrivals, i as int) == Some(s) {
                if arrivals[last].0 == i {
                    assert(arrivals[last] == (i, s));
                } else {
                    assert(rest.contains((i, s)));
                    let x = choose|x: int| 0 <= x < rest.len() && rest[x] == (i, s);
                    assert(arrivals[x] == (i, s));
                }
            }
        }
    }
}

/// Gathering does not depend on the order in which the per-ticker analyses complete: any two
/// completion orders of the same analyses fill the same slots.
pub proof fn lemma_gather_order_independent(
    a: Seq<(usize, ScoreKeys)>,
    b: Seq<(usize, ScoreKeys)>,
    n: nat,
)
    requires
        distinct_tickers(a),
        distinct_tickers(b),
        a.to_multiset() == b.to_multiset(),
    ensures
        gathered(a, n) == gathered(b, n),
{
    a.to_multiset_ensures();
    b.to_multiset_ensures();
    assert forall|i: int| 0 <= i < n implies slot_of(a, i) == slot_of(b, i) by {
        if i <= usize::MAX {
            lemma_slot_is_member(a, i as usize);
            lemma_slot_is_member(b, i as usize);
            assert forall|s: ScoreKeys|
                #![trigger a.contains((i as usize, s))]
                a.contains((i as usize, s)) <==> b.contains((i as usize, s)) by {
                let e = (i as usize, s);
                a.to_multiset_ensures();
                b.to_multiset_ensures();
                if a.contains(e) {
                    assert(a.to_multiset().count(e) > 0);
                    assert(b.to_multiset().count(e) > 0);
                }
                if b.contains(e) {
                    assert(b.to_multiset().count(e) > 0);
                    assert(a.to_multiset().count(e) > 0);
                }
            }
            if slot_of(a, i) is Some {
                let s = slot_of(a, i)->Some_0;
                assert(slot_of(a, (i as usize) as int) == Some(s));
                assert(a.contains((i as usize, s)));
                assert(b.contains((i as usize, s)));
                assert(slot_of(b, (i as usize) as int) == Some(s));
            } else if slot_of(b, i) is Some {
                let s = slot_of(b, i)->Some_0;
                assert(slot_of(b, (i as usize) as int) == Some(s));
                assert(b.contains((i as usize, s)));
                assert(a.contains((i as usize, s)));
                assert(slot_of(a, (i as usize) as int) == Some(s));
            }
        } else {
            lemma_slot_out_of_range(a, i);
            lemma_slot_out_of_range(b, i);
        }
    }
    assert(gathered(a, n) =~= gathered(b, n));
}

proof fn lemma_slot_out_of_range(arrivals: Seq<(usize, ScoreKeys)>, i: int)
    requires
        i > usize::MAX,
    ensures
        slot_of(arrivals, i) is None,
    decreases arrivals.len(),
{
    if arrivals.len() > 0 {
        lemma_slot_out_of_range(arrivals.drop_last(), i);
    }
}

/// Positions of the tickers that have an analysis, in input order.
pub open spec fn present(slots: Seq<Option<ScoreKeys>>) -> Seq<usize>
    decreases slots.len(),
{
    if slots.len() == 0 {
        Seq::empty()
    } else {
        let p = present(slots.drop_last());
        if slots.last() is Some {
            p.push((slots.len() - 1) as usize)
        } else {
            p
        }
    }
}

/// The underlying keys of the tickers at positions `idx`.
pub open spec fn underlying_of(slots: Seq<Option<ScoreKeys>>, idx: Seq<usize>) -> Seq<i64> {
    idx.map_values(|t: usize| slots[t as int]->Some_0.underlying)
}

/// The best undervalued key of a ticker as the minimum-score filter reads it: the best of
/// its contracts' keys and the key of a zero score.
pub open spec fn undervalued_floor(k: Option<i64>) -> i64 {
    match k {
        Some(v) => if v > 0 {
            v
        } else {
            0
        },
        None => 0,
    }
}

/// Whether a ticker's scores reach both minimum scores.
pub open spec fn passes(s: ScoreKeys, min_underlying: i64, min_undervalued: i64) -> bool {
    s.underlying >= min_underlying && undervalued_floor(s.best_undervalued) >= min_undervalued
}

/// The tickers of `order` (positions into `idx`) that reach both minimum scores, in order.
pub open spec fn kept(
    slots: Seq<Option<ScoreKeys>>,
    idx: Seq<usize>,
    order: Seq<usize>,
    min_underlying: i64,
    min_undervalued: i64,
) -> Seq<usize>
    decreases order.len(),
{
    if order.len() == 0 {
        Seq::empty()
    } else {
        let k = kept(slots, idx, order.drop_last(), min_underlying, min_undervalued);
        let t = idx[order.last() as int];
        if passes(slots[t as int]->Some_0, min_underlying, min_undervalued) {
            k.push(t)
        } else {
            k
        }
    }
}

/// `s` cut to at most `count` items.
pub open spec fn at_most<A>(s: Seq<A>, count: nat) -> Seq<A> {
    if s.len() > count {
        s.take(count as int)
    } else {
        s
    }
}

/// The tickers reported: the analysed ones ranked by underlying score, highest first (ties
/// in input order), those below either minimum dropped, then cut to `limit`.
pub open spec fn selection(
    slots: Seq<Option<ScoreKeys>>,
    min_underlying: i64,
    min_undervalued: i64,
    limit: nat,
) -> Seq<usize> {
    let idx = present(slots);
    let order = ranked(underlying_of(slots, idx), idx.len());
    at_most(kept(slots, idx, order, min_underlying, min_undervalued), limit)
}

/// Ranks the analysed tickers by underlying score, drops those below the minimum scores, and
/// keeps at most `limit`; returns their positions.
pub fn select_ranked(
    slots: &Vec<Option<ScoreKeys>>,
    min_underlying: i64,
    min_undervalued: i64,
    limit: usize,
) -> (r: Vec<usize>)
    ensures
        r@ == selection(slots@, min_underlying, min_undervalued, limit as nat),
        r@.len() <= limit,
        forall|a: int|
            0 <= a < r@.len() ==> #[trigger] r@[a] < slots@.len() && slots@[r@[a] as int] is Some
                && passes(slots@[r@[a] as int]->Some_0, min_underlying, min_undervalued),
        forall|a: int, b: int|
            0 <= a < b < r@.len() ==> slots@[#[trigger] r@[a] as int]->Some_0.underlying
                >= slots@[#[trigger] r@[b] as int]->Some_0.underlying,
{
    let mut idx: Vec<usize> = Vec::new();
    let mut keys: Vec<i64> = Vec::new();
    let mut t: usize = 0;
    while t < slots.len()
        invariant
            t <= slots@.len(),
            idx@ == present(slots@.take(t as int)),
            keys@ == underlying_of(slots@, idx@),
            forall|a: int|
                0 <= a < idx@.len() ==> #[trigger] idx@[a] < t && slots@[idx@[a] as int] is Some,
        decreases slots@.len() - t,
    {
        assert(slots@.take(t as int + 1).drop_last() =~= slots@.take(t as int));
        match slots[t] {
            Some(s) => {
                idx.push(t);
                keys.push(s.underlying);
                assert(keys@ =~= underlying_of(slots@, idx@));
            },
            None => {},
        }
        t = t + 1;
    }
    assert(slots@.take(t as int) =~= slots@);
    let order = rank_order(&keys);
    let mut out: Vec<usize> = Vec::new();
    let mut j: usize = 0;
    while j < order.len()
        invariant
            j <= order@.len(),
            order@.len() == idx@.len(),
            keys@.len() == idx@.len(),
            forall|a: int| 0 <= a < order@.len() ==> #[trigger] order@[a] < keys@.len(),
            forall|a: int|
                0 <= a < idx@.len() ==> #[trigger] idx@[a] < slots@.len() && slots@[idx@[a] as int] is Some,
            out@ == kept(slots@, idx@, order@.take(j as int), min_underlying, min_undervalued),
            forall|a: int|
                0 <= a < out@.len() ==> #[trigger] out@[a] < slots@.len() && slots@[out@[a] as int] is Some
                    && passes(slots@[out@[a] as int]->Some_0, min_underlying, min_undervalued),
            keys@ == underlying_of(slots@, idx@),
            ranks_by_key(order@, keys@),
            forall|a: int, q: int|
                0 <= a < out@.len() && j <= q < order@.len() ==> slots@[#[trigger] out@[a] as int]->Some_0.underlying
                    >= keys@[#[trigger] order@[q] as int],
            forall|a: int, b: int|
                0 <= a < b < out@.len() ==> slots@[#[trigger] out@[a] as int]->Some_0.underlying
                    >= slots@[#[trigger] out@[b] as int]->Some_0.underlying,
        decreases order@.len() - j,
    {
        assert(order@.take(j as int + 1).drop_last() =~= order@.take(j as int));
        assert(order@[j as int] < idx@.len());
        let t = idx[order[j]];
        proof {
            assert(keys@[order@[j as int] as int] == slots@[t as int]->Some_0.underlying);
            assert forall|q: int| j < q < order@.len() implies keys@[order@[j as int] as int]
                >= keys@[#[trigger] order@[q] as int] by {
                let here = order@[j as int] as int;
                assert(keys@[here] > keys@[order@[q] as int] || keys@[here] == keys@[order@[q] as int]);
            }
        }
        match slots[t] {
            Some(s) => {
                if s.underlying >= min_underlying {
                    let floor: i64 = match s.best_undervalued {
                        Some(v) => if v > 0 {
                            v
                        } else {
                            0
                        },
                        None => 0,
                    };
                    if floor >= min_undervalued {
                        out.push(t);
                    }
                }
            },
            None => {},
        }
        j = j + 1;
    }
    assert(order@.take(j as int) =~= order@);
    let ghost full = out@;
    out.truncate(limit);
    assert(forall|a: int| 0 <= a < out@.len() ==> out@[a] == full[a]);
    out
}

/// Ranking does not depend on the order in which the per-ticker analyses complete: any two
/// completion orders of the same analyses yield the same reported tickers in the same order.
pub proof fn lemma_ranking_order_independent(
    a: Seq<(usize, ScoreKeys)>,
    b: Seq<(usize, ScoreKeys)>,
    n: nat,
    min_underlying: i64,
    min_undervalued: i64,
    limit: nat,
)
    requires
        distinct_tickers(a),
        distinct_tickers(b),
        a.to_multiset() == b.to_multiset(),
    ensures
        selection(gathered(a, n), min_underlying, min_undervalued, limit) == selection(
            gathered(b, n),
            min_underlying,
            min_undervalued,
            limit,
        ),
{
    lemma_gather_order_independent(a, b, n);
}

/// How many tickers each top list of the summary names.
pub const TOP_COUNT: usize = 5;

/// The tickers at positions `idx`, ranked by `keys` (one per ticker), highest first with ties
/// in input order, cut to `count`.
pub open spec fn top_of(idx: Seq<usize>, keys: Seq<i64>, count: nat) -> Seq<usize> {
    at_most(ranked(keys, keys.len()), count).map_values(|p: usize| idx[p as int])
}

/// The tickers of `sel` that have at least one scored contract, in order.
pub open spec fn with_options(slots: Seq<Option<ScoreKeys>>, sel: Seq<usize>) -> Seq<usize>
    decreases sel.len(),
{
    if sel.len() == 0 {
        Seq::empty()
    } else {
        let w = with_options(slots, sel.drop_last());
        if slots[sel.last() as int]->Some_0.best_undervalued is Some {
            w.push(sel.last())
        } else {
            w
        }
    }
}

/// The best undervalued keys of the tickers at positions `idx`.
pub open spec fn undervalued_of(slots: Seq<Option<ScoreKeys>>, idx: Seq<usize>) -> Seq<i64> {
    idx.map_values(|t: usize| slots[t as int]->Some_0.best_undervalued->Some_0)
}

/// Counts and leaders of the reported tickers, by position.
pub struct RankSummary {
    pub total_analyzed: usize,
    pub total_with_options: usize,
    pub top_underlying: Vec<usize>,
    pub top_undervalued: Vec<usize>,
}

/// The first `count` tickers of `idx` by `keys`.
pub fn top_ranked(idx: &Vec<usize>, keys: &Vec<i64>, count: usize) -> (r: Vec<usize>)
    requires
        idx@.len() == keys@.len(),
    ensures
        r@ == top_of(idx@, keys@, count as nat),
{
    let mut order = rank_order(keys);
    order.truncate(count);
    let ghost cut = order@;
    let mut r: Vec<usize> = Vec::new();
    let mut j: usize = 0;
    while j < order.len()
        invariant
            order@ == cut,
            cut == at_most(ranked(keys@, keys@.len()), count as nat),
            forall|a: int| 0 <= a < cut.len() ==> #[trigger] cut[a] < idx@.len(),
            j <= cut.len(),
            r@ == cut.take(j as int).map_values(|p: usize| idx@[p as int]),
        decreases cut.len() - j,
    {
        r.push(idx[order[j]]);
        assert(r@ =~= cut.take(j as int + 1).map_values(|p: usize| idx@[p as int]));
        j = j + 1;
    }
    assert(cut.take(j as int) =~= cut);
    r
}

/// Summarises the reported tickers `selected`: how many there are, how many have a scored
/// contract, and the leading five by underlying score and by best undervalued score.
pub fn summarize(slots: &Vec<Option<ScoreKeys>>, selected: &Vec<usize>) -> (r: RankSummary)
    requires
        forall|a: int|
            0 <= a < selected@.len() ==> #[trigger] selected@[a] < slots@.len()
                && slots@[selected@[a] as int] is Some,
    ensures
        r.total_analyzed == selected@.len(),
        r.total_with_options == with_options(slots@, selected@).len(),
        r.top_underlying@ == top_of(
            selected@,
            underlying_of(slots@, selected@),
            TOP_COUNT as nat,
        ),
        r.top_undervalued@ == top_of(
            with_options(slots@, selected@),
            undervalued_of(slots@, with_options(slots@, selected@)),
            TOP_COUNT as nat,
        ),
        non_increasing(underlying_of(slots@, selected@)) ==> r.top_underlying@ == at_most(
            selected@,
            TOP_COUNT as nat,
        ),
{
    let mut underlying: Vec<i64> = Vec::new();
    let mut optioned: Vec<usize> = Vec::new();
    let mut undervalued: Vec<i64> = Vec::new();
    let mut j: usize = 0;
    while j < selected.len()
        invariant
            j <= selected@.len(),
            forall|a: int|
                0 <= a < selected@.len() ==> #[trigger] selected@[a] < slots@.len()
                    && slots@[selected@[a] as int] is Some,
            underlying@ == underlying_of(slots@, selected@.take(j as int)),
            optioned@ == with_options(slots@, selected@.take(j as int)),
            undervalued@ == undervalued_of(slots@, optioned@),
        decreases selected@.len() - j,
    {
        let t = selected[j];
        assert(selected@.take(j as int + 1).drop_last() =~= selected@.take(j as int));
        match slots[t] {
            Some(s) => {
                underlying.push(s.underlying);
                assert(underlying@ =~= underlying_of(slots@, selected@.take(j as int + 1)));
                match s.best_undervalued {
                    Some(v) => {
                        optioned.push(t);
                        undervalued.push(v);
                        assert(undervalued@ =~= undervalued_of(slots@, optioned@));
                    },
                    None => {},
                }
            },
            None => {},
        }
        j = j + 1;
    }
    assert(selected@.take(j as int) =~= selected@);
    let top_underlying = top_ranked(selected, &underlying, TOP_COUNT);
    proof {
        if non_increasing(underlying_of(slots@, selected@)) {
            assert(underlying@ == underlying_of(slots@, selected@));
            lemma_rank_keeps_ranked(selected@, underlying@, TOP_COUNT as nat);
        }
    }
    let top_undervalued = top_ranked(&optioned, &undervalued, TOP_COUNT);
    RankSummary {
        total_analyzed: selected.len(),
        total_with_options: optioned.len(),
        top_underlying,
        top_undervalued,
    }
}

/// Keys that are already ordered highest first.
pub open spec fn non_increasing(keys: Seq<i64>) -> bool {
    forall|a: int, b: int| 0 <= a < b < keys.len() ==> keys[a] >= keys[b]
}

proof fn lemma_ranked_sorted(keys: Seq<i64>, m: nat)
    requires
        m <= keys.len(),
        keys.len() <= usize::MAX,
        non_increasing(keys),
    ensures
        ranked(keys, m) == Seq::new(m, |i: int| i as usize),
    decreases m,
{
    if m > 0 {
        let n = (m - 1) as nat;
        lemma_ranked_sorted(keys, n);
        let o = ranked(keys, n);
        assert forall|q: int| 0 <= q < n implies keys[#[trigger] o[q] as int] >= keys[n as int] by {
            assert(o[q] as int == q);
        }
        lemma_insert_pos(o, keys, keys[n as int], n as int);
        o.insert_ensures(n as int, n as usize);
        assert(ranked(keys, m) =~= Seq::new(m, |i: int| i as usize));
    }
}

/// Ranking a list that is already ordered highest first keeps it as it is: the leaders are
/// its head.
pub proof fn lemma_rank_keeps_ranked(idx: Seq<usize>, keys: Seq<i64>, count: nat)
    requires
        idx.len() == keys.len(),
        keys.len() <= usize::MAX,
        non_increasing(keys),
    ensures
        top_of(idx, keys, count) == at_most(idx, count),
{
    lemma_ranked_sorted(keys, keys.len());
    let r = ranked(keys, keys.len());
    let cut = at_most(r, count);
    assert forall|i: int| 0 <= i < cut.len() implies cut[i] as int == i by {
        assert(cut[i] == r[i]);
    }
    assert(top_of(idx, keys, count) =~= at_most(idx, count));
}

} // verus!
