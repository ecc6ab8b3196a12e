//! Time-bounded key/value cache and the keys it is addressed by.

use vstd::prelude::*;
use vstd::string::*;

use crate::text::same_text;

verus! {

/// The key that `cache_key` builds: the prefix, then `:name=value` for each parameter in order.
pub open spec fn cache_key_text(prefix: Seq<char>, params: Seq<(&str, &str)>) -> Seq<char>
    decreases params.len(),
{
    if params.len() == 0 {
        prefix
    } else {
        let p = params.last();
        cache_key_text(prefix, params.drop_last()) + seq![':'] + p.0@ + seq!['='] + p.1@
    }
}

/// Builds a cache key `"{prefix}:{k1}={v1}:{k2}={v2}..."`, parameters kept in the order given.
pub fn cache_key(prefix: &str, params: &[(&str, &str)]) -> (key: String)
    ensures
        key@ == cache_key_text(prefix@, params@),
{
    let mut key = String::from_str(prefix);
    let mut i: usize = 0;
    while i < params.len()
        invariant
            i <= params@.len(),
            key@ == cache_key_text(prefix@, params@.take(i as int)),
        decreases params@.len() - i,
    {
        proof {
            reveal_strlit(":");
            reveal_strlit("=");
            assert(":"@ =~= seq![':']);
            assert("="@ =~= seq!['=']);
        }
        let ghost before = key@;
        key.append(":");
        key.append(params[i].0);
        key.append("=");
        key.append(params[i].1);
        assert(key@ =~= before + seq![':'] + params@[i as int].0@ + seq!['='] + params@[i as int].1@);
        assert(params@.take(i as int + 1).drop_last() =~= params@.take(i as int));
        assert(params@.take(i as int + 1).last() == params@[i as int]);
        i = i + 1;
    }
    assert(params@.take(i as int) =~= params@);
    key
}

/// A cached value and the instant (milliseconds on the caller's clock) after which it is stale.
pub struct CacheEntry<V> {
    pub data: V,
    pub expires_at: u64,
}

impl<V> CacheEntry<V> {
    /// An entry for `data` that stays fresh for `ttl_ms` after `now_ms`.
    pub fn new(data: V, ttl_ms: u64, now_ms: u64) -> (r: Self)
        requires
            now_ms + ttl_ms <= u64::MAX,
        ensures
            r.data == data,
            r.expires_at == now_ms + ttl_ms,
    {
        CacheEntry { data, expires_at: now_ms + ttl_ms }
    }

    /// Whether the entry is stale at `now_ms`.
    pub fn is_expired(&self, now_ms: u64) -> (r: bool)
        ensures
            r == (now_ms > self.expires_at),
    {
        now_ms > self.expires_at
    }
}

/// The value that a read of `k` at `now` sees in `m`: absent keys and stale entries are misses.
pub open spec fn live_value<V>(m: Map<Seq<char>, CacheEntry<V>>, k: Seq<char>, now: u64) -> Option<
    V,
> {
    if m.contains_key(k) && now <= m[k].expires_at {
        Some(m[k].data)
    } else {
        None
    }
}

/// In-memory key/value store whose entries expire. Time is passed in by the caller
/// as milliseconds on a monotonic clock.
pub struct MemoryCache<V> {
    keys: Vec<String>,
    entries: Vec<CacheEntry<V>>,
}

impl<V> MemoryCache<V> {
    pub closed spec fn key_views(&self) -> Seq<Seq<char>> {
        self.keys@.map_values(|s: String| s@)
    }

    /// Keys are unique, and each has its entry at the same position.
    pub closed spec fn wf(&self) -> bool {
        &&& self.keys@.len() == self.entries@.len()
        &&& self.key_views().no_duplicates()
    }

    pub closed spec fn view(&self) -> Map<Seq<char>, CacheEntry<V>> {
        Map::new(
            |k: Seq<char>| self.key_views().contains(k),
            |k: Seq<char>|
                self.entries@[choose|i: int| 0 <= i < self.key_views().len() && self.key_views()[i] == k],
        )
    }

    /// What a read of `k` at `now` returns.
    pub open spec fn lookup(&self, k: Seq<char>, now: u64) -> Option<V> {
        live_value(self@, k, now)
    }

    proof fn lemma_view_at(&self, i: int)
        requires
            self.wf(),
            0 <= i < self.keys@.len(),
        ensures
            self@.contains_key(self.keys@[i]@),
            self@[self.keys@[i]@] == self.entries@[i],
    {
        let kv = self.key_views();
        let k = self.keys@[i]@;
        assert(kv[i] == k);
        assert(kv.contains(k));
        let j = choose|j: int| 0 <= j < kv.len() && kv[j] == k;
        assert(j == i);
    }

    /// An empty cache.
    pub fn new() -> (r: Self)
        ensures
            r.wf(),
            r@ == Map::<Seq<char>, CacheEntry<V>>::empty(),
    {
        let r = MemoryCache { keys: Vec::new(), entries: Vec::new() };
        assert(r@ =~= Map::<Seq<char>, CacheEntry<V>>::empty());
        r
    }

    /// The position of `key`, if it is present.
    fn position(&self, key: &str) -> (r: Option<usize>)
        requires
            self.wf(),
        ensures
            match r {
                Some(i) => i < self.keys@.len() && self.keys@[i as int]@ == key@,
                None => !self@.contains_key(key@),
            },
    {
        let mut i: usize = 0;
        while i < self.keys.len()
            invariant
                i <= self.keys@.len(),
                forall|j: int| 0 <= j < i ==> self.keys@[j]@ != key@,
            decreases self.keys@.len() - i,
        {
            if same_text(self.keys[i].as_str(), key) {
                return Some(i);
            }
            i = i + 1;
        }
        proof {
            if self.key_views().contains(key@) {
                let j = self.key_views().index_of(key@);
                assert(self.key_views()[j] == key@);
            }
        }
        None
    }

    /// The value stored under `key`, unless it is absent or stale at `now_ms`; a stale entry
    /// is removed by the read.
    pub fn get(&mut self, key: &str, now_ms: u64) -> (r: Option<&V>)
        requires
            old(self).wf(),
        ensures
            final(self).wf(),
            match r {
                Some(v) => old(self).lookup(key@, now_ms) == Some(*v),
                None => old(self).lookup(key@, now_ms) is None,
            },
            final(self)@ == if old(self)@.contains_key(key@) && now_ms > old(self)@[key@].expires_at {
                old(self)@.remove(key@)
            } else {
                old(self)@
            },
    {
        match self.position(key) {
            Some(i) => {
                proof {
                    self.lemma_view_at(i as int);
                }
                if self.entries[i].is_expired(now_ms) {
                    self.remove_at(i);
                    None
                } else {
                    Some(&self.entries[i].data)
                }
            },
            None => None,
        }
    }

    /// The map of entries is finite.
    pub proof fn lemma_finite(&self)
        requires
            self.wf(),
        ensures
            self@.dom().finite(),
    {
        assert(self@.dom() =~= self.key_views().to_set());
        vstd::seq_lib::seq_to_set_is_finite(self.key_views());
    }

    /// Stores `data` under `key`, fresh for `ttl_ms` after `now_ms`; replaces any earlier entry.
    pub fn set(&mut self, key: String, data: V, ttl_ms: u64, now_ms: u64)
        requires
            old(self).wf(),
            now_ms + ttl_ms <= u64::MAX,
        ensures
            final(self).wf(),
            final(self)@ == old(self)@.insert(
                key@,
                CacheEntry { data, expires_at: (now_ms + ttl_ms) as u64 },
            ),
    {
        let entry = CacheEntry::new(data, ttl_ms, now_ms);
        let ghost e = entry;
        match self.position(key.as_str()) {
            Some(i) => {
                self.entries[i] = entry;
                proof {
                    assert(self.entries@ == old(self).entries@.update(i as int, e));
                    assert(self.key_views() =~= old(self).key_views());
                    old(self).lemma_view_at(i as int);
                    assert(self@.dom() =~= old(self)@.insert(key@, e).dom());
                    assert forall|k: Seq<char>|
                        #![trigger self@.contains_key(k)]
                        self@.contains_key(k) implies self@[k] == old(self)@.insert(key@, e)[k] by {
                        let j = choose|j: int|
                            0 <= j < self.key_views().len() && self.key_views()[j] == k;
                        assert(self.wf());
                        self.lemma_view_at(j);
                        if k != key@ {
                            assert(self.key_views()[i as int] == key@);
                            assert(j != i);
                            old(self).lemma_view_at(j);
                            assert(self.entries@[j] == old(self).entries@[j]);
                        } else {
                            assert(self.key_views()[i as int] == key@);
                            assert(j == i);
                        }
                    }
                    assert(self@ =~= old(self)@.insert(key@, e));
                }
            },
            None => {
                self.push_new(key, entry);
            },
        }
    }

    /// Appends an entry under a key that is not present yet.
    fn push_new(&mut self, key: String, entry: CacheEntry<V>)
        requires
            old(self).wf(),
            !old(self)@.contains_key(key@),
        ensures
            final(self).wf(),
            final(self)@ == old(self)@.insert(key@, entry),
    {
        let ghost kv = key@;
        let ghost e = entry;
        self.keys.push(key);
        self.entries.push(entry);
        proof {
            let n = old(self).keys@.len() as int;
            assert(self.key_views() =~= old(self).key_views().push(kv));
            assert forall|k: Seq<char>|
                #![trigger self@.contains_key(k)]
                self@.contains_key(k) implies self@[k] == old(self)@.insert(kv, e)[k] by {
                let j = choose|j: int| 0 <= j < self.key_views().len() && self.key_views()[j] == k;
                self.lemma_view_at(j);
                if j < n {
                    old(self).lemma_view_at(j);
                }
            }
            assert forall|k: Seq<char>|
                old(self)@.insert(kv, e).contains_key(k) implies self@.contains_key(k) by {
                if k != kv {
                    let j = choose|j: int|
                        0 <= j < old(self).key_views().len() && old(self).key_views()[j] == k;
                    assert(self.key_views()[j] == k);
                } else {
                    assert(self.key_views()[n] == k);
                }
            }
            assert(self@ =~= old(self)@.insert(kv, e));
        }
    }

    /// Removes every entry that is stale at `now_ms`.
    pub fn cleanup_expired(&mut self, now_ms: u64)
        requires
            old(self).wf(),
        ensures
            final(self).wf(),
            forall|k: Seq<char>|
                #![trigger final(self)@.contains_key(k)]
                final(self)@.contains_key(k) <==> (old(self)@.contains_key(k) && now_ms
                    <= old(self)@[k].expires_at),
            forall|k: Seq<char>|
                #![trigger final(self)@[k]]
                final(self)@.contains_key(k) ==> final(self)@[k] == old(self)@[k],
    {
        let ghost prev = *self;
        let mut keys: Vec<String> = Vec::new();
        let mut entries: Vec<CacheEntry<V>> = Vec::new();
        std::mem::swap(&mut self.keys, &mut keys);
        std::mem::swap(&mut self.entries, &mut entries);
        proof {
            assert(self@ =~= Map::<Seq<char>, CacheEntry<V>>::empty());
            assert(self.key_views() =~= Seq::<Seq<char>>::empty());
        }
        while keys.len() > 0
            invariant
                self.wf(),
                prev.wf(),
                keys@.len() == entries@.len(),
                keys@.len() <= prev.keys@.len(),
                keys@ == prev.keys@.take(keys@.len() as int),
                entries@ == prev.entries@.take(entries@.len() as int),
                forall|k: Seq<char>|
                    #![trigger self@.contains_key(k)]
                    self@.contains_key(k) <==> (exists|j: int|
                        keys@.len() <= j < prev.keys@.len() && #[trigger] prev.keys@[j]@ == k
                            && now_ms <= prev.entries@[j].expires_at),
                forall|k: Seq<char>|
                    #![trigger self@[k]]
                    self@.contains_key(k) ==> self@[k] == prev@[k],
            decreases keys@.len(),
        {
            let ghost len = keys@.len() as int;
            let key = keys.pop().unwrap();
            let entry = entries.pop().unwrap();
            proof {
                assert(key == prev.keys@[len - 1]);
                assert(entry == prev.entries@[len - 1]);
                assert(keys@ =~= prev.keys@.take(len - 1));
                assert(entries@ =~= prev.entries@.take(len - 1));
                prev.lemma_view_at(len - 1);
            }
            if !entry.is_expired(now_ms) {
                proof {
                    if self@.contains_key(key@) {
                        let j = choose|j: int|
                            len <= j < prev.keys@.len() && #[trigger] prev.keys@[j]@ == key@
                                && now_ms <= prev.entries@[j].expires_at;
                        assert(prev.key_views()[j] == prev.key_views()[len - 1]);
                    }
                }
                let ghost before = *self;
                let ghost kv = key@;
                self.push_new(key, entry);
                proof {
                    assert forall|k: Seq<char>|
                        #![trigger self@.contains_key(k)]
                        self@.contains_key(k) <==> (exists|j: int|
                            len - 1 <= j < prev.keys@.len() && #[trigger] prev.keys@[j]@ == k
                                && now_ms <= prev.entries@[j].expires_at) by {
                        if k == kv {
                            assert(prev.keys@[len - 1]@ == k);
                        }
                        if before@.contains_key(k) {
                            let j = choose|j: int|
                                len <= j < prev.keys@.len() && #[trigger] prev.keys@[j]@ == k
                                    && now_ms <= prev.entries@[j].expires_at;
                            assert(len - 1 <= j);
                        }
                    }
                }
            } else {
                proof {
                    assert forall|k: Seq<char>|
                        #![trigger self@.contains_key(k)]
                        self@.contains_key(k) <==> (exists|j: int|
                            len - 1 <= j < prev.keys@.len() && #[trigger] prev.keys@[j]@ == k
                                && now_ms <= prev.entries@[j].expires_at) by {
                        if exists|j: int|
                            len - 1 <= j < prev.keys@.len() && #[trigger] prev.keys@[j]@ == k
                                && now_ms <= prev.entries@[j].expires_at {
                            let j = choose|j: int|
                                len - 1 <= j < prev.keys@.len() && #[trigger] prev.keys@[j]@ == k
                                    && now_ms <= prev.entries@[j].expires_at;
                            assert(j != len - 1);
                        }
                    }
                }
            }
        }
        proof {
            assert forall|k: Seq<char>|
                #![trigger self@.contains_key(k)]
                self@.contains_key(k) <==> (prev@.contains_key(k) && now_ms <= prev@[k].expires_at) by {
                if self@.contains_key(k) {
                    let j = choose|j: int|
                        0 <= j < prev.keys@.len() && #[trigger] prev.keys@[j]@ == k && now_ms
                            <= prev.entries@[j].expires_at;
                    prev.lemma_view_at(j);
                }
                if prev@.contains_key(k) && now_ms <= prev@[k].expires_at {
                    let j = choose|j: int|
                        0 <= j < prev.key_views().len() && prev.key_views()[j] == k;
                    prev.lemma_view_at(j);
                    assert(prev.keys@[j]@ == k);
                }
            }
        }
    }

    /// Removes the entry at position `i`.
    fn remove_at(&mut self, i: usize)
        requires
            old(self).wf(),
            i < old(self).keys@.len(),
        ensures
            final(self).wf(),
            final(self)@ == old(self)@.remove(old(self).keys@[i as int]@),
    {
        let ghost before = *self;
        let _ = self.keys.remove(i);
        let _ = self.entries.remove(i);
        proof {
            let kv = before.key_views();
            assert(self.key_views() =~= kv.remove(i as int));
            assert(self.key_views().no_duplicates()) by {
                assert forall|x: int, y: int|
                    0 <= x < y < self.key_views().len() implies self.key_views()[x]
                    != self.key_views()[y] by {
                    let ox = if x < i { x } else { x + 1 };
                    let oy = if y < i { y } else { y + 1 };
                    assert(self.key_views()[x] == kv[ox]);
                    assert(self.key_views()[y] == kv[oy]);
                }
            }
            assert(kv[i as int] == before.keys@[i as int]@);
            assert forall|k: Seq<char>|
                #![trigger self@.contains_key(k)]
                self@.contains_key(k) implies self@[k] == before@.remove(before.keys@[i as int]@)[k] && k
                    != before.keys@[i as int]@ by {
                let j = choose|j: int|
                    0 <= j < self.key_views().len() && self.key_views()[j] == k;
                self.lemma_view_at(j);
                let oj = if j < i { j } else { j + 1 };
                assert(self.key_views()[j] == kv[oj]);
                assert(self.entries@[j] == before.entries@[oj]);
                before.lemma_view_at(oj);
                assert(oj != i);
            }
            assert forall|k: Seq<char>|
                before@.remove(before.keys@[i as int]@).contains_key(k) implies self@.contains_key(k) by {
                let j = choose|j: int| 0 <= j < kv.len() && kv[j] == k;
                assert(j != i);
                if j < i {
                    assert(self.key_views()[j] == k);
                } else {
                    assert(self.key_views()[j - 1] == k);
                }
            }
            assert(self@ =~= before@.remove(before.keys@[i as int]@));
        }
    }

    /// Removes the entry under `key` if it is stale at `now_ms`; tells whether it did.
    pub fn evict_if_expired(&mut self, key: &str, now_ms: u64) -> (r: bool)
        requires
            old(self).wf(),
        ensures
            final(self).wf(),
            r == (old(self)@.contains_key(key@) && now_ms > old(self)@[key@].expires_at),
            final(self)@ == if r {
                old(self)@.remove(key@)
            } else {
                old(self)@
            },
    {
        match self.position(key) {
            Some(i) => {
                proof {
                    self.lemma_view_at(i as int);
                }
                if !self.entries[i].is_expired(now_ms) {
                    return false;
                }
                self.remove_at(i);
                true
            },
            None => false,
        }
    }

    /// Number of entries held, stale ones included until they are swept.
    pub fn size(&self) -> (r: usize)
        requires
            self.wf(),
        ensures
            self@.dom().finite(),
            r == self@.dom().len(),
    {
        proof {
            self.lemma_finite();
            self.key_views().unique_seq_to_set();
            assert(self@.dom() =~= self.key_views().to_set());
        }
        self.keys.len()
    }

    /// Removes every entry.
    pub fn clear(&mut self)
        ensures
            final(self).wf(),
            final(self)@ == Map::<Seq<char>, CacheEntry<V>>::empty(),
    {
        *self = MemoryCache::new();
    }
}

/// A value stored with a time-to-live is read back unchanged at the instant it was stored,
/// and reads as a miss at every instant after the time-to-live has elapsed.
pub proof fn lemma_set_then_get<V>(
    before: Map<Seq<char>, CacheEntry<V>>,
    key: Seq<char>,
    data: V,
    ttl_ms: u64,
    now_ms: u64,
    later_ms: u64,
)
    requires
        now_ms + ttl_ms <= u64::MAX,
    ensures
        ({
            let after = before.insert(key, CacheEntry { data, expires_at: (now_ms + ttl_ms) as u64 });
            &&& live_value(after, key, now_ms) == Some(data)
            &&& later_ms > now_ms + ttl_ms ==> live_value(after, key, later_ms) is None
        }),
{
}

/// Storing under a key grows a cache by one entry exactly when the key was not held before,
/// stale or not.
pub proof fn lemma_size_after_set<V>(before: Map<Seq<char>, CacheEntry<V>>, key: Seq<char>, e: CacheEntry<V>)
    requires
        before.dom().finite(),
    ensures
        before.insert(key, e).dom().finite(),
        before.insert(key, e).dom().len() == before.dom().len() + if before.contains_key(key) {
            0int
        } else {
            1int
        },
{
    assert(before.insert(key, e).dom() =~= before.dom().insert(key));
}

/// How long fetched price history stays cached, in seconds, by lookback label:
/// five minutes up to three months, fifteen up to a year, thirty beyond.
pub open spec fn ttl_secs_for(range_label: Seq<char>) -> u64 {
    if range_label == "1mo"@ || range_label == "3mo"@ {
        300
    } else if range_label == "6mo"@ || range_label == "1y"@ {
        900
    } else {
        1800
    }
}

/// Time-to-live, in seconds, of cached price history for a lookback label.
pub fn cache_ttl_secs(range_label: &str) -> (r: u64)
    ensures
        r == ttl_secs_for(range_label@),
{
    if same_text(range_label, "1mo") || same_text(range_label, "3mo") {
        300
    } else if same_text(range_label, "6mo") || same_text(range_label, "1y") {
        900
    } else {
        1800
    }
}

/// Days of history that a lookback label stands for; unknown labels take the shortest window.
pub open spec fn lookback_days_for(range_label: Seq<char>) -> u32 {
    if range_label == "3mo"@ {
        90
    } else if range_label == "6mo"@ {
        180
    } else if range_label == "1y"@ {
        365
    } else if range_label == "2y"@ {
        730
    } else if range_label == "5y"@ {
        1825
    } else {
        30
    }
}

/// Days of price history to fetch for a lookback label.
pub fn lookback_days(range_label: &str) -> (r: u32)
    ensures
        r == lookback_days_for(range_label@),
{
    if same_text(range_label, "3mo") {
        90
    } else if same_text(range_label, "6mo") {
        180
    } else if same_text(range_label, "1y") {
        365
    } else if same_text(range_label, "2y") {
        730
    } else if same_text(range_label, "5y") {
        1825
    } else {
        30
    }
}

} // verus!
