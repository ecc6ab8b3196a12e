//! Per-client request rate limiting over a sliding one-minute window.

use vstd::prelude::*;
use vstd::string::*;

use crate::errors::ApiError;
use crate::text::same_text;

verus! {

/// Length of the sliding window, in milliseconds.
pub const WINDOW_MS: u64 = 60_000;

/// Requests allowed to one client per window, and the burst size.
#[derive(Debug, Clone, Copy, PartialEq, Eq, Structural)]
pub struct RateLimitConfig {
    pub requests_per_minute: u32,
    pub burst_size: u32,
}

impl Default for RateLimitConfig {
    fn default() -> (r: Self)
        ensures
            r == (RateLimitConfig { requests_per_minute: 60, burst_size: 10 }),
    {
        RateLimitConfig { requests_per_minute: 60, burst_size: 10 }
    }
}

/// The request times of `times` that lie within the window that ends at `now`, in order.
pub open spec fn recent(times: Seq<u64>, now: u64) -> Seq<u64>
    decreases times.len(),
{
    if times.len() == 0 {
        times
    } else {
        let r = recent(times.drop_last(), now);
        if times.last() + WINDOW_MS > now {
            r.push(times.last())
        } else {
            r
        }
    }
}

/// The request times of one client, in milliseconds on the caller's clock.
pub struct RateLimitState {
    requests: Vec<u64>,
}

impl RateLimitState {
    pub closed spec fn view(&self) -> Seq<u64> {
        self.requests@
    }

    /// A client that has made no request.
    pub fn new() -> (r: Self)
        ensures
            r@ == Seq::<u64>::empty(),
    {
        RateLimitState { requests: Vec::new() }
    }

    /// Forgets the requests that left the window ending at `now_ms`.
    pub fn cleanup_old_requests(&mut self, now_ms: u64)
        ensures
            final(self)@ == recent(old(self)@, now_ms),
    {
        let mut kept: Vec<u64> = Vec::new();
        let mut i: usize = 0;
        while i < self.requests.len()
            invariant
                i <= self.requests@.len(),
                kept@ == recent(self.requests@.take(i as int), now_ms),
            decreases self.requests@.len() - i,
        {
            let t = self.requests[i];
            assert(self.requests@.take(i as int + 1).drop_last() =~= self.requests@.take(i as int));
            if t as u128 + WINDOW_MS as u128 > now_ms as u128 {
                kept.push(t);
            }
            i = i + 1;
        }
        assert(self.requests@.take(i as int) =~= self.requests@);
        self.requests = kept;
    }

    /// Admits a request at `now_ms` if fewer than the allowed number fall in the window, and
    /// records it; refuses it otherwise.
    pub fn can_make_request(&mut self, config: &RateLimitConfig, now_ms: u64) -> (r: bool)
        ensures
            r == (recent(old(self)@, now_ms).len() < config.requests_per_minute),
            final(self)@ == if r {
                recent(old(self)@, now_ms).push(now_ms)
            } else {
                recent(old(self)@, now_ms)
            },
    {
        self.cleanup_old_requests(now_ms);
        if self.requests.len() >= config.requests_per_minute as usize {
            return false;
        }
        self.requests.push(now_ms);
        true
    }
}

/// The request times of a client, as kept by a limiter: none before its first request.
pub open spec fn times_of(m: Map<Seq<char>, Seq<u64>>, client: Seq<char>) -> Seq<u64> {
    if m.contains_key(client) {
        m[client]
    } else {
        Seq::empty()
    }
}

/// Rate limiting of many clients, each by its identifier, under one configuration.
pub struct RateLimiter {
    clients: Vec<String>,
    states: Vec<RateLimitState>,
    config: RateLimitConfig,
}

impl RateLimiter {
    pub closed spec fn client_views(&self) -> Seq<Seq<char>> {
        self.clients@.map_values(|s: String| s@)
    }

    /// Each client appears once, with its state at the same position.
    pub closed spec fn wf(&self) -> bool {
        &&& self.clients@.len() == self.states@.len()
        &&& self.client_views().no_duplicates()
    }

    /// The request times of every client seen so far.
    pub closed spec fn view(&self) -> Map<Seq<char>, Seq<u64>> {
        Map::new(
            |k: Seq<char>| self.client_views().contains(k),
            |k: Seq<char>|
                self.states@[choose|i: int|
                    0 <= i < self.client_views().len() && self.client_views()[i] == k]@,
        )
    }

    /// The limits applied.
    pub closed spec fn limits(&self) -> RateLimitConfig {
        self.config
    }

    proof fn lemma_view_at(&self, i: int)
        requires
            self.wf(),
            0 <= i < self.clients@.len(),
        ensures
            self@.contains_key(self.clients@[i]@),
            self@[self.clients@[i]@] == self.states@[i]@,
    {
        let kv = self.client_views();
        let k = self.clients@[i]@;
        assert(kv[i] == k);
        assert(kv.contains(k));
        let j = choose|j: int| 0 <= j < kv.len() && kv[j] == k;
        assert(j == i);
    }

    /// The position of a client, if it has been seen.
    fn find_client(&self, client_id: &str) -> (r: Option<usize>)
        requires
            self.wf(),
        ensures
            match r {
                Some(i) => i < self.clients@.len() && self.clients@[i as int]@ == client_id@,
                None => !self@.contains_key(client_id@),
            },
    {
        let mut i: usize = 0;
        while i < self.clients.len()
            invariant
                i <= self.clients@.len(),
                forall|j: int| 0 <= j < i ==> self.clients@[j]@ != client_id@,
            decreases self.clients@.len() - i,
        {
            if same_text(self.clients[i].as_str(), client_id) {
                return Some(i);
            }
            i = i + 1;
        }
        proof {
            if self.client_views().contains(client_id@) {
                let j = self.client_views().index_of(client_id@);
                assert(self.client_views()[j] == client_id@);
            }
        }
        None
    }

    /// A limiter that has seen no client.
    pub fn new(config: RateLimitConfig) -> (r: Self)
        ensures
            r.wf(),
            r@ == Map::<Seq<char>, Seq<u64>>::empty(),
            r.limits() == config,
    {
        let r = RateLimiter { clients: Vec::new(), states: Vec::new(), config };
        assert(r@ =~= Map::<Seq<char>, Seq<u64>>::empty());
        r
    }

    /// Admits a request of `client_id` at `now_ms` if fewer than the allowed number of its
    /// requests fall in the window, and records it; refuses it with a rate-limit error otherwise.
    pub fn check_rate_limit(&mut self, client_id: &str, now_ms: u64) -> (r: Result<(), ApiError>)
        requires
            old(self).wf(),
        ensures
            final(self).wf(),
            final(self).limits() == old(self).limits(),
            ({
                let kept = recent(times_of(old(self)@, client_id@), now_ms);
                &&& r is Ok <==> kept.len() < old(self).limits().requests_per_minute
                &&& final(self)@ == old(self)@.insert(
                    client_id@,
                    if r is Ok {
                        kept.push(now_ms)
                    } else {
                        kept
                    },
                )
            }),
            match r {
                Ok(_) => true,
                Err(ApiError::RateLimit(m)) => m@ == "Rate limit exceeded"@,
                Err(_) => false,
            },
    {
        let found = self.find_client(client_id);
        let i: usize = match found {
            Some(i) => i,
            None => self.clients.len(),
        };
        if found.is_none() {
            let ghost before = *self;
            let ghost kv = client_id@;
            self.clients.push(String::from_str(client_id));
            self.states.push(RateLimitState::new());
            proof {
                let n = before.clients@.len() as int;
                assert(self.client_views() =~= before.client_views().push(kv));
                assert forall|k: Seq<char>|
                    #![trigger self@.contains_key(k)]
                    self@.contains_key(k) implies self@[k] == before@.insert(kv, Seq::empty())[k] by {
                    let j = choose|j: int|
                        0 <= j < self.client_views().len() && self.client_views()[j] == k;
                    self.lemma_view_at(j);
                    if j < n {
                        before.lemma_view_at(j);
                    }
                }
                assert forall|k: Seq<char>|
                    before@.insert(kv, Seq::empty()).contains_key(k) implies self@.contains_key(k) by {
                    if k != kv {
                        let j = choose|j: int|
                            0 <= j < before.client_views().len() && before.client_views()[j] == k;
                        assert(self.client_views()[j] == k);
                    } else {
                        assert(self.client_views()[n] == k);
                    }
                }
                assert(self@ =~= before@.insert(kv, Seq::empty()));
            }
        }
        proof {
            self.lemma_view_at(i as int);
        }
        let ghost mid = *self;
        let allowed = self.states[i].can_make_request(&self.config, now_ms);
        proof {
            assert(self.clients@ == mid.clients@);
            assert(self.client_views() =~= mid.client_views());
            let new_times = self.states@[i as int]@;
            assert forall|k: Seq<char>|
                #![trigger self@.contains_key(k)]
                self@.contains_key(k) implies self@[k] == mid@.insert(client_id@, new_times)[k] by {
                let j = choose|j: int|
                    0 <= j < self.client_views().len() && self.client_views()[j] == k;
                self.lemma_view_at(j);
                if k != client_id@ {
                    assert(self.client_views()[i as int] == client_id@);
                    assert(j != i);
                    mid.lemma_view_at(j);
                } else {
                    assert(self.client_views()[i as int] == client_id@);
                    assert(j == i);
                }
            }
            assert(self@.dom() =~= mid@.insert(client_id@, new_times).dom());
            assert(self@ =~= mid@.insert(client_id@, new_times));
            assert(mid@.insert(client_id@, new_times) =~= old(self)@.insert(client_id@, new_times));
        }
        if allowed {
            Ok(())
        } else {
            Err(ApiError::RateLimit(String::from_str("Rate limit exceeded")))
        }
    }
}

/// Who a request is counted against: the bearer token of its authorization header, else the
/// address it came from, else `unknown`.
pub open spec fn client_id_of(authorization: Option<Seq<char>>, peer: Option<Seq<char>>) -> Seq<char> {
    match authorization {
        Some(a) if a.len() >= 7 && a.take(7) == "Bearer "@ => a.skip(7),
        _ => match peer {
            Some(p) => p,
            None => "unknown"@,
        },
    }
}

/// The identifier a request is rate limited under.
pub fn extract_client_id(authorization: Option<&str>, peer: Option<&str>) -> (r: String)
    ensures
        r@ == client_id_of(
            match authorization {
                Some(a) => Some(a@),
                None => None,
            },
            match peer {
                Some(p) => Some(p@),
                None => None,
            },
        ),
{
    if let Some(a) = authorization {
        let n = a.unicode_len();
        if n >= 7 {
            let head = a.substring_char(0, 7);
            if same_text(head, "Bearer ") {
                proof {
                    assert(a@.take(7) =~= a@.subrange(0, 7));
                }
                return String::from_str(a.substring_char(7, n));
            }
            proof {
                assert(a@.take(7) =~= a@.subrange(0, 7));
            }
        }
    }
    match peer {
        Some(p) => String::from_str(p),
        None => String::from_str("unknown"),
    }
}

} // verus!
