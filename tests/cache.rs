use trading_api::cache::{cache_key, cache_ttl_secs, lookback_days, CacheEntry, MemoryCache};

#[test]
fn test_cache_key_generation() {
    let key = cache_key("yahoo_prices", &[("symbol", "AAPL"), ("range", "1d")]);
    assert_eq!(key, "yahoo_prices:symbol=AAPL:range=1d");
}

#[test]
fn test_cache_basic_operations() {
    let mut cache: MemoryCache<String> = MemoryCache::new();
    let key = "test_key";
    let value = String::from("{\"message\":\"hello\"}");

    cache.set(key.to_string(), value.clone(), 60_000, 1_000);
    let cached_value = cache.get(key, 1_000).cloned();
    assert_eq!(cached_value, Some(value));
}

#[test]
fn test_cache_expiration() {
    let mut cache: MemoryCache<String> = MemoryCache::new();
    let key = "expiring_key";
    let value = String::from("{\"message\":\"expires soon\"}");

    cache.set(key.to_string(), value.clone(), 10, 0);
    let cached_value = cache.get(key, 20).cloned();
    assert_eq!(cached_value, None);
}

#[test]
fn cache_key_without_parameters_is_the_prefix() {
    assert_eq!(cache_key("news", &[]), "news");
}

#[test]
fn cache_round_trip_then_miss_after_ttl() {
    let mut cache: MemoryCache<u32> = MemoryCache::new();
    cache.set("k".to_string(), 7, 100, 50);
    assert_eq!(cache.get("k", 50), Some(&7));
    assert_eq!(cache.get("k", 150), Some(&7));
    assert_eq!(cache.get("k", 151), None);
    assert_eq!(cache.get("other", 50), None);
}

#[test]
fn cache_set_replaces_existing_entry() {
    let mut cache: MemoryCache<u32> = MemoryCache::new();
    cache.set("k".to_string(), 1, 10, 0);
    cache.set("k".to_string(), 2, 1_000, 0);
    assert_eq!(cache.size(), 1);
    assert_eq!(cache.get("k", 500), Some(&2));
}

#[test]
fn cache_cleanup_removes_only_expired() {
    let mut cache: MemoryCache<u32> = MemoryCache::new();
    cache.set("short".to_string(), 1, 10, 0);
    cache.set("long".to_string(), 2, 1_000, 0);
    assert_eq!(cache.size(), 2);
    cache.cleanup_expired(500);
    assert_eq!(cache.size(), 1);
    assert_eq!(cache.get("long", 500), Some(&2));
    assert_eq!(cache.get("short", 5), None);
    cache.clear();
    assert_eq!(cache.size(), 0);
}

#[test]
fn cache_entry_expiry() {
    let e = CacheEntry::new("v", 10, 5);
    assert_eq!(e.expires_at, 15);
    assert!(!e.is_expired(15));
    assert!(e.is_expired(16));
}

#[test]
fn cache_ttl_by_range() {
    assert_eq!(cache_ttl_secs("1mo"), 300);
    assert_eq!(cache_ttl_secs("3mo"), 300);
    assert_eq!(cache_ttl_secs("6mo"), 900);
    assert_eq!(cache_ttl_secs("1y"), 900);
    assert_eq!(cache_ttl_secs("2y"), 1800);
    assert_eq!(cache_ttl_secs("5y"), 1800);
}

#[test]
fn lookback_days_by_range() {
    assert_eq!(lookback_days("1mo"), 30);
    assert_eq!(lookback_days("3mo"), 90);
    assert_eq!(lookback_days("6mo"), 180);
    assert_eq!(lookback_days("1y"), 365);
    assert_eq!(lookback_days("2y"), 730);
    assert_eq!(lookback_days("5y"), 1825);
    assert_eq!(lookback_days("weird"), 30);
}

#[test]
fn stale_entry_is_evicted_on_read() {
    let mut cache: MemoryCache<u32> = MemoryCache::new();
    cache.set("a".to_string(), 1, 10, 0);
    cache.set("b".to_string(), 2, 100, 0);
    assert!(!cache.evict_if_expired("a", 10));
    assert!(!cache.evict_if_expired("missing", 10));
    assert!(cache.evict_if_expired("a", 11));
    assert_eq!(cache.size(), 1);
    assert_eq!(cache.get("b", 11), Some(&2));
    assert!(!cache.evict_if_expired("a", 11));
}

#[test]
fn reading_a_stale_entry_removes_it() {
    let mut cache: MemoryCache<u32> = MemoryCache::new();
    cache.set("a".to_string(), 1, 10, 0);
    cache.set("b".to_string(), 2, 100, 0);
    assert_eq!(cache.size(), 2);
    assert_eq!(cache.get("a", 10), Some(&1));
    assert_eq!(cache.size(), 2);
    assert_eq!(cache.get("a", 11), None);
    assert_eq!(cache.size(), 1);
    assert_eq!(cache.get("b", 11), Some(&2));
}
