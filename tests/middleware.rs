use trading_api::errors::ApiError;
use trading_api::middleware::{extract_client_id, RateLimitConfig, RateLimitState, RateLimiter};

#[test]
fn rate_limit_admits_up_to_limit_per_window() {
    let config = RateLimitConfig { requests_per_minute: 2, burst_size: 1 };
    let mut state = RateLimitState::new();
    assert!(state.can_make_request(&config, 0));
    assert!(state.can_make_request(&config, 10));
    assert!(!state.can_make_request(&config, 20));
    // the first request leaves the window after sixty seconds
    assert!(state.can_make_request(&config, 60_000));
    assert!(!state.can_make_request(&config, 60_005));
}

#[test]
fn rate_limit_default() {
    let c = RateLimitConfig::default();
    assert_eq!((c.requests_per_minute, c.burst_size), (60, 10));
}

#[test]
fn cleanup_forgets_old_requests() {
    let config = RateLimitConfig { requests_per_minute: 1, burst_size: 1 };
    let mut state = RateLimitState::new();
    assert!(state.can_make_request(&config, 100));
    state.cleanup_old_requests(60_100);
    assert!(state.can_make_request(&config, 60_100));
}

#[test]
fn limiter_counts_each_client_apart() {
    let mut limiter = RateLimiter::new(RateLimitConfig { requests_per_minute: 1, burst_size: 1 });
    assert!(limiter.check_rate_limit("alice", 0).is_ok());
    assert!(limiter.check_rate_limit("bob", 0).is_ok());
    match limiter.check_rate_limit("alice", 30_000) {
        Err(ApiError::RateLimit(m)) => assert_eq!(m, "Rate limit exceeded"),
        _ => panic!("expected a rate-limit error"),
    }
    assert!(limiter.check_rate_limit("alice", 60_000).is_ok());
}

#[test]
fn client_id_prefers_bearer_token() {
    assert_eq!(extract_client_id(Some("Bearer abc"), Some("1.2.3.4")), "abc");
    assert_eq!(extract_client_id(Some("Basic abc"), Some("1.2.3.4")), "1.2.3.4");
    assert_eq!(extract_client_id(Some("Bearer "), None), "");
    assert_eq!(extract_client_id(None, None), "unknown");
}
