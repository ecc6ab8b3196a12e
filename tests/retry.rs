use trading_api::config::RetryConfig;
use trading_api::retry::{calculate_backoff_delay, retry_step, RetryStep};

fn config(enabled: bool) -> RetryConfig {
    RetryConfig { max_retries: 3, base_delay_ms: 1000, max_delay_ms: 10000, enabled }
}

#[test]
fn backoff_doubles_and_caps() {
    let c = config(true);
    assert_eq!(calculate_backoff_delay(0, &c), 1000);
    assert_eq!(calculate_backoff_delay(1, &c), 2000);
    assert_eq!(calculate_backoff_delay(3, &c), 8000);
    assert_eq!(calculate_backoff_delay(4, &c), 10000);
    assert_eq!(calculate_backoff_delay(31, &c), 10000);
}

#[test]
fn backoff_with_large_base() {
    let c = RetryConfig { max_retries: 40, base_delay_ms: u64::MAX, max_delay_ms: u64::MAX, enabled: true };
    assert_eq!(calculate_backoff_delay(0, &c), u64::MAX);
    assert_eq!(calculate_backoff_delay(5, &c), u64::MAX);
}

#[test]
fn retry_steps() {
    let c = config(true);
    assert_eq!(retry_step(0, true, &c), RetryStep::Done);
    assert_eq!(retry_step(0, false, &c), RetryStep::RetryAfter(1000));
    assert_eq!(retry_step(2, false, &c), RetryStep::RetryAfter(4000));
    assert_eq!(retry_step(3, false, &c), RetryStep::GiveUp);
    assert_eq!(retry_step(0, false, &config(false)), RetryStep::GiveUp);
}

#[test]
fn retryable_statuses() {
    assert!(trading_api::retry::is_rate_limit_response(429));
    assert!(!trading_api::retry::is_rate_limit_response(500));
    assert!(trading_api::retry::is_retryable_error(503));
    assert!(trading_api::retry::is_retryable_error(408));
    assert!(trading_api::retry::is_retryable_error(429));
    assert!(!trading_api::retry::is_retryable_error(404));
    assert!(!trading_api::retry::is_retryable_error(600));
}
