use trading_api::config::{parse_unsigned, Config};
use trading_api::errors::ApiError;
use trading_api::jito::JitoConfig;
use trading_api::pumpfun::{CommitmentLevel, Network, PumpFunConfig, PumpFunService};

#[test]
fn default_config() {
    let c = Config::default();
    assert_eq!(c.server.port, 3000);
    assert_eq!(c.server.host, "0.0.0.0");
    assert_eq!(c.alpaca.base_url, "https://api.alpaca.markets");
    assert_eq!(c.retry.max_retries, 3);
    assert_eq!(c.rate_limiting.requests_per_minute, 60);
    assert!(c.reddit.is_none());
}

#[test]
fn alpaca_headers_are_key_and_secret() {
    let mut c = Config::default();
    c.alpaca.api_key = "key".to_string();
    c.alpaca.api_secret = "secret".to_string();
    assert_eq!(c.alpaca_headers(), ("key".to_string(), "secret".to_string()));
}

#[test]
fn error_status_and_text() {
    let e = ApiError::ValidationError("bad".to_string());
    assert_eq!(e.status_code(), 400);
    assert_eq!(e.describe(), "validation error: bad");
    assert_eq!(e.detail(), "bad");
    assert_eq!(ApiError::Upstream("x".to_string()).status_code(), 502);
    assert_eq!(ApiError::RateLimit("x".to_string()).status_code(), 429);
    assert_eq!(ApiError::AuthError("x".to_string()).status_code(), 401);
    assert_eq!(ApiError::NotFound("x".to_string()).status_code(), 404);
    assert_eq!(ApiError::InternalError("x".to_string()).status_code(), 500);
    assert_eq!(ApiError::Configuration("x".to_string()).describe(), "configuration error: x");
}

#[test]
fn launchpad_settings() {
    let mut c = PumpFunConfig::default();
    assert_eq!(c.commitment_level(), CommitmentLevel::Processed);
    assert_eq!(c.network(), Network::Mainnet);
    c.commitment = "finalized".to_string();
    c.rpc_url = "https://api.devnet.solana.com".to_string();
    assert_eq!(c.commitment_level(), CommitmentLevel::Finalized);
    assert_eq!(c.network(), Network::Devnet);
    c.rpc_url = "http://127.0.0.1:8899".to_string();
    assert_eq!(c.network(), Network::Localnet);
    let s = PumpFunService::new(c);
    assert_eq!(s.config().commitment, "finalized");
}

#[test]
fn jito_defaults() {
    let c = JitoConfig::default();
    assert_eq!(c.tip_amount, Some(1000));
    assert_eq!(c.max_retries, 3);
}

fn vars(pairs: &[(&str, &str)]) -> Vec<(String, String)> {
    pairs.iter().map(|(k, v)| (k.to_string(), v.to_string())).collect()
}

#[test]
fn config_from_vars_requires_credentials() {
    assert_eq!(
        Config::from_vars(&vars(&[])).err().unwrap(),
        "ALPACA_API_KEY_ID/APCA_API_KEY_ID missing"
    );
    assert_eq!(
        Config::from_vars(&vars(&[("APCA_API_KEY_ID", "k")])).err().unwrap(),
        "ALPACA_API_SECRET_KEY/APCA_API_SECRET_KEY missing"
    );
}

#[test]
fn config_from_vars_defaults_and_overrides() {
    let c = Config::from_vars(&vars(&[
        ("ALPACA_API_KEY_ID", "key"),
        ("APCA_API_SECRET_KEY", "secret"),
        ("PORT", "8080"),
        ("RATE_LIMIT_ENABLED", "false"),
        ("RETRY_MAX_RETRIES", "not a number"),
        ("RETRY_BASE_DELAY_MS", "+250"),
        ("ENABLE_REQUEST_LOGGING", "yes"),
    ]))
    .ok()
    .unwrap();
    assert_eq!(c.alpaca_headers(), ("key".to_string(), "secret".to_string()));
    assert_eq!(c.server.port, 8080);
    assert_eq!(c.server.host, "0.0.0.0");
    assert_eq!(c.logging.level, "info");
    assert!(c.logging.enable_request_logging);
    assert!(!c.rate_limiting.enabled);
    assert_eq!(c.rate_limiting.requests_per_minute, 60);
    assert_eq!(c.retry.max_retries, 3);
    assert_eq!(c.retry.base_delay_ms, 250);
    assert_eq!(c.retry.max_delay_ms, 10000);
    assert!(c.reddit.is_none());
}

#[test]
fn config_port_out_of_range_falls_back() {
    let c = Config::from_vars(&vars(&[
        ("ALPACA_API_KEY_ID", "k"),
        ("ALPACA_API_SECRET_KEY", "s"),
        ("PORT", "70000"),
        ("REDDIT_CLIENT_ID", "a"),
        ("REDDIT_CLIENT_SECRET", "b"),
        ("REDDIT_USERNAME", "c"),
        ("REDDIT_PASSWORD", "d"),
    ]))
    .ok()
    .unwrap();
    assert_eq!(c.server.port, 3000);
    assert_eq!(c.reddit.unwrap().username, "c");
}

#[test]
fn parse_unsigned_cases() {
    assert_eq!(parse_unsigned("42", 100), Some(42));
    assert_eq!(parse_unsigned("+7", 100), Some(7));
    assert_eq!(parse_unsigned("+", 100), None);
    assert_eq!(parse_unsigned("", 100), None);
    assert_eq!(parse_unsigned("-1", 100), None);
    assert_eq!(parse_unsigned("101", 100), None);
    assert_eq!(parse_unsigned("18446744073709551615", u64::MAX), Some(u64::MAX));
    assert_eq!(parse_unsigned("18446744073709551616", u64::MAX), None);
}

#[test]
fn network_detection_text_search() {
    let mut c = PumpFunConfig::default();
    c.rpc_url = "http://localhost:8899".to_string();
    assert_eq!(c.network(), Network::Localnet);
    c.rpc_url = "".to_string();
    assert_eq!(c.network(), Network::Mainnet);
}
