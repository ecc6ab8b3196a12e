//! Service settings.

use vstd::prelude::*;
use vstd::string::*;

use crate::text::same_text;

verus! {

/// Credentials and endpoint of the options data provider.
#[derive(Debug, Clone)]
pub struct AlpacaConfig {
    pub api_key: String,
    pub api_secret: String,
    pub base_url: String,
}

/// Credentials for the discussion-forum source of trending symbols.
#[derive(Debug, Clone)]
pub struct RedditConfig {
    pub client_id: String,
    pub client_secret: String,
    pub username: String,
    pub password: String,
}

/// Address the service listens on.
#[derive(Debug, Clone)]
pub struct ServerConfig {
    pub port: u16,
    pub host: String,
}

/// Log level and whether each request is logged.
#[derive(Debug, Clone)]
pub struct LoggingConfig {
    pub level: String,
    pub enable_request_logging: bool,
}

/// Limits on how often one client may call.
#[derive(Debug, Clone, Copy, PartialEq, Eq, Structural)]
pub struct RateLimitConfig {
    pub requests_per_minute: u32,
    pub burst_size: u32,
    pub enabled: bool,
}

/// How failed upstream calls are retried.
#[derive(Debug, Clone, Copy, PartialEq, Eq, Structural)]
pub struct RetryConfig {
    pub max_retries: u32,
    pub base_delay_ms: u64,
    pub max_delay_ms: u64,
    pub enabled: bool,
}

/// All settings of the service.
#[derive(Debug, Clone)]
pub struct Config {
    pub alpaca: AlpacaConfig,
    pub reddit: Option<RedditConfig>,
    pub server: ServerConfig,
    pub logging: LoggingConfig,
    pub rate_limiting: RateLimitConfig,
    pub retry: RetryConfig,
}

/// Default port of the service.
pub const DEFAULT_PORT: u16 = 3000;

/// The settings used when nothing is configured.
pub open spec fn is_default_config(c: Config) -> bool {
    &&& c.alpaca.api_key@.len() == 0
    &&& c.alpaca.api_secret@.len() == 0
    &&& c.alpaca.base_url@ == "https://api.alpaca.markets"@
    &&& c.reddit is None
    &&& c.server.port == DEFAULT_PORT
    &&& c.server.host@ == "0.0.0.0"@
    &&& c.logging.level@ == "info"@
    &&& c.logging.enable_request_logging
    &&& c.rate_limiting == RateLimitConfig { requests_per_minute: 60, burst_size: 10, enabled: true }
    &&& c.retry == RetryConfig {
        max_retries: 3,
        base_delay_ms: 1000,
        max_delay_ms: 10000,
        enabled: true,
    }
}

impl Default for Config {
    fn default() -> (r: Self)
        ensures
            is_default_config(r),
    {
        Config {
            alpaca: AlpacaConfig {
                api_key: String::new(),
                api_secret: String::new(),
                base_url: String::from_str("https://api.alpaca.markets"),
            },
            reddit: None,
            server: ServerConfig { port: DEFAULT_PORT, host: String::from_str("0.0.0.0") },
            logging: LoggingConfig { level: String::from_str("info"), enable_request_logging: true },
            rate_limiting: RateLimitConfig { requests_per_minute: 60, burst_size: 10, enabled: true },
            retry: RetryConfig {
                max_retries: 3,
                base_delay_ms: 1000,
                max_delay_ms: 10000,
                enabled: true,
            },
        }
    }
}

impl Config {
    /// The options provider's key and secret, as sent in its request headers.
    pub fn alpaca_headers(&self) -> (r: (String, String))
        ensures
            r.0@ == self.alpaca.api_key@,
            r.1@ == self.alpaca.api_secret@,
    {
        (self.alpaca.api_key.clone(), self.alpaca.api_secret.clone())
    }
}

/// The value of the last setting named `name` in `vars`.
pub open spec fn var_of(vars: Seq<(String, String)>, name: Seq<char>) -> Option<Seq<char>>
    decreases vars.len(),
{
    if vars.len() == 0 {
        None
    } else if vars.last().0@ == name {
        Some(vars.last().1@)
    } else {
        var_of(vars.drop_last(), name)
    }
}

/// Looks a setting up by name; the last of several wins.
pub fn lookup_var(vars: &Vec<(String, String)>, name: &str) -> (r: Option<String>)
    ensures
        match r {
            Some(v) => var_of(vars@, name@) == Some(v@),
            None => var_of(vars@, name@) is None,
        },
{
    let mut found: Option<String> = None;
    let mut i: usize = 0;
    while i < vars.len()
        invariant
            i <= vars@.len(),
            match found {
                Some(v) => var_of(vars@.take(i as int), name@) == Some(v@),
                None => var_of(vars@.take(i as int), name@) is None,
            },
        decreases vars@.len() - i,
    {
        assert(vars@.take(i as int + 1).drop_last() =~= vars@.take(i as int));
        if same_text(vars[i].0.as_str(), name) {
            found = Some(vars[i].1.clone());
        }
        i = i + 1;
    }
    assert(vars@.take(i as int) =~= vars@);
    found
}

/// Whether a character is an ASCII decimal digit.
pub open spec fn is_digit(c: char) -> bool {
    '0' <= c && c <= '9'
}

/// The number that a run of decimal digits writes.
pub open spec fn digits_value(s: Seq<char>) -> nat
    decreases s.len(),
{
    if s.len() == 0 {
        0
    } else {
        digits_value(s.drop_last()) * 10 + (s.last() as nat - '0' as nat) as nat
    }
}

/// The digits of an unsigned decimal literal, after its optional leading `+`.
pub open spec fn unsigned_digits(s: Seq<char>) -> Seq<char> {
    if s.len() > 0 && s[0] == '+' {
        s.drop_first()
    } else {
        s
    }
}

/// The value of `s` read as an unsigned decimal no greater than `max`, as the standard
/// library's integer parsing reads it: an optional `+`, then at least one digit.
pub open spec fn unsigned_value(s: Seq<char>, max: u64) -> Option<u64> {
    let d = unsigned_digits(s);
    if d.len() > 0 && (forall|i: int| 0 <= i < d.len() ==> is_digit(#[trigger] d[i]))
        && digits_value(d) <= max {
        Some(digits_value(d) as u64)
    } else {
        None
    }
}

/// Reads `s` as an unsigned decimal no greater than `max`.
pub fn parse_unsigned(s: &str, max: u64) -> (r: Option<u64>)
    ensures
        r == unsigned_value(s@, max),
{
    let n = s.unicode_len();
    let mut i: usize = 0;
    if n > 0 && s.get_char(0) == '+' {
        i = 1;
    }
    let ghost d = unsigned_digits(s@);
    assert(d =~= s@.skip(i as int));
    if i == n {
        return None;
    }
    let start = i;
    let mut value: u64 = 0;
    while i < n
        invariant
            n == s@.len(),
            start <= i <= n,
            d == s@.skip(start as int),
            d == unsigned_digits(s@),
            start < n,
            forall|j: int| 0 <= j < i - start ==> is_digit(#[trigger] d[j]),
            value == digits_value(d.take(i - start)),
            value <= max,
        decreases n - i,
    {
        let c = s.get_char(i);
        assert(d[i - start] == c);
        if !('0' <= c && c <= '9') {
            assert(!is_digit(d[i - start]));
            return None;
        }
        let digit = (c as u32 - '0' as u32) as u64;
        assert(d.take(i - start + 1).drop_last() =~= d.take(i - start));
        assert(digits_value(d.take(i - start + 1)) == value * 10 + digit);
        if digit > max || value > (max - digit) / 10 {
            proof {
                if digit <= max {
                    let q = (max - digit) / 10;
                    assert(q * 10 + 10 > max - digit) by (nonlinear_arith)
                        requires
                            q == (max - digit) / 10,
                            max >= digit,
                    ;
                    assert(value >= q + 1);
                    assert(value * 10 >= q * 10 + 10) by (nonlinear_arith)
                        requires
                            value >= q + 1,
                    ;
                }
                assert(value * 10 + digit > max);
                if forall|j: int| 0 <= j < d.len() ==> is_digit(#[trigger] d[j]) {
                    lemma_digits_monotone(d, i - start + 1);
                    assert(digits_value(d) > max);
                }
            }
            return None;
        }
        proof {
            assert(value * 10 + digit <= max) by (nonlinear_arith)
                requires
                    value <= (max - digit) / 10,
                    digit <= max,
            ;
        }
        value = value * 10 + digit;
        i = i + 1;
    }
    assert(d.take(i - start) =~= d);
    Some(value)
}

/// A longer run of digits never writes a smaller number.
proof fn lemma_digits_monotone(d: Seq<char>, k: int)
    requires
        0 <= k <= d.len(),
        forall|j: int| 0 <= j < d.len() ==> is_digit(#[trigger] d[j]),
    ensures
        digits_value(d.take(k)) <= digits_value(d),
    decreases d.len(),
{
    if k < d.len() {
        let e = d.drop_last();
        assert(e.take(k) =~= d.take(k));
        assert forall|j: int| 0 <= j < e.len() implies is_digit(#[trigger] e[j]) by {
            assert(e[j] == d[j]);
        }
        lemma_digits_monotone(e, k);
    } else {
        assert(d.take(k) =~= d);
    }
}

/// A numeric setting: its value where it reads as an unsigned decimal up to `max`,
/// `default` where it is absent or does not.
pub open spec fn number_setting(v: Option<Seq<char>>, max: u64, default: u64) -> u64 {
    match v {
        Some(t) => match unsigned_value(t, max) {
            Some(x) => x,
            None => default,
        },
        None => default,
    }
}

/// A yes/no setting: `true` or `false` exactly, `default` otherwise.
pub open spec fn flag_setting(v: Option<Seq<char>>, default: bool) -> bool {
    match v {
        Some(t) => if t == "true"@ {
            true
        } else if t == "false"@ {
            false
        } else {
            default
        },
        None => default,
    }
}

/// A text setting, `default` where absent.
pub open spec fn text_setting(v: Option<Seq<char>>, default: Seq<char>) -> Seq<char> {
    match v {
        Some(t) => t,
        None => default,
    }
}

/// The first of two settings that is present.
pub open spec fn either_var(vars: Seq<(String, String)>, a: Seq<char>, b: Seq<char>) -> Option<
    Seq<char>,
> {
    match var_of(vars, a) {
        Some(t) => Some(t),
        None => var_of(vars, b),
    }
}

fn number_or(vars: &Vec<(String, String)>, name: &str, max: u64, default: u64) -> (r: u64)
    ensures
        r == number_setting(var_of(vars@, name@), max, default),
{
    match lookup_var(vars, name) {
        Some(t) => match parse_unsigned(t.as_str(), max) {
            Some(x) => x,
            None => default,
        },
        None => default,
    }
}

fn flag_or(vars: &Vec<(String, String)>, name: &str, default: bool) -> (r: bool)
    ensures
        r == flag_setting(var_of(vars@, name@), default),
{
    match lookup_var(vars, name) {
        Some(t) => if same_text(t.as_str(), "true") {
            true
        } else if same_text(t.as_str(), "false") {
            false
        } else {
            default
        },
        None => default,
    }
}

fn text_or(vars: &Vec<(String, String)>, name: &str, default: &str) -> (r: String)
    ensures
        r@ == text_setting(var_of(vars@, name@), default@),
{
    match lookup_var(vars, name) {
        Some(t) => t,
        None => String::from_str(default),
    }
}

fn either_of(vars: &Vec<(String, String)>, a: &str, b: &str) -> (r: Option<String>)
    ensures
        match r {
            Some(v) => either_var(vars@, a@, b@) == Some(v@),
            None => either_var(vars@, a@, b@) is None,
        },
{
    match lookup_var(vars, a) {
        Some(t) => Some(t),
        None => lookup_var(vars, b),
    }
}

impl Config {
    /// Settings read from named values (the process environment): the options provider's key
    /// and secret are required, everything else has a default.
    pub fn from_vars(vars: &Vec<(String, String)>) -> (r: Result<Self, String>)
        ensures
            match r {
                Err(m) => {
                    ||| either_var(vars@, "ALPACA_API_KEY_ID"@, "APCA_API_KEY_ID"@) is None && m@
                        == "ALPACA_API_KEY_ID/APCA_API_KEY_ID missing"@
                    ||| either_var(vars@, "ALPACA_API_KEY_ID"@, "APCA_API_KEY_ID"@) is Some
                        && either_var(vars@, "ALPACA_API_SECRET_KEY"@, "APCA_API_SECRET_KEY"@) is None
                        && m@ == "ALPACA_API_SECRET_KEY/APCA_API_SECRET_KEY missing"@
                },
                Ok(c) => {
                    &&& either_var(vars@, "ALPACA_API_KEY_ID"@, "APCA_API_KEY_ID"@) == Some(
                        c.alpaca.api_key@,
                    )
                    &&& either_var(vars@, "ALPACA_API_SECRET_KEY"@, "APCA_API_SECRET_KEY"@) == Some(
                        c.alpaca.api_secret@,
                    )
                    &&& c.alpaca.base_url@ == "https://api.alpaca.markets"@
                    &&& match c.reddit {
                        Some(rc) => var_of(vars@, "REDDIT_CLIENT_ID"@) == Some(rc.client_id@)
                            && var_of(vars@, "REDDIT_CLIENT_SECRET"@) == Some(rc.client_secret@)
                            && var_of(vars@, "REDDIT_USERNAME"@) == Some(rc.username@) && var_of(
                            vars@,
                            "REDDIT_PASSWORD"@,
                        ) == Some(rc.password@),
                        None => var_of(vars@, "REDDIT_CLIENT_ID"@) is None || var_of(
                            vars@,
                            "REDDIT_CLIENT_SECRET"@,
                        ) is None || var_of(vars@, "REDDIT_USERNAME"@) is None || var_of(
                            vars@,
                            "REDDIT_PASSWORD"@,
                        ) is None,
                    }
                    &&& c.server.port == number_setting(var_of(vars@, "PORT"@), 65535, 3000)
                    &&& c.server.host@ == text_setting(var_of(vars@, "HOST"@), "0.0.0.0"@)
                    &&& c.logging.level@ == text_setting(var_of(vars@, "RUST_LOG"@), "info"@)
                    &&& c.logging.enable_request_logging == flag_setting(
                        var_of(vars@, "ENABLE_REQUEST_LOGGING"@),
                        true,
                    )
                    &&& c.rate_limiting.requests_per_minute == number_setting(
                        var_of(vars@, "RATE_LIMIT_REQUESTS_PER_MINUTE"@),
                        0xFFFF_FFFF,
                        60,
                    )
                    &&& c.rate_limiting.burst_size == number_setting(
                        var_of(vars@, "RATE_LIMIT_BURST_SIZE"@),
                        0xFFFF_FFFF,
                        10,
                    )
                    &&& c.rate_limiting.enabled == flag_setting(
                        var_of(vars@, "RATE_LIMIT_ENABLED"@),
                        true,
                    )
                    &&& c.retry.max_retries == number_setting(
                        var_of(vars@, "RETRY_MAX_RETRIES"@),
                        0xFFFF_FFFF,
                        3,
                    )
                    &&& c.retry.base_delay_ms == number_setting(
                        var_of(vars@, "RETRY_BASE_DELAY_MS"@),
                        u64::MAX,
                        1000,
                    )
                    &&& c.retry.max_delay_ms == number_setting(
                        var_of(vars@, "RETRY_MAX_DELAY_MS"@),
                        u64::MAX,
                        10000,
                    )
                    &&& c.retry.enabled == flag_setting(var_of(vars@, "RETRY_ENABLED"@), true)
                },
            },
    {
        let api_key = match either_of(vars, "ALPACA_API_KEY_ID", "APCA_API_KEY_ID") {
            Some(k) => k,
            None => {
                return Err(String::from_str("ALPACA_API_KEY_ID/APCA_API_KEY_ID missing"));
            },
        };
        let api_secret = match either_of(vars, "ALPACA_API_SECRET_KEY", "APCA_API_SECRET_KEY") {
            Some(k) => k,
            None => {
                return Err(String::from_str("ALPACA_API_SECRET_KEY/APCA_API_SECRET_KEY missing"));
            },
        };
        let alpaca = AlpacaConfig {
            api_key,
            api_secret,
            base_url: String::from_str("https://api.alpaca.markets"),
        };
        let reddit = match (
            lookup_var(vars, "REDDIT_CLIENT_ID"),
            lookup_var(vars, "REDDIT_CLIENT_SECRET"),
            lookup_var(vars, "REDDIT_USERNAME"),
            lookup_var(vars, "REDDIT_PASSWORD"),
        ) {
            (Some(client_id), Some(client_secret), Some(username), Some(password)) => Some(
                RedditConfig { client_id, client_secret, username, password },
            ),
            _ => None,
        };
        let server = ServerConfig {
            port: number_or(vars, "PORT", 65535, 3000) as u16,
            host: text_or(vars, "HOST", "0.0.0.0"),
        };
        let logging = LoggingConfig {
            level: text_or(vars, "RUST_LOG", "info"),
            enable_request_logging: flag_or(vars, "ENABLE_REQUEST_LOGGING", true),
        };
        let rate_limiting = RateLimitConfig {
            requests_per_minute: number_or(vars, "RATE_LIMIT_REQUESTS_PER_MINUTE", 0xFFFF_FFFF, 60)
                as u32,
            burst_size: number_or(vars, "RATE_LIMIT_BURST_SIZE", 0xFFFF_FFFF, 10) as u32,
            enabled: flag_or(vars, "RATE_LIMIT_ENABLED", true),
        };
        let retry = RetryConfig {
            max_retries: number_or(vars, "RETRY_MAX_RETRIES", 0xFFFF_FFFF, 3) as u32,
            base_delay_ms: number_or(vars, "RETRY_BASE_DELAY_MS", u64::MAX, 1000),
            max_delay_ms: number_or(vars, "RETRY_MAX_DELAY_MS", u64::MAX, 10000),
            enabled: flag_or(vars, "RETRY_ENABLED", true),
        };
        Ok(Config { alpaca, reddit, server, logging, rate_limiting, retry })
    }
}

} // verus!
