//! Request and response shapes of the service's endpoints.

use vstd::prelude::*;

verus! {

/// Answer of the health check.
#[derive(Debug, Clone, Copy)]
pub struct HealthResponse {
    pub status: &'static str,
}

/// Body of an error response.
#[derive(Debug, Clone)]
pub struct ErrorResponse {
    pub error: String,
}

/// A query that only bounds the number of items.
#[derive(Debug, Clone, Copy, PartialEq, Eq, Structural)]
pub struct LimitQuery {
    pub limit: Option<usize>,
}

/// Query of the crypto market-data listing endpoints.
#[derive(Debug, Clone)]
pub struct CoinGeckoQuery {
    pub limit: Option<usize>,
    pub vs_currency: Option<String>,
    pub order: Option<String>,
    pub page: Option<usize>,
    pub sparkline: Option<bool>,
    pub price_change_percentage: Option<String>,
}

/// Query of the spot-price endpoint.
#[derive(Debug, Clone)]
pub struct SimplePriceQuery {
    pub ids: String,
    pub vs_currencies: String,
    pub include_24hr_change: Option<bool>,
}

/// Envelope of a crypto market-data response.
#[derive(Debug, Clone)]
pub struct CoinGeckoResponse<T> {
    pub success: bool,
    pub data: T,
    pub timestamp: i64,
}

/// Envelope of the market-context text.
#[derive(Debug, Clone)]
pub struct MarketContextResponse {
    pub success: bool,
    pub context: String,
    pub timestamp: i64,
}

/// Query of the high-open-interest endpoint for one ticker.
#[derive(Debug, Clone)]
pub struct HighOpenInterestQuery {
    pub ticker: String,
    pub option_type: Option<String>,
}

/// Query of the high-open-interest endpoint for a comma-separated list of tickers.
#[derive(Debug, Clone)]
pub struct HighOpenInterestBatchQuery {
    pub tickers: String,
    pub option_type: Option<String>,
}

/// Query of the perpetuals-exchange endpoints.
#[derive(Debug, Clone)]
pub struct HyperliquidQuery {
    pub limit: Option<u32>,
    pub depth: Option<u32>,
    pub interval: Option<String>,
    pub start_time: Option<u64>,
    pub end_time: Option<u64>,
}

/// Envelope of a perpetuals-exchange response.
#[derive(Debug, Clone)]
pub struct HyperliquidResponse<T> {
    pub success: bool,
    pub data: T,
    pub timestamp: u64,
    pub source: String,
}

/// Query of the spot-exchange endpoints.
#[derive(Debug, Clone)]
pub struct KrakenQuery {
    pub pairs: Option<String>,
    pub depth: Option<u32>,
    pub limit: Option<usize>,
    pub since: Option<u64>,
    pub interval: Option<u32>,
}

/// Envelope of a spot-exchange response.
#[derive(Debug, Clone)]
pub struct KrakenResponse<T> {
    pub success: bool,
    pub data: T,
    pub timestamp: u64,
}

/// An asset listed by the spot exchange.
#[derive(Debug, Clone)]
pub struct KrakenAsset {
    pub name: String,
    pub altname: String,
    pub aclass: String,
    pub decimals: u32,
    pub display_decimals: u32,
}

/// A trading pair listed by the spot exchange.
#[derive(Debug, Clone)]
pub struct KrakenAssetPair {
    pub name: String,
    pub altname: String,
    pub wsname: Option<String>,
    pub aclass_base: String,
    pub base: String,
    pub aclass_quote: String,
    pub quote: String,
    pub pair_decimals: u32,
    pub lot_decimals: u32,
    pub lot_multiplier: u32,
    pub ordermin: Option<String>,
}

/// Query of the token-launchpad endpoints.
#[derive(Debug, Clone)]
pub struct PumpFunQuery {
    pub limit: Option<u32>,
    pub sort_by: Option<String>,
    pub time_range: Option<String>,
}

/// Envelope of a token-launchpad response.
#[derive(Debug, Clone)]
pub struct PumpFunResponse<T> {
    pub success: bool,
    pub data: T,
    pub timestamp: u64,
    pub source: String,
}

/// Query of the chain-asset listing endpoints.
#[derive(Debug, Clone)]
pub struct SolanaQuery {
    pub limit: Option<u32>,
    pub page: Option<u32>,
    pub verified_only: Option<bool>,
    pub show_fungible: Option<bool>,
}

/// Query of the chain-asset search endpoint.
#[derive(Debug, Clone)]
pub struct AssetSearchQuery {
    pub owner: Option<String>,
    pub creator: Option<String>,
    pub authority: Option<String>,
    pub collection: Option<String>,
    pub limit: Option<u32>,
    pub page: Option<u32>,
}

/// Envelope of a chain-asset response.
#[derive(Debug, Clone)]
pub struct SolanaResponse<T> {
    pub success: bool,
    pub data: T,
    pub timestamp: u64,
    pub source: String,
}

/// State of one upstream service.
#[derive(Debug, Clone)]
pub struct ServiceStatus {
    pub status: String,
    pub last_check: u64,
    pub error_count: u64,
    pub response_time_ms: Option<u64>,
}

/// State of the whole service, with the state of each upstream service by name.
#[derive(Debug, Clone)]
pub struct SystemStatus {
    pub status: String,
    pub timestamp: u64,
    pub uptime: u64,
    pub version: String,
    pub environment: String,
    pub services: std::collections::HashMap<String, ServiceStatus>,
}

/// Query of the stock-screener endpoint.
#[derive(Debug, Clone)]
pub struct ScreenerQuery {
    pub signal: Option<String>,
    pub order: Option<String>,
    pub screener: Option<String>,
    pub limit: Option<usize>,
}

/// A transaction signature reported for a chain asset.
#[derive(Debug, Clone)]
pub struct SolanaTransactionSignature {
    pub signature: String,
    pub slot: u64,
    pub block_time: Option<i64>,
    pub memo: Option<String>,
    pub status: String,
}

/// An account owned by an on-chain program.
#[derive(Debug, Clone)]
pub struct ProgramAccountData {
    pub pubkey: String,
    pub lamports: u64,
    pub owner: String,
    pub executable: bool,
}

} // verus!
