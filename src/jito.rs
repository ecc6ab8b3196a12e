//! Shapes of the transaction-bundle submission service.

use vstd::prelude::*;
use vstd::string::*;

verus! {

/// Endpoints and defaults of the bundle service; tips are in lamports.
#[derive(Debug, Clone)]
pub struct JitoConfig {
    pub block_engine_url: String,
    pub rpc_url: String,
    pub auth_token: Option<String>,
    pub tip_amount: Option<u64>,
    pub max_retries: u32,
    pub timeout_ms: u64,
}

impl Default for JitoConfig {
    fn default() -> (r: Self)
        ensures
            r.block_engine_url@ == "https://mainnet.block-engine.jito.wtf"@,
            r.rpc_url@ == "https://api.mainnet-beta.solana.com"@,
            r.auth_token is None,
            r.tip_amount == Some(1000u64),
            r.max_retries == 3,
            r.timeout_ms == 30_000,
    {
        JitoConfig {
            block_engine_url: String::from_str("https://mainnet.block-engine.jito.wtf"),
            rpc_url: String::from_str("https://api.mainnet-beta.solana.com"),
            auth_token: None,
            tip_amount: Some(1000),
            max_retries: 3,
            timeout_ms: 30_000,
        }
    }
}

/// A bundle of base64-encoded transactions to submit.
#[derive(Debug, Clone)]
pub struct BundleRequest {
    pub transactions: Vec<String>,
    pub tip_amount: Option<u64>,
}

/// One base64-encoded transaction to submit.
#[derive(Debug, Clone)]
pub struct TransactionRequest {
    pub transaction: String,
    pub tip_amount: Option<u64>,
    pub priority_fee: Option<u64>,
}

/// Outcome of one submitted transaction.
#[derive(Debug, Clone)]
pub struct TransactionResult {
    pub signature: String,
    pub status: String,
    pub slot: Option<u64>,
    pub confirmation_status: Option<String>,
    pub error: Option<String>,
}

/// Outcome of a submitted bundle.
#[derive(Debug, Clone)]
pub struct BundleResult {
    pub bundle_id: String,
    pub status: String,
    pub transactions: Vec<TransactionResult>,
    pub tip_amount: u64,
    pub submitted_at: String,
}

/// Status of one transaction of a bundle.
#[derive(Debug, Clone)]
pub struct TransactionStatusResult {
    pub signature: String,
    pub confirmation_status: String,
    pub slot: Option<u64>,
    pub err: Option<String>,
}

/// Status of a bundle.
#[derive(Debug, Clone)]
pub struct BundleStatusResult {
    pub bundle_id: String,
    pub status: String,
    pub landed_slot: Option<u64>,
    pub transactions: Vec<TransactionStatusResult>,
}

/// Tip accounts and tip amounts, in lamports.
#[derive(Debug, Clone)]
pub struct TipAccountsResult {
    pub tip_accounts: Vec<String>,
    pub current_tip_lamports: u64,
    pub recommended_tip_lamports: u64,
}

} // verus!
