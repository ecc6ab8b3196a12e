//! Settings and shapes of the token-launchpad service.

use vstd::prelude::*;
use vstd::string::*;

use crate::text::{contains_text, has_text, same_text};

verus! {

/// Priority fee settings of launchpad transactions.
#[derive(Debug, Clone, Copy, PartialEq, Eq, Structural)]
pub struct PumpFunPriorityFee {
    pub unit_limit: Option<u32>,
    pub unit_price: Option<u64>,
}

/// Settings of the launchpad client.
#[derive(Debug, Clone)]
pub struct PumpFunConfig {
    pub rpc_url: String,
    pub commitment: String,
    pub private_key: Option<String>,
    pub priority_fee: PumpFunPriorityFee,
}

impl Default for PumpFunConfig {
    fn default() -> (r: Self)
        ensures
            r.rpc_url@ == "https://api.mainnet-beta.solana.com"@,
            r.commitment@ == "processed"@,
            r.private_key is None,
            r.priority_fee == (PumpFunPriorityFee {
                unit_limit: Some(100_000u32),
                unit_price: Some(100_000_000u64),
            }),
    {
        PumpFunConfig {
            rpc_url: String::from_str("https://api.mainnet-beta.solana.com"),
            commitment: String::from_str("processed"),
            private_key: None,
            priority_fee: PumpFunPriorityFee { unit_limit: Some(100_000), unit_price: Some(100_000_000) },
        }
    }
}

/// How final a transaction must be before it is reported.
#[derive(Debug, Clone, Copy, PartialEq, Eq, Structural)]
pub enum CommitmentLevel {
    Processed,
    Confirmed,
    Finalized,
}

/// Which network an endpoint belongs to.
#[derive(Debug, Clone, Copy, PartialEq, Eq, Structural)]
pub enum Network {
    Localnet,
    Devnet,
    Mainnet,
}

/// The commitment level a setting names; unknown names mean `Processed`.
pub open spec fn commitment_of(name: Seq<char>) -> CommitmentLevel {
    if name == "confirmed"@ {
        CommitmentLevel::Confirmed
    } else if name == "finalized"@ {
        CommitmentLevel::Finalized
    } else {
        CommitmentLevel::Processed
    }
}

/// The network an RPC endpoint belongs to, read from its address.
pub open spec fn network_of(url: Seq<char>) -> Network {
    if contains_text(url, "localhost"@) || contains_text(url, "127.0.0.1"@) {
        Network::Localnet
    } else if contains_text(url, "devnet"@) {
        Network::Devnet
    } else {
        Network::Mainnet
    }
}

impl PumpFunConfig {
    /// The commitment level that the settings ask for.
    pub fn commitment_level(&self) -> (r: CommitmentLevel)
        ensures
            r == commitment_of(self.commitment@),
    {
        if same_text(self.commitment.as_str(), "confirmed") {
            CommitmentLevel::Confirmed
        } else if same_text(self.commitment.as_str(), "finalized") {
            CommitmentLevel::Finalized
        } else {
            CommitmentLevel::Processed
        }
    }

    /// The network that the configured RPC endpoint belongs to.
    pub fn network(&self) -> (r: Network)
        ensures
            r == network_of(self.rpc_url@),
    {
        if has_text(self.rpc_url.as_str(), "localhost") || has_text(self.rpc_url.as_str(), "127.0.0.1") {
            Network::Localnet
        } else if has_text(self.rpc_url.as_str(), "devnet") {
            Network::Devnet
        } else {
            Network::Mainnet
        }
    }
}

/// A request to create a token.
#[derive(Debug, Clone)]
pub struct TokenCreateRequest {
    pub name: String,
    pub symbol: String,
    pub description: String,
    pub file: String,
    pub website: Option<String>,
    pub twitter: Option<String>,
    pub telegram: Option<String>,
}

/// A request to sell a token; no amount means the whole holding.
#[derive(Debug, Clone)]
pub struct TokenSellRequest {
    pub mint_address: String,
    pub token_amount: Option<u64>,
    pub slippage_bps: Option<u64>,
}

/// Outcome of a launchpad transaction.
#[derive(Debug, Clone)]
pub struct TransactionResult {
    pub signature: String,
    pub success: bool,
    pub error: Option<String>,
    pub slot: Option<u64>,
}

/// Reserves and state of a token's bonding curve.
#[derive(Debug, Clone)]
pub struct BondingCurveInfo {
    pub mint_address: String,
    pub virtual_token_reserves: u64,
    pub virtual_sol_reserves: u64,
    pub real_token_reserves: u64,
    pub real_sol_reserves: u64,
    pub token_total_supply: u64,
    pub complete: bool,
}

/// The launchpad service, holding its settings.
pub struct PumpFunService {
    config: PumpFunConfig,
}

impl PumpFunService {
    /// The settings the service was made with.
    pub closed spec fn settings(&self) -> PumpFunConfig {
        self.config
    }

    /// A service with the given settings.
    pub fn new(config: PumpFunConfig) -> (r: Self)
        ensures
            r.settings() == config,
    {
        PumpFunService { config }
    }

    /// The service's settings.
    pub fn config(&self) -> (r: &PumpFunConfig)
        ensures
            *r == self.settings(),
    {
        &self.config
    }
}

} // verus!
