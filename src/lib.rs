//! Risk and options scoring engine: the verified core of a market-data service.
//!
//! Time-bounded caching, ticker handling, selection of the most liquid option contracts,
//! gathering and ranking of per-ticker analyses, retry and rate-limit decisions, and the
//! settings and shapes the service exchanges. Floating-point analytics and all I/O live
//! outside this crate's verified part.

pub mod text;
pub mod errors;
pub mod cache;
pub mod symbols;
pub mod params;
pub mod sourcing;
pub mod mentions;
pub mod selector;
pub mod scoring;
pub mod ranking;
pub mod retry;
pub mod middleware;
pub mod responses;
pub mod config;
pub mod models;
pub mod jito;
pub mod pumpfun;
