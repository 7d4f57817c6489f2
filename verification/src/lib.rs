//! Verified core of the Checkmate escrow system: the shared escrow types,
//! the on-chain oracle result log with its per-oracle sliding-window rate
//! limiter, the event indexer's parsing, caching, query and answer logic,
//! and the Chess.com result helpers.
pub mod api;
pub mod cache;
pub mod cache_laws;
pub mod chess_com;
pub mod config;
pub mod db;
pub mod escrow;
pub mod indexer_laws;
pub mod models;
pub mod oracle;
pub mod oracle_laws;
pub mod rate_limit;
pub mod rpc;
pub mod text;

pub use escrow::{DataKey, Error, Match, MatchState, Platform, Winner};
pub use oracle::{
    BatchResultEntry, Invocation, OracleContract, OracleError, OracleEvent, OracleModel,
    ResultEntry,
};
pub use rate_limit::{RateLimitConfig, RateLimitStatus, RateWindow, RateWindowKind};
