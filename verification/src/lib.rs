//! Verified core of an automated-market-maker indexer and route finder.
//!
//! The write path discovers newly created trading pairs of a factory
//! contract, resolves their tokens, and persists pairs and reserve
//! snapshots; the read path rebuilds a liquidity graph from the persisted
//! reserves and searches it for the best multi-hop conversion path. Chain
//! and database access are performed by a thin unverified shell; this
//! crate holds the data model, the scheduling and retry decisions, the
//! call encoding, and the pricing and routing arithmetic, all with proved
//! contracts.

pub mod abi;
pub mod config;
pub mod entries;
pub mod erc20_mock;
pub mod fetcher;
pub mod find;
pub mod graph;
pub mod pool;
pub mod route;
pub mod store;
pub mod swap;
