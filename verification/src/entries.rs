//! Rows of the relational store.
//!
//! The store keeps five tables: blocks, factories, tokens, pairs and
//! reserves. One struct here mirrors one row of one table. Reserve
//! amounts are kept as unsigned 64-bit integers, the width the store's
//! integer columns hold.

use vstd::prelude::*;

verus! {

/// Row of the `blocks` table: one per indexing run, the snapshot's timestamp.
#[derive(Debug, Clone)]
pub struct BlockEntry {
    /// Id of the block inside the store.
    pub id: i32,
    /// Height of the block on chain.
    pub height: i32,
    /// Hash of the block.
    pub hash: String,
}

/// Row of the `factories` table.
#[derive(Debug, Clone)]
pub struct FactoryEntry {
    /// Unique identifier of the factory inside the store.
    pub id: i32,
    /// Address of the factory.
    pub address: String,
}

/// Row of the `tokens` table.
#[derive(Debug, Clone)]
pub struct TokenEntry {
    /// Id of the entry in the store.
    pub id: i32,
    /// Address of the token.
    pub address: String,
    /// Name of the token.
    pub name: String,
    /// Symbol of the token.
    pub symbol: String,
    /// Decimals of the token.
    pub decimals: i32,
}

/// Row of the `pairs` table.
#[derive(Debug, Clone)]
pub struct PairEntry {
    /// Unique identifier of the pair inside the store.
    pub id: i32,
    /// Id of the entry in the `factories` table.
    pub factory: i32,
    /// Address of the pair.
    pub address: String,
    /// Ordinal of the pair within the factory's pair list.
    pub number: i32,
    /// Id of the token0 row.
    pub token0: i32,
    /// Id of the token1 row.
    pub token1: i32,
}

/// Row of the `reserves` table: an immutable point-in-time snapshot.
#[derive(Debug, Clone)]
pub struct ReserveEntry {
    pub id: i32,
    pub pair: i32,
    pub block: i32,
    /// Amount of token0 in the pair.
    pub reserve0: u64,
    /// Amount of token1 in the pair.
    pub reserve1: u64,
}

/// One row of the pair-with-latest-reserves read used to build the
/// liquidity graph: a pair joined with both its tokens and its reserve
/// snapshot at the newest block.
#[derive(Debug, Clone)]
pub struct PairsStreamEntry {
    /// Unique identifier of the pair inside the store.
    pub pair_id: i32,
    pub token0_id: i32,
    pub token0_short_address: String,
    pub token1_id: i32,
    pub token1_short_address: String,
    /// Amount of token0 in the pair.
    pub reserve0: u64,
    /// Amount of token1 in the pair.
    pub reserve1: u64,
}

} // verus!
