//! Fixed configuration constants and the set of entropy sources a block
//! offers for keyword derivation.

use vstd::prelude::*;

verus! {

/// One minute in seconds.
pub const ONE_MINUTE: u64 = 60;

/// One hour in seconds.
pub const ONE_HOUR: u64 = 60 * ONE_MINUTE;

/// One day in seconds.
pub const ONE_DAY: u64 = 24 * ONE_HOUR;

/// One week in seconds.
pub const ONE_WEEK: u64 = 7 * ONE_DAY;

/// Slots per second (approximate).
pub const SLOTS_PER_SECOND: u64 = 2;

/// One minute in slots.
pub const ONE_MINUTE_SLOTS: u64 = 60 * SLOTS_PER_SECOND;

/// One hour in slots.
pub const ONE_HOUR_SLOTS: u64 = 60 * ONE_MINUTE_SLOTS;

/// One day in slots.
pub const ONE_DAY_SLOTS: u64 = 24 * ONE_HOUR_SLOTS;

/// One week in slots.
pub const ONE_WEEK_SLOTS: u64 = 7 * ONE_DAY_SLOTS;

/// Solana mainnet RPC URL.
pub const MAINNET_RPC_URL: &'static str = "https://api.mainnet-beta.solana.com";

/// Solana devnet RPC URL, for testing.
pub const DEVNET_RPC_URL: &'static str = "https://api.devnet.solana.com";

/// Solana testnet RPC URL.
pub const TESTNET_RPC_URL: &'static str = "https://api.testnet.solana.com";

/// Default API server port.
pub const DEFAULT_API_PORT: u16 = 3000;

/// API version prefix.
pub const API_VERSION: &'static str = "v1";

/// Default number of keywords aimed for per poem.
pub const DEFAULT_KEYWORDS_PER_POEM: usize = 16;

/// Minimum keywords required before poem generation.
pub const MIN_KEYWORDS_FOR_POEM: usize = 8;

/// Maximum keywords to use in a single poem.
pub const MAX_KEYWORDS_FOR_POEM: usize = 24;

/// Default keyword collection interval in minutes.
pub const DEFAULT_COLLECTION_INTERVAL_MINUTES: u64 = 90;

/// Number of slots to go back for confirmed blocks.
pub const CONFIRMATION_SLOTS: u64 = 32;

/// Lower end of the poem line count range asked of the generator.
pub const POEM_MIN_LINES: usize = 20;

/// Upper end of the poem line count range asked of the generator.
pub const POEM_MAX_LINES: usize = 30;

/// Data sources for keyword derivation; each provides a different entropy
/// string extracted from one block.
#[derive(Debug, Clone, Copy, PartialEq, Eq, Structural)]
pub enum BlockDataSource {
    /// Use the block's own hash (the default source).
    Blockhash,
    /// Use the previous block's hash.
    PreviousBlockhash,
    /// Use the block's sample transaction signatures.
    TransactionRoot,
    /// Use the block's height.
    Rewards,
    /// Use the number of transactions in the block.
    TransactionCount,
}

impl BlockDataSource {
    /// The data sources that multi-source derivation draws on.
    pub fn all() -> (r: Vec<BlockDataSource>)
        ensures
            r@ == seq![
                BlockDataSource::Blockhash,
                BlockDataSource::PreviousBlockhash,
                BlockDataSource::TransactionRoot,
                BlockDataSource::TransactionCount,
            ],
    {
        let mut v: Vec<BlockDataSource> = Vec::new();
        v.push(BlockDataSource::Blockhash);
        v.push(BlockDataSource::PreviousBlockhash);
        v.push(BlockDataSource::TransactionRoot);
        v.push(BlockDataSource::TransactionCount);
        assert(v@ =~= seq![
            BlockDataSource::Blockhash,
            BlockDataSource::PreviousBlockhash,
            BlockDataSource::TransactionRoot,
            BlockDataSource::TransactionCount,
        ]);
        v
    }
}

} // verus!
