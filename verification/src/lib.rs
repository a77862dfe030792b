//! Derives deterministic keywords from blockchain block data, stores them
//! idempotently, and decides when a day's worth of keywords should be turned
//! into a poem by a text-generation endpoint.

pub mod blockchain;
pub mod consts;
pub mod database;
pub mod derivation;
pub mod poem_generator;
pub mod scheduler;
pub mod text;
pub mod words;
