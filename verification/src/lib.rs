//! Proof-of-work mining core for a blockchain node: a mutable serialized
//! block header, the two-stage keyed mining hash, a compact-difficulty codec
//! with its acceptance predicate, and the nonce/extranonce search driver.

pub mod le_bytes;
pub mod types;
pub mod digest;
pub mod header;
pub mod difficulty;
pub mod transaction;
pub mod merkle;
pub mod block_template;
pub mod template_json;
pub mod miner;
