//! The RPC-facing shape of a block template, as plain data. Serialization
//! itself lives outside the verified library; callers convert between these
//! types and their wire-format twins.

use vstd::prelude::*;
use crate::types::{Hash256, Uint256};

verus! {

/// A block template as an RPC consumer sees it.
pub struct BlockTemplateJSON {
    pub capabilities: Vec<String>,
    pub mutable: Vec<String>,
    pub version: u32,
    pub rules: Vec<String>,
    pub vb_available: VbAvailable,
    pub vb_required: u32,
    pub height: u32,
    pub previous_blockhash: Hash256,
    pub tree_root: Hash256,
    pub mask: Hash256,
    pub reserved_root: Hash256,
    pub target: Uint256,
    pub bits: String,
    pub nonce_range: String,
    pub cur_time: u64,
    pub min_time: u64,
    pub max_time: u64,
    pub expires: u64,
    pub sig_op_limit: u32,
    pub size_limit: u64,
    pub weight_limit: u32,
    pub long_poll_id: String,
    pub submit_old: bool,
    pub coinbase_aux: CoinbaseAux,
    pub coinbase_value: u64,
    pub claims: Vec<String>,
    pub airdrops: Vec<String>,
    pub transactions: Vec<TransactionEntry>,
}

/// Version-bit deployments available to the template; none are listed yet.
pub struct VbAvailable {}

/// Extra data a node asks the miner to place in the coinbase.
pub struct CoinbaseAux {
    pub flags: String,
}

/// One candidate transaction as the RPC layer describes it.
pub struct TransactionEntry {
    pub data: String,
    pub txid: Hash256,
    pub hash: Hash256,
    pub depends: Vec<Hash256>,
    pub fee: u32,
    pub sigops: u32,
    pub weight: u32,
}

} // verus!
