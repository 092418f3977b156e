//! The immutable description of the block being mined: consensus fields,
//! candidate transactions and the coinbase value.

use vstd::prelude::*;
use crate::types::Hash256;
use crate::transaction::Transaction;
use crate::difficulty::valid_bits;

verus! {

/// A block template, constructed by an external template-fetching process
/// and consumed read-only by the search driver.
pub struct BlockTemplate {
    /// Version
    pub version: u32,
    /// The hash of the previous block
    pub previous_header_hash: Hash256,
    /// The current time as seen by the server
    pub time: u64,
    /// The compressed difficulty
    pub bits: u32,
    /// Block height
    pub height: u32,
    /// Block transactions (excluding coinbase)
    pub transactions: Vec<Transaction>,
    /// Total funds available for the coinbase (in base units)
    pub coinbase_value: u64,
}

impl BlockTemplate {
    /// A template is usable when its previous hash holds 32 bytes, its
    /// difficulty decodes to a nonzero in-range target, and its
    /// transactions are well formed.
    pub open spec fn wf(&self) -> bool {
        &&& self.previous_header_hash.wf()
        &&& valid_bits(self.bits)
        &&& forall|i: int|
            0 <= i < self.transactions@.len() ==> (#[trigger] self.transactions@[i]).wf()
    }
}

} // verus!
