//! The execution receipts that fraud proofs challenge.

use vstd::prelude::*;

use crate::primitives::H256;

verus! {

/// What an execution receipt says of a domain block, as far as fraud proofs read it.
///
/// `Hash` is the hash type of the consensus chain.
#[derive(Debug, Clone, PartialEq, Eq)]
pub struct ExecutionReceipt<Hash> {
    /// The number of the domain block.
    pub domain_block_number: u32,
    /// The hash of the domain block.
    pub domain_block_hash: H256,
    /// The root of the trie of the extrinsics of the domain block.
    pub domain_block_extrinsic_root: H256,
    /// The hash of the consensus block that the domain block was derived from.
    pub consensus_block_hash: Hash,
    /// The state root after the domain block.
    pub final_state_root: H256,
    /// The state roots that were collected during the execution of the domain block: one after
    /// `initialize_block`, one after each extrinsic, and one after `finalize_block`.
    pub execution_trace: Vec<H256>,
}

} // verus!
