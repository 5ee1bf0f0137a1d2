//! The phases of the execution of a domain block.

use vstd::prelude::*;

use sp_trie::StorageProof;

use crate::error::VerificationError;
use crate::header::{decode_header, encode_header, DigestItem, Header};
use crate::primitives::{decode_hash, H256};
use crate::receipt::ExecutionReceipt;
use crate::scale::decode_byte_string;
#[allow(unused_imports)]
use crate::header::{header_error, reads_header, HeaderModel, Log};
#[allow(unused_imports)]
use crate::primitives::{hash_error, zero_hash};
#[allow(unused_imports)]
use crate::scale::{byte_string_error, reads_bytes};

verus! {

/// A phase of a block's execution, carrying necessary information needed for verifying the
/// invalid state transition proof.
#[derive(Debug, PartialEq, Eq, Clone)]
pub enum ExecutionPhase {
    /// Executes the `initialize_block` hook.
    InitializeBlock,
    /// Executes some extrinsic.
    ApplyExtrinsic {
        /// The part of the trie of the extrinsics that leads to the extrinsic.
        proof_of_inclusion: StorageProof,
        /// The index of the challenged state root in the execution trace of the receipt.
        mismatch_index: u32,
        /// The encoded extrinsic.
        extrinsic: Vec<u8>,
    },
    /// Executes the `finalize_block` hook.
    FinalizeBlock,
}

/// The number that `len` is taken for where it is counted in 32 bits.
pub open spec fn low_32_bits(len: nat) -> nat {
    len % 0x1_0000_0000
}

/// Whether an extrinsic of the block leads to the state root at `index` in a trace of length
/// `len`: the first root is that of `initialize_block`, and the last that of `finalize_block`.
pub open spec fn is_extrinsic_index(index: u32, len: nat) -> bool {
    0 < index < low_32_bits(len) - 1
}

/// The header that a block is initialized with: the digest holds the consensus block info, and the
/// state and extrinsics roots are not known yet.
pub open spec fn initial_header<Hash>(
    receipt: ExecutionReceipt<Hash>,
    parent: ExecutionReceipt<Hash>,
    consensus_block_info: Log,
) -> HeaderModel {
    HeaderModel {
        parent_hash: parent.domain_block_hash@,
        number: receipt.domain_block_number,
        state_root: zero_hash(),
        extrinsics_root: zero_hash(),
        logs: seq![consensus_block_info],
    }
}

impl ExecutionPhase {
    /// The name of the runtime method with which the proof is generated.
    pub open spec fn proving_name(self) -> Seq<char> {
        match self {
            ExecutionPhase::InitializeBlock => {
                "DomainCoreApi_initialize_block_with_post_state_root"@
            },
            ExecutionPhase::ApplyExtrinsic { .. } => "BlockBuilder_apply_extrinsic"@,
            ExecutionPhase::FinalizeBlock => "BlockBuilder_finalize_block"@,
        }
    }

    /// The name of the runtime method with which the proof is verified.
    pub open spec fn verifying_name(self) -> Seq<char> {
        match self {
            ExecutionPhase::InitializeBlock => {
                "DomainCoreApi_initialize_block_with_post_state_root"@
            },
            ExecutionPhase::ApplyExtrinsic { .. } => {
                "DomainCoreApi_apply_extrinsic_with_post_state_root"@
            },
            ExecutionPhase::FinalizeBlock => "BlockBuilder_finalize_block"@,
        }
    }

    /// Returns the method for generating the proof.
    pub fn proving_method(&self) -> (method: &'static str)
        ensures
            method@ == self.proving_name(),
            self is InitializeBlock ==> method@
                == "DomainCoreApi_initialize_block_with_post_state_root"@,
            self is ApplyExtrinsic ==> method@ == "BlockBuilder_apply_extrinsic"@,
            self is FinalizeBlock ==> method@ == "BlockBuilder_finalize_block"@,
    {
        match self {
            ExecutionPhase::InitializeBlock => {
                "DomainCoreApi_initialize_block_with_post_state_root"
            },
            ExecutionPhase::ApplyExtrinsic { .. } => "BlockBuilder_apply_extrinsic",
            ExecutionPhase::FinalizeBlock => "BlockBuilder_finalize_block",
        }
    }

    /// Returns the method for verifying the proof.
    ///
    /// The difference with [`Self::proving_method`] is that the return value of verifying method
    /// must contain the post state root info so that it can be used to compare whether the
    /// result of execution reported in the fraud proof is expected or not.
    pub fn verifying_method(&self) -> (method: &'static str)
        ensures
            method@ == self.verifying_name(),
            self is InitializeBlock ==> method@
                == "DomainCoreApi_initialize_block_with_post_state_root"@,
            self is ApplyExtrinsic ==> method@
                == "DomainCoreApi_apply_extrinsic_with_post_state_root"@,
            self is FinalizeBlock ==> method@ == "BlockBuilder_finalize_block"@,
    {
        match self {
            ExecutionPhase::InitializeBlock => {
                "DomainCoreApi_initialize_block_with_post_state_root"
            },
            ExecutionPhase::ApplyExtrinsic { .. } => {
                "DomainCoreApi_apply_extrinsic_with_post_state_root"
            },
            ExecutionPhase::FinalizeBlock => "BlockBuilder_finalize_block",
        }
    }

    /// Whether `root` is the post state root in the execution result of the phase.
    pub open spec fn yields_root(self, result: Seq<u8>, root: Seq<u8>) -> bool {
        if self is FinalizeBlock {
            exists|header: HeaderModel| #[trigger]
                reads_header(result, header) && root == header.state_root
        } else {
            exists|bytes: Seq<u8>| #[trigger]
                reads_bytes(result, bytes) && bytes.len() >= 32 && root == bytes.take(32)
        }
    }

    /// Whether no byte string can be read from an execution result that should be one.
    pub open spec fn lacks_byte_string(self, result: Seq<u8>) -> bool {
        !(self is FinalizeBlock) && forall|bytes: Seq<u8>| !reads_bytes(result, bytes)
    }

    /// Whether the byte string in an execution result that should be one is too short for a root.
    pub open spec fn has_short_byte_string(self, result: Seq<u8>) -> bool {
        !(self is FinalizeBlock) && exists|bytes: Seq<u8>| #[trigger]
            reads_bytes(result, bytes) && bytes.len() < 32
    }

    /// Whether no header can be read from an execution result that should be one.
    pub open spec fn lacks_header(self, result: Seq<u8>) -> bool {
        self is FinalizeBlock && forall|header: HeaderModel| !reads_header(result, header)
    }

    /// Whether `root` is the outcome for an execution result of the phase: the post state root in
    /// it, or the error of the decoding that failed on it.
    pub open spec fn is_outcome(
        self,
        result: Seq<u8>,
        root: Result<H256, VerificationError>,
    ) -> bool {
        match root {
            Ok(hash) => self.yields_root(result, hash@),
            Err(VerificationError::InitializeBlockOrApplyExtrinsicDecode(error)) => {
                self.lacks_byte_string(result) && error == byte_string_error(result)
            },
            Err(VerificationError::StorageRootDecode(error)) => {
                !(self is FinalizeBlock) && exists|bytes: Seq<u8>| #[trigger]
                    reads_bytes(result, bytes) && bytes.len() < 32 && error == hash_error(bytes)
            },
            Err(VerificationError::HeaderDecode(error)) => {
                self.lacks_header(result) && error == header_error(result)
            },
            Err(_) => false,
        }
    }

    /// Returns the post state root for the given execution result.
    ///
    /// The result of `initialize_block` and `apply_extrinsic` is a byte string that starts with the
    /// root; the result of `finalize_block` is a header that holds it.
    pub fn decode_execution_result(&self, execution_result: Vec<u8>) -> (root: Result<
        H256,
        VerificationError,
    >)
        ensures
            self.is_outcome(execution_result@, root),
            self is FinalizeBlock ==> match root {
                Ok(hash) => exists|header: HeaderModel| #[trigger]
                    reads_header(execution_result@, header) && hash.0@ == header.state_root,
                Err(error) => error == VerificationError::HeaderDecode(
                    header_error(execution_result@),
                ) && forall|header: HeaderModel| !reads_header(execution_result@, header),
            },
            !(self is FinalizeBlock) ==> match root {
                Ok(hash) => exists|bytes: Seq<u8>| #[trigger]
                    reads_bytes(execution_result@, bytes) && bytes.len() >= 32 && hash.0@
                        == bytes.take(32),
                Err(error) => {
                    ||| exists|bytes: Seq<u8>| #[trigger]
                        reads_bytes(execution_result@, bytes) && bytes.len() < 32 && error
                            == VerificationError::StorageRootDecode(hash_error(bytes))
                    ||| error == VerificationError::InitializeBlockOrApplyExtrinsicDecode(
                        byte_string_error(execution_result@),
                    ) && forall|bytes: Seq<u8>| !reads_bytes(execution_result@, bytes)
                },
            },
    {
        match self {
            ExecutionPhase::InitializeBlock | ExecutionPhase::ApplyExtrinsic { .. } => {
                let decoded = decode_byte_string(&execution_result);
                post_state_root_from_byte_string(decoded)
            },
            ExecutionPhase::FinalizeBlock => {
                let decoded = decode_header(&execution_result);
                post_state_root_from_header(decoded)
            },
        }
    }

    /// The state roots before and after the phase that the receipt claims, or why there are none.
    pub open spec fn claimed_roots<Hash>(
        self,
        receipt: ExecutionReceipt<Hash>,
        parent: ExecutionReceipt<Hash>,
    ) -> Result<(H256, H256), VerificationError> {
        let trace = receipt.execution_trace@;
        if trace.len() < 2 {
            Err(VerificationError::InvalidExecutionTrace)
        } else {
            match self {
                ExecutionPhase::InitializeBlock => Ok((parent.final_state_root, trace[0])),
                ExecutionPhase::ApplyExtrinsic { mismatch_index, .. } => {
                    if is_extrinsic_index(mismatch_index, trace.len()) {
                        Ok((trace[mismatch_index - 1], trace[mismatch_index as int]))
                    } else {
                        Err(VerificationError::InvalidApplyExtrinsicTraceIndex)
                    }
                },
                ExecutionPhase::FinalizeBlock => Ok(
                    (trace[trace.len() - 2], trace[trace.len() - 1]),
                ),
            }
        }
    }

    /// Returns the state roots before and after the phase that the bad receipt claims.
    ///
    /// The index of an extrinsic is held against the 32 low-order bits of the length of the trace,
    /// of which one is subtracted; so an index other than zero needs a trace for which these are not
    /// all zero.
    pub fn pre_post_state_root<Hash>(
        &self,
        bad_receipt: &ExecutionReceipt<Hash>,
        bad_receipt_parent: &ExecutionReceipt<Hash>,
    ) -> (roots: Result<(H256, H256), VerificationError>)
        requires
            match *self {
                ExecutionPhase::ApplyExtrinsic { mismatch_index, .. } => {
                    ||| mismatch_index == 0
                    ||| bad_receipt.execution_trace@.len() == 0
                    ||| bad_receipt.execution_trace@.len() % 0x1_0000_0000 != 0
                },
                _ => true,
            },
        ensures
            roots == self.claimed_roots(*bad_receipt, *bad_receipt_parent),
            bad_receipt.execution_trace@.len() < 2 ==> roots == Err::<
                (H256, H256),
                VerificationError,
            >(VerificationError::InvalidExecutionTrace),
            bad_receipt.execution_trace@.len() >= 2 ==> match *self {
                ExecutionPhase::InitializeBlock => {
                    &&& roots is Ok
                    &&& roots->Ok_0.0 == bad_receipt_parent.final_state_root
                    &&& roots->Ok_0.1 == bad_receipt.execution_trace@.first()
                },
                ExecutionPhase::ApplyExtrinsic { mismatch_index, .. } => {
                    &&& roots is Ok <==> 0 < mismatch_index < (
                    bad_receipt.execution_trace@.len() % 0x1_0000_0000) - 1
                    &&& roots matches Ok(pair) ==> pair.0
                        == bad_receipt.execution_trace@[mismatch_index - 1] && pair.1
                        == bad_receipt.execution_trace@[mismatch_index as int]
                    &&& roots matches Err(error) ==> error
                        == VerificationError::InvalidApplyExtrinsicTraceIndex
                },
                ExecutionPhase::FinalizeBlock => {
                    &&& roots is Ok
                    &&& roots->Ok_0.0 == bad_receipt.execution_trace@.drop_last().last()
                    &&& roots->Ok_0.1 == bad_receipt.execution_trace@.last()
                },
            },
    {
        let len: usize = bad_receipt.execution_trace.len();
        if len < 2 {
            return Err(VerificationError::InvalidExecutionTrace);
        }
        match self {
            ExecutionPhase::InitializeBlock => Ok(
                (bad_receipt_parent.final_state_root, bad_receipt.execution_trace[0]),
            ),
            ExecutionPhase::ApplyExtrinsic { mismatch_index, .. } => {
                let len_u32: u32 = len as u32;
                assert(len_u32 == low_32_bits(len as nat)) by {
                    let len_u64 = len as u64;
                    assert(len_u64 as u32 == len_u64 % 0x1_0000_0000) by (bit_vector);
                }
                if *mismatch_index == 0 || *mismatch_index >= len_u32 - 1 {
                    return Err(VerificationError::InvalidApplyExtrinsicTraceIndex);
                }
                let index: usize = *mismatch_index as usize;
                Ok((bad_receipt.execution_trace[index - 1], bad_receipt.execution_trace[index]))
            },
            ExecutionPhase::FinalizeBlock => {
                let mismatch_index: usize = len - 1;
                Ok(
                    (
                        bad_receipt.execution_trace[mismatch_index - 1],
                        bad_receipt.execution_trace[mismatch_index],
                    ),
                )
            },
        }
    }

    /// Returns the argument of the runtime method that executes the phase, as far as the bad
    /// receipt and its parent fix it.
    ///
    /// The three functions are those of the domain chain: `consensus_block_info` makes the digest
    /// item that tells from which consensus block the domain block was derived;
    /// `enumerated_storage_key` makes the key of a place in the trie of the extrinsics; and
    /// `verify_storage_proof` tells whether a storage proof shows that, in the trie with the given
    /// root, the given value is stored under the given key. What they compute is left open here:
    /// the contract says which of them are asked, what they are asked, and what follows from each
    /// answer.
    pub fn call_data<
        Hash: Copy,
        Key,
        BlockInfo: Fn(Hash) -> DigestItem,
        StorageKey: Fn(u32) -> Key,
        Verify: Fn(&StorageProof, &H256, &Vec<u8>, Key) -> bool,
    >(
        &self,
        bad_receipt: &ExecutionReceipt<Hash>,
        bad_receipt_parent: &ExecutionReceipt<Hash>,
        consensus_block_info: BlockInfo,
        enumerated_storage_key: StorageKey,
        verify_storage_proof: Verify,
    ) -> (data: Result<Vec<u8>, VerificationError>)
        requires
            match *self {
                ExecutionPhase::InitializeBlock => {
                    &&& call_requires(consensus_block_info, (bad_receipt.consensus_block_hash,))
                    &&& forall|item: DigestItem| #[trigger]
                        call_ensures(
                            consensus_block_info,
                            (bad_receipt.consensus_block_hash,),
                            item,
                        ) ==> item@.encodable()
                },
                ExecutionPhase::ApplyExtrinsic { proof_of_inclusion, mismatch_index, extrinsic } => {
                    &&& call_requires(enumerated_storage_key, (mismatch_index,))
                    &&& forall|key: Key| #[trigger]
                        call_ensures(enumerated_storage_key, (mismatch_index,), key)
                            ==> call_requires(
                            verify_storage_proof,
                            (
                                &proof_of_inclusion,
                                &bad_receipt.domain_block_extrinsic_root,
                                &extrinsic,
                                key,
                            ),
                        )
                },
                ExecutionPhase::FinalizeBlock => true,
            },
        ensures
            match *self {
                ExecutionPhase::InitializeBlock => data is Ok && exists|item: DigestItem| #[trigger]
                    call_ensures(consensus_block_info, (bad_receipt.consensus_block_hash,), item)
                        && data->Ok_0@ == initial_header(
                        *bad_receipt,
                        *bad_receipt_parent,
                        item@,
                    ).encoding() && data->Ok_0@ == (HeaderModel {
                        parent_hash: bad_receipt_parent.domain_block_hash.0@,
                        number: bad_receipt.domain_block_number,
                        state_root: zero_hash(),
                        extrinsics_root: zero_hash(),
                        logs: seq![item@],
                    }).encoding(),
                ExecutionPhase::ApplyExtrinsic { proof_of_inclusion, mismatch_index, extrinsic } => {
                    exists|key: Key, included: bool|
                        {
                            &&& #[trigger] call_ensures(
                                enumerated_storage_key,
                                (mismatch_index,),
                                key,
                            )
                            &&& #[trigger] call_ensures(
                                verify_storage_proof,
                                (
                                    &proof_of_inclusion,
                                    &bad_receipt.domain_block_extrinsic_root,
                                    &extrinsic,
                                    key,
                                ),
                                included,
                            )
                            &&& is_extrinsic_call_data(extrinsic@, included, data)
                            &&& data is Ok <==> included
                            &&& data matches Ok(bytes) ==> bytes@ == extrinsic@
                            &&& data matches Err(error) ==> error
                                == VerificationError::InvalidApplyExtrinsicCallData
                        }
                },
                ExecutionPhase::FinalizeBlock => data is Ok && data->Ok_0@ == Seq::<u8>::empty(),
            },
    {
        match self {
            ExecutionPhase::InitializeBlock => {
                let item = consensus_block_info(bad_receipt.consensus_block_hash);
                Ok(initialize_block_call_data(bad_receipt, bad_receipt_parent, item))
            },
            ExecutionPhase::ApplyExtrinsic { proof_of_inclusion, mismatch_index, extrinsic } => {
                let storage_key = enumerated_storage_key(*mismatch_index);
                let included = verify_storage_proof(
                    proof_of_inclusion,
                    &bad_receipt.domain_block_extrinsic_root,
                    extrinsic,
                    storage_key,
                );
                apply_extrinsic_call_data(extrinsic, included)
            },
            ExecutionPhase::FinalizeBlock => Ok(Vec::new()),
        }
    }
}

/// Returns the post state root that the byte string in a result of `initialize_block` or
/// `apply_extrinsic` starts with, given what came of decoding the byte string.
pub fn post_state_root_from_byte_string(
    decoded: Result<Vec<u8>, parity_scale_codec::Error>,
) -> (root: Result<H256, VerificationError>)
    ensures
        match decoded {
            Ok(bytes) if bytes@.len() >= 32 => root is Ok && root->Ok_0@ == bytes@.take(32),
            Ok(bytes) => root == Err::<H256, VerificationError>(
                VerificationError::StorageRootDecode(hash_error(bytes@)),
            ),
            Err(error) => root == Err::<H256, VerificationError>(
                VerificationError::InitializeBlockOrApplyExtrinsicDecode(error),
            ),
        },
{
    match decoded {
        Ok(encoded_storage_root) => {
            let storage_root = decode_hash(&encoded_storage_root);
            post_state_root_from_hash(storage_root)
        },
        Err(error) => Err(VerificationError::InitializeBlockOrApplyExtrinsicDecode(error)),
    }
}

/// Returns the post state root, given what came of decoding it.
pub fn post_state_root_from_hash(decoded: Result<H256, parity_scale_codec::Error>) -> (root: Result<
    H256,
    VerificationError,
>)
    ensures
        root == match decoded {
            Ok(hash) => Ok::<H256, VerificationError>(hash),
            Err(error) => Err(VerificationError::StorageRootDecode(error)),
        },
{
    match decoded {
        Ok(storage_root) => Ok(storage_root),
        Err(error) => Err(VerificationError::StorageRootDecode(error)),
    }
}

/// Returns the post state root that the header in a result of `finalize_block` holds, given what
/// came of decoding the header.
pub fn post_state_root_from_header(decoded: Result<Header, parity_scale_codec::Error>) -> (root:
    Result<H256, VerificationError>)
    ensures
        root == match decoded {
            Ok(header) => Ok::<H256, VerificationError>(header.state_root),
            Err(error) => Err(VerificationError::HeaderDecode(error)),
        },
{
    match decoded {
        Ok(new_header) => Ok(new_header.state_root),
        Err(error) => Err(VerificationError::HeaderDecode(error)),
    }
}

/// Whether `data` is the outcome for an extrinsic that was found to be, or not to be, included in
/// the block: the extrinsic, or the error for call data that is invalid.
pub open spec fn is_extrinsic_call_data(
    extrinsic: Seq<u8>,
    included: bool,
    data: Result<Vec<u8>, VerificationError>,
) -> bool {
    match data {
        Ok(bytes) => included && bytes@ == extrinsic,
        Err(error) => !included && error == VerificationError::InvalidApplyExtrinsicCallData,
    }
}

/// Returns the argument of `initialize_block`: the encoded header with which the block starts, whose
/// digest holds `consensus_block_info`.
pub fn initialize_block_call_data<Hash>(
    bad_receipt: &ExecutionReceipt<Hash>,
    bad_receipt_parent: &ExecutionReceipt<Hash>,
    consensus_block_info: DigestItem,
) -> (data: Vec<u8>)
    requires
        consensus_block_info@.encodable(),
    ensures
        data@ == initial_header(
            *bad_receipt,
            *bad_receipt_parent,
            consensus_block_info@,
        ).encoding(),
        data@ == (HeaderModel {
            parent_hash: bad_receipt_parent.domain_block_hash.0@,
            number: bad_receipt.domain_block_number,
            state_root: zero_hash(),
            extrinsics_root: zero_hash(),
            logs: seq![consensus_block_info@],
        }).encoding(),
{
    let new_header = Header {
        parent_hash: bad_receipt_parent.domain_block_hash,
        number: bad_receipt.domain_block_number,
        state_root: H256::default(),
        extrinsics_root: H256::default(),
    };
    encode_header(&new_header, consensus_block_info)
}

/// Returns the argument of `apply_extrinsic`: the extrinsic, if it was found to be included in the
/// block.
pub fn apply_extrinsic_call_data(extrinsic: &Vec<u8>, included: bool) -> (data: Result<
    Vec<u8>,
    VerificationError,
>)
    ensures
        is_extrinsic_call_data(extrinsic@, included, data),
        data is Ok <==> included,
        data matches Ok(bytes) ==> bytes@ == extrinsic@,
        data matches Err(error) ==> error == VerificationError::InvalidApplyExtrinsicCallData,
{
    if !included {
        return Err(VerificationError::InvalidApplyExtrinsicCallData);
    }
    let data = extrinsic.clone();
    assert(data@ =~= extrinsic@);
    Ok(data)
}

} // verus!
