//! What holds of fraud proofs beyond single calls.

use vstd::prelude::*;

use sp_trie::StorageProof;

use crate::error::VerificationError;
use crate::execution_phase::ExecutionPhase;
use crate::extrinsic_digest::ExtrinsicDigest;
use crate::fraud_proof::FraudProof;
use crate::hashing::{BlakeTwo256, Hashing, Keccak256, LayoutV0, LayoutV1, TrieLayout};
use crate::header::{HeaderModel, Log};
use crate::primitives::{DomainId, H256};
use crate::proofs::BundleEquivocationProof;
use crate::receipt::ExecutionReceipt;
use crate::scale::Encode;
#[allow(unused_imports)]
use crate::encoding_laws::{
    law_compact_is_shortest, law_header_layout, law_logs_are_joined_in_order,
};
#[allow(unused_imports)]
use crate::execution_phase::{initial_header, is_extrinsic_call_data, low_32_bits};
#[allow(unused_imports)]
use crate::extrinsic_digest::is_hashed;
#[allow(unused_imports)]
use crate::hashing::{blake2_256, keccak_256};
#[allow(unused_imports)]
use crate::header::{header_error, lemma_reads_one_header, reads_header};
#[allow(unused_imports)]
use crate::primitives::{hash_error, lemma_hash_from_bytes, zero_hash};
#[allow(unused_imports)]
use crate::scale::{
    byte_string_error, bytes_encoding, compact, lemma_reads_one_byte_string, reads_bytes,
};
#[allow(unused_imports)]
use crate::storage_keys::{item_key, twox_128};

verus! {

/// The proving and the verifying method differ for extrinsics, and for extrinsics alone.
pub proof fn law_methods_differ_for_extrinsics(phase: ExecutionPhase)
    ensures
        phase.proving_name() != phase.verifying_name() <==> phase is ApplyExtrinsic,
{
    reveal_strlit("BlockBuilder_apply_extrinsic");
    reveal_strlit("DomainCoreApi_apply_extrinsic_with_post_state_root");
    assert("BlockBuilder_apply_extrinsic"@.len()
        != "DomainCoreApi_apply_extrinsic_with_post_state_root"@.len());
}

/// An execution result yields at most one post state root.
pub proof fn law_one_post_state_root(
    phase: ExecutionPhase,
    result: Seq<u8>,
    a: Seq<u8>,
    b: Seq<u8>,
)
    requires
        phase.yields_root(result, a),
        phase.yields_root(result, b),
    ensures
        a == b,
{
    if phase is FinalizeBlock {
        let x = choose|header: HeaderModel| #[trigger]
            reads_header(result, header) && a == header.state_root;
        let y = choose|header: HeaderModel| #[trigger]
            reads_header(result, header) && b == header.state_root;
        lemma_reads_one_header(result, x, y);
    } else {
        let x = choose|bytes: Seq<u8>| #[trigger]
            reads_bytes(result, bytes) && bytes.len() >= 32 && a == bytes.take(32);
        let y = choose|bytes: Seq<u8>| #[trigger]
            reads_bytes(result, bytes) && bytes.len() >= 32 && b == bytes.take(32);
        lemma_reads_one_byte_string(result, x, y);
    }
}

/// An execution result that yields a root gives rise to no error, and no result gives rise to two
/// of the errors.
pub proof fn law_outcomes_exclude_each_other(
    phase: ExecutionPhase,
    result: Seq<u8>,
    root: Seq<u8>,
)
    ensures
        phase.yields_root(result, root) ==> {
            &&& !phase.lacks_byte_string(result)
            &&& !phase.has_short_byte_string(result)
            &&& !phase.lacks_header(result)
        },
        !(phase.lacks_byte_string(result) && phase.has_short_byte_string(result)),
        !(phase.lacks_byte_string(result) && phase.lacks_header(result)),
        !(phase.has_short_byte_string(result) && phase.lacks_header(result)),
{
    if phase.yields_root(result, root) && phase.has_short_byte_string(result) {
        let x = choose|bytes: Seq<u8>| #[trigger]
            reads_bytes(result, bytes) && bytes.len() >= 32 && root == bytes.take(32);
        let y = choose|bytes: Seq<u8>| #[trigger]
            reads_bytes(result, bytes) && bytes.len() < 32;
        lemma_reads_one_byte_string(result, x, y);
    }
}

/// An execution result has at most one outcome: one root, or one error with one decoding error in
/// it.
pub proof fn law_one_outcome(
    phase: ExecutionPhase,
    result: Seq<u8>,
    a: Result<H256, VerificationError>,
    b: Result<H256, VerificationError>,
)
    requires
        phase.is_outcome(result, a),
        phase.is_outcome(result, b),
    ensures
        a == b,
{
    match (a, b) {
        (Ok(x), Ok(y)) => {
            law_one_post_state_root(phase, result, x@, y@);
            lemma_hash_from_bytes(x, y);
        },
        (Ok(x), Err(_)) => {
            law_outcomes_exclude_each_other(phase, result, x@);
        },
        (Err(_), Ok(y)) => {
            law_outcomes_exclude_each_other(phase, result, y@);
        },
        (
            Err(VerificationError::StorageRootDecode(x)),
            Err(VerificationError::StorageRootDecode(y)),
        ) => {
            let i = choose|bytes: Seq<u8>| #[trigger]
                reads_bytes(result, bytes) && bytes.len() < 32 && x == hash_error(bytes);
            let j = choose|bytes: Seq<u8>| #[trigger]
                reads_bytes(result, bytes) && bytes.len() < 32 && y == hash_error(bytes);
            lemma_reads_one_byte_string(result, i, j);
        },
        (Err(_), Err(_)) => {
            law_outcomes_exclude_each_other(phase, result, Seq::empty());
        },
    }
}

/// `initialize_block` and `apply_extrinsic` agree on every execution result, in the root and in the
/// error: what an extrinsic phase holds has no influence.
pub proof fn law_extrinsics_decode_like_initialize_block(
    phase: ExecutionPhase,
    result: Seq<u8>,
    a: Result<H256, VerificationError>,
    b: Result<H256, VerificationError>,
)
    requires
        phase is ApplyExtrinsic,
        phase.is_outcome(result, a),
        ExecutionPhase::InitializeBlock.is_outcome(result, b),
    ensures
        a == b,
{
    assert(ExecutionPhase::InitializeBlock.is_outcome(result, a));
    law_one_outcome(ExecutionPhase::InitializeBlock, result, a, b);
}

/// From the encoded root that `initialize_block` and `apply_extrinsic` return, the root is read
/// back, whatever follows it.
pub proof fn law_encoded_root_is_read_back(phase: ExecutionPhase, root: H256, rest: Seq<u8>)
    requires
        !(phase is FinalizeBlock),
    ensures
        phase.yields_root(bytes_encoding(root.encoding()) + rest, root@),
        phase.is_outcome(bytes_encoding(root.encoding()) + rest, Ok(root)),
{
    let result = bytes_encoding(root.encoding()) + rest;
    assert(result.take(bytes_encoding(root@).len() as int) =~= bytes_encoding(root@));
    assert(reads_bytes(result, root@));
    assert(root@.take(32) =~= root@);
}

/// From the encoded header that `finalize_block` returns, its state root is read back, whatever
/// follows it.
pub proof fn law_header_root_is_read_back(header: HeaderModel, rest: Seq<u8>)
    requires
        header.encodable(),
    ensures
        ExecutionPhase::FinalizeBlock.yields_root(header.encoding() + rest, header.state_root),
{
    let result = header.encoding() + rest;
    assert(result.take(header.encoding().len() as int) =~= header.encoding());
    assert(reads_header(result, header));
}

/// The place in an execution trace of length `len` of the state root that a phase leads to.
pub open spec fn trace_place(phase: ExecutionPhase, len: nat) -> int {
    match phase {
        ExecutionPhase::InitializeBlock => 0,
        ExecutionPhase::ApplyExtrinsic { mismatch_index, .. } => mismatch_index as int,
        ExecutionPhase::FinalizeBlock => len - 1,
    }
}

/// The claimed root after a phase is the one at the place of the phase in the trace.
pub proof fn law_post_root_is_in_trace<Hash>(
    phase: ExecutionPhase,
    receipt: ExecutionReceipt<Hash>,
    parent: ExecutionReceipt<Hash>,
)
    requires
        phase.claimed_roots(receipt, parent) is Ok,
    ensures
        0 <= trace_place(phase, receipt.execution_trace@.len()) < receipt.execution_trace@.len(),
        phase.claimed_roots(receipt, parent)->Ok_0.1 == receipt.execution_trace@[trace_place(
            phase,
            receipt.execution_trace@.len(),
        )],
{
}

/// The block starts from the final state of its parent, and each phase starts where the one before
/// it ended.
pub proof fn law_phases_chain<Hash>(
    first: ExecutionPhase,
    second: ExecutionPhase,
    receipt: ExecutionReceipt<Hash>,
    parent: ExecutionReceipt<Hash>,
)
    requires
        second.claimed_roots(receipt, parent) is Ok,
    ensures
        second is InitializeBlock ==> second.claimed_roots(receipt, parent)->Ok_0.0
            == parent.final_state_root,
        first.claimed_roots(receipt, parent) is Ok && trace_place(
            first,
            receipt.execution_trace@.len(),
        ) + 1 == trace_place(second, receipt.execution_trace@.len()) ==> first.claimed_roots(
            receipt,
            parent,
        )->Ok_0.1 == second.claimed_roots(receipt, parent)->Ok_0.0,
{
}

/// The phase that leads to the state root at `place` in an execution trace of length `len`.
pub open spec fn challenging_phase(
    place: int,
    len: nat,
    proof_of_inclusion: StorageProof,
    extrinsic: Vec<u8>,
) -> ExecutionPhase {
    if place == 0 {
        ExecutionPhase::InitializeBlock
    } else if place == len - 1 {
        ExecutionPhase::FinalizeBlock
    } else {
        ExecutionPhase::ApplyExtrinsic {
            proof_of_inclusion,
            mismatch_index: place as u32,
            extrinsic,
        }
    }
}

/// Whether the state root at `place` in an execution trace of length `len` can be challenged. The
/// length is counted in 32 bits where an extrinsic leads to the root.
pub open spec fn is_challengeable(place: int, len: nat) -> bool {
    place == 0 || place == len - 1 || place < low_32_bits(len) - 1
}

/// Every state root of a trace whose length fits in 32 bits can be challenged. The phase that leads
/// to a challengeable root claims it, and a phase of another kind never does.
pub proof fn law_every_root_can_be_challenged<Hash>(
    receipt: ExecutionReceipt<Hash>,
    parent: ExecutionReceipt<Hash>,
    place: int,
    proof_of_inclusion: StorageProof,
    extrinsic: Vec<u8>,
    phase: ExecutionPhase,
)
    requires
        2 <= receipt.execution_trace@.len(),
        0 <= place < receipt.execution_trace@.len(),
    ensures
        ({
            let len = receipt.execution_trace@.len();
            let challenge = challenging_phase(place, len, proof_of_inclusion, extrinsic);
            &&& len <= u32::MAX ==> is_challengeable(place, len)
            &&& is_challengeable(place, len) ==> {
                &&& challenge.claimed_roots(receipt, parent) is Ok
                &&& challenge.claimed_roots(receipt, parent)->Ok_0.1
                    == receipt.execution_trace@[place]
            }
            &&& phase.claimed_roots(receipt, parent) is Ok && trace_place(phase, len) == place ==> {
                &&& is_challengeable(place, len)
                &&& phase is InitializeBlock == challenge is InitializeBlock
                &&& phase is ApplyExtrinsic == challenge is ApplyExtrinsic
                &&& phase is FinalizeBlock == challenge is FinalizeBlock
            }
        }),
{
}

/// The header that a block is initialized with can be encoded, and it is the one header that can be
/// read back from its encoding, whatever follows it.
pub proof fn law_initial_header_is_read_back<Hash>(
    receipt: ExecutionReceipt<Hash>,
    parent: ExecutionReceipt<Hash>,
    consensus_block_info: Log,
    rest: Seq<u8>,
    read: HeaderModel,
)
    requires
        consensus_block_info.encodable(),
    ensures
        reads_header(
            initial_header(receipt, parent, consensus_block_info).encoding() + rest,
            read,
        ) <==> read == initial_header(receipt, parent, consensus_block_info),
{
    let header = initial_header(receipt, parent, consensus_block_info);
    let input = header.encoding() + rest;
    assert(input.take(header.encoding().len() as int) =~= header.encoding());
    assert(reads_header(input, header));
    if reads_header(input, read) {
        lemma_reads_one_header(input, read, header);
    }
}

/// Two values have the same encoding if and only if they hold the same contents.
pub proof fn law_encoding_is_faithful<T: Encode>(a: &T, b: &T)
    requires
        a.encodable(),
        b.encodable(),
    ensures
        a.encoding() == b.encoding() <==> a.same(b),
{
    if a.encoding() == b.encoding() {
        T::lemma_prefix_free(a, b, Seq::empty(), Seq::empty());
    }
    if a.same(b) {
        T::lemma_same_encoding(a, b);
    }
}

/// Fraud proofs with the same contents have the same hash, and the hash of fraud proofs with
/// different contents is taken of different encodings: if it is the same, the hash function
/// collides.
pub proof fn law_hash_identifies_proof<
    H: Hashing,
    ReceiptHash: Encode,
    BundleHeader: Encode,
>(a: FraudProof<ReceiptHash, BundleHeader>, b: FraudProof<ReceiptHash, BundleHeader>)
    requires
        a.encodable(),
        b.encodable(),
    ensures
        a.same(&b) ==> H::digest(a.encoding()) == H::digest(b.encoding()),
        !a.same(&b) ==> a.encoding() != b.encoding(),
{
    law_encoding_is_faithful(&a, &b);
}

/// Bundle equivocation proofs with the same contents have the same hash, and the hash of those with
/// different contents is taken of different encodings: if it is the same, the hash function
/// collides.
pub proof fn law_hash_identifies_equivocation<H: Hashing, BundleHeader: Encode>(
    a: BundleEquivocationProof<BundleHeader>,
    b: BundleEquivocationProof<BundleHeader>,
)
    requires
        a.encodable(),
        b.encodable(),
    ensures
        a.same(&b) ==> H::digest(a.encoding()) == H::digest(b.encoding()),
        !a.same(&b) ==> a.encoding() != b.encoding(),
{
    law_encoding_is_faithful(&a, &b);
}

/// Fraud proofs with the same encoding are of the same kind, and target the same domain and the
/// same receipt.
pub proof fn law_encoding_fixes_targets<BundleHeader: Encode>(
    a: FraudProof<H256, BundleHeader>,
    b: FraudProof<H256, BundleHeader>,
)
    requires
        a.encodable(),
        b.encodable(),
        a.encoding() == b.encoding(),
    ensures
        a.kind() == b.kind(),
        a.target_domain() == b.target_domain(),
        a.target_receipt() == b.target_receipt(),
{
    law_encoding_is_faithful(&a, &b);
}

/// A dummy fraud proof targets what it was made for.
pub proof fn law_dummy_targets<ReceiptHash, BundleHeader>(
    domain_id: DomainId,
    bad_receipt_hash: ReceiptHash,
)
    ensures
        (FraudProof::<ReceiptHash, BundleHeader>::Dummy {
            domain_id,
            bad_receipt_hash,
        }).target_domain() == domain_id,
        (FraudProof::<ReceiptHash, BundleHeader>::Dummy {
            domain_id,
            bad_receipt_hash,
        }).target_receipt() == Some(bad_receipt_hash),
{
}

/// A fraud proof targets a receipt if and only if it is no bundle equivocation.
pub proof fn law_only_equivocation_targets_no_receipt<ReceiptHash, BundleHeader>(
    proof: FraudProof<ReceiptHash, BundleHeader>,
)
    ensures
        proof.target_receipt() is None <==> proof is BundleEquivocation,
{
}

/// In the layout with external values an extrinsic is inlined if and only if it is less than 33
/// bytes; in the other layout every extrinsic is.
pub proof fn law_short_extrinsics_are_inlined<H: Hashing>(digest: ExtrinsicDigest, ext: Seq<u8>)
    ensures
        digest.is_digest_of::<LayoutV1<H>>(ext) ==> (digest is Data <==> ext.len() < 33),
        digest.is_digest_of::<LayoutV0<H>>(ext) ==> digest is Data,
{
}

/// Two extrinsics with the same digest are equal, or both are hashed and their hashes collide.
pub proof fn law_digest_identifies_extrinsic<Layout: TrieLayout>(
    digest: ExtrinsicDigest,
    a: Seq<u8>,
    b: Seq<u8>,
)
    requires
        digest.is_digest_of::<Layout>(a),
        digest.is_digest_of::<Layout>(b),
    ensures
        a == b || (is_hashed::<Layout>(a) && is_hashed::<Layout>(b) && Layout::Hash::digest(a)
            == Layout::Hash::digest(b)),
{
}

/// The methods of the runtime that each phase names, whatever an extrinsic phase holds.
pub proof fn law_method_names(phase: ExecutionPhase)
    ensures
        phase is InitializeBlock ==> phase.proving_name() == phase.verifying_name()
            && phase.proving_name() == "DomainCoreApi_initialize_block_with_post_state_root"@,
        phase is FinalizeBlock ==> phase.proving_name() == phase.verifying_name()
            && phase.proving_name() == "BlockBuilder_finalize_block"@,
        phase is ApplyExtrinsic ==> phase.proving_name() == "BlockBuilder_apply_extrinsic"@,
        phase is ApplyExtrinsic ==> phase.verifying_name()
            == "DomainCoreApi_apply_extrinsic_with_post_state_root"@,
{
}

/// From the encoding of a header, whatever follows it, `finalize_block` has the state root of that
/// header as its outcome, and nothing else.
pub proof fn law_header_outcome_is_its_state_root(
    header: HeaderModel,
    rest: Seq<u8>,
    outcome: Result<H256, VerificationError>,
)
    requires
        header.encodable(),
    ensures
        ExecutionPhase::FinalizeBlock.is_outcome(header.encoding() + rest, outcome)
            <==> outcome is Ok && outcome->Ok_0.0@ == header.state_root,
{
    let phase = ExecutionPhase::FinalizeBlock;
    let result = header.encoding() + rest;
    law_header_root_is_read_back(header, rest);
    assert(result.take(header.encoding().len() as int) =~= header.encoding());
    assert(reads_header(result, header));
    if phase.is_outcome(result, outcome) && outcome is Ok {
        law_one_post_state_root(phase, result, outcome->Ok_0@, header.state_root);
    }
}

/// From the encoding of a byte string, whatever follows it, `initialize_block` and
/// `apply_extrinsic` have its first 32 bytes as their outcome, or the error of decoding a root from
/// it if it is shorter.
pub proof fn law_byte_string_outcome_is_its_root(
    phase: ExecutionPhase,
    bytes: Seq<u8>,
    rest: Seq<u8>,
    outcome: Result<H256, VerificationError>,
)
    requires
        !(phase is FinalizeBlock),
        bytes.len() <= u32::MAX,
    ensures
        bytes.len() >= 32 ==> (phase.is_outcome(compact(bytes.len()) + bytes + rest, outcome)
            <==> outcome is Ok && outcome->Ok_0.0@ == bytes.take(32)),
        bytes.len() < 32 ==> (phase.is_outcome(compact(bytes.len()) + bytes + rest, outcome)
            <==> outcome == Err::<H256, VerificationError>(
            VerificationError::StorageRootDecode(hash_error(bytes)),
        )),
        phase.has_short_byte_string(compact(bytes.len()) + bytes + rest) <==> bytes.len() < 32,
        !phase.lacks_byte_string(compact(bytes.len()) + bytes + rest),
{
    let result = compact(bytes.len()) + bytes + rest;
    assert(result.take(bytes_encoding(bytes).len() as int) =~= bytes_encoding(bytes));
    assert(reads_bytes(result, bytes));
    if phase.has_short_byte_string(result) {
        let read = choose|read: Seq<u8>| #[trigger] reads_bytes(result, read) && read.len() < 32;
        lemma_reads_one_byte_string(result, read, bytes);
    }
    if phase.is_outcome(result, outcome) {
        match outcome {
            Ok(hash) => {
                let read = choose|read: Seq<u8>| #[trigger]
                    reads_bytes(result, read) && read.len() >= 32 && hash@ == read.take(32);
                lemma_reads_one_byte_string(result, read, bytes);
            },
            Err(VerificationError::StorageRootDecode(error)) => {
                let read = choose|read: Seq<u8>| #[trigger]
                    reads_bytes(result, read) && read.len() < 32 && error == hash_error(read);
                lemma_reads_one_byte_string(result, read, bytes);
            },
            _ => {},
        }
    }
}

/// From an input that does not start with a byte string, or with a header, the only outcome is the
/// error of the decoding that failed.
pub proof fn law_undecodable_outcome_is_the_error(
    phase: ExecutionPhase,
    result: Seq<u8>,
    outcome: Result<H256, VerificationError>,
)
    ensures
        !(phase is FinalizeBlock) && (forall|bytes: Seq<u8>| !reads_bytes(result, bytes)) ==> (
        phase.is_outcome(result, outcome) <==> outcome == Err::<H256, VerificationError>(
            VerificationError::InitializeBlockOrApplyExtrinsicDecode(byte_string_error(result)),
        )),
        phase is FinalizeBlock && (forall|header: HeaderModel| !reads_header(result, header)) ==> (
        phase.is_outcome(result, outcome) <==> outcome == Err::<H256, VerificationError>(
            VerificationError::HeaderDecode(header_error(result)),
        )),
        phase.lacks_byte_string(result) <==> !(phase is FinalizeBlock) && (forall|bytes: Seq<u8>|
            !reads_bytes(result, bytes)),
        phase.lacks_header(result) <==> phase is FinalizeBlock && (forall|header: HeaderModel|
            !reads_header(result, header)),
{
}

/// What a receipt claims of a phase: the challenged root is the first of the trace for
/// `initialize_block`, the last for `finalize_block`, and the one at the index for an extrinsic;
/// the root before it is the preceding one of the trace, or the final root of the parent. An
/// extrinsic has to stand strictly between the first and the last, and the trace has to hold two
/// roots.
pub proof fn law_claimed_roots<Hash>(
    phase: ExecutionPhase,
    receipt: ExecutionReceipt<Hash>,
    parent: ExecutionReceipt<Hash>,
)
    ensures
        ({
            let trace = receipt.execution_trace@;
            let claimed = phase.claimed_roots(receipt, parent);
            &&& claimed == Err::<(H256, H256), VerificationError>(
                VerificationError::InvalidExecutionTrace,
            ) <==> trace.len() < 2
            &&& claimed is Ok && phase is InitializeBlock ==> claimed->Ok_0 == (
                parent.final_state_root,
                trace.first(),
            )
            &&& claimed is Ok && phase is FinalizeBlock ==> claimed->Ok_0 == (
                trace.drop_last().last(),
                trace.last(),
            )
            &&& claimed is Ok && phase is ApplyExtrinsic ==> seq![claimed->Ok_0.0, claimed->Ok_0.1]
                == trace.subrange(phase->mismatch_index - 1, phase->mismatch_index + 1)
            &&& trace.len() >= 2 && !(phase is ApplyExtrinsic) ==> claimed is Ok
            &&& trace.len() >= 2 && phase is ApplyExtrinsic ==> (claimed is Ok <==> 0
                < phase->mismatch_index < (trace.len() % 0x1_0000_0000) - 1)
            &&& trace.len() >= 2 && claimed is Err ==> claimed->Err_0
                == VerificationError::InvalidApplyExtrinsicTraceIndex
        }),
{
    let trace = receipt.execution_trace@;
    let claimed = phase.claimed_roots(receipt, parent);
    if claimed is Ok && phase is ApplyExtrinsic {
        assert(seq![claimed->Ok_0.0, claimed->Ok_0.1] =~= trace.subrange(
            phase->mismatch_index - 1,
            phase->mismatch_index + 1,
        ));
    }
}

/// An extrinsic is call data if and only if it was found to be included, whatever it is; the data
/// is the extrinsic itself, and the refusal is always the same error.
pub proof fn law_extrinsic_is_taken_iff_included(
    extrinsic: Seq<u8>,
    included: bool,
    data: Result<Vec<u8>, VerificationError>,
)
    requires
        is_extrinsic_call_data(extrinsic, included, data),
    ensures
        data is Ok <==> included,
        data is Ok ==> data->Ok_0@ == extrinsic,
        data is Err ==> data->Err_0 == VerificationError::InvalidApplyExtrinsicCallData,
{
}

/// The header that a block is initialized with, byte by byte: the hash of the parent block, the
/// number of the block, 64 zero bytes for the two roots, and a digest of one entry.
pub proof fn law_initial_header_bytes<Hash>(
    receipt: ExecutionReceipt<Hash>,
    parent: ExecutionReceipt<Hash>,
    consensus_block_info: Log,
)
    ensures
        initial_header(receipt, parent, consensus_block_info).encoding()
            == parent.domain_block_hash.0@ + compact(receipt.domain_block_number as nat) + Seq::new(
            64,
            |i: int| 0u8,
        ) + seq![4u8] + consensus_block_info.encoding(),
{
    let header = initial_header(receipt, parent, consensus_block_info);
    let logs = seq![consensus_block_info];
    law_header_layout(header);
    law_logs_are_joined_in_order(logs, Seq::empty(), consensus_block_info);
    law_compact_is_shortest(1);
    assert(compact(1) =~= seq![4u8]);
    assert(zero_hash() + zero_hash() =~= Seq::new(64, |i: int| 0u8));
    let front = parent.domain_block_hash.0@ + compact(receipt.domain_block_number as nat);
    assert(header.encoding() == front + zero_hash() + zero_hash() + seq![4u8]
        + consensus_block_info.encoding());
    assert(front + zero_hash() + zero_hash() =~= front + (zero_hash() + zero_hash()));
}

/// Each hash function is the one that it is named after.
pub proof fn law_hash_functions(data: Seq<u8>)
    ensures
        BlakeTwo256::digest(data) == blake2_256(data),
        Keccak256::digest(data) == keccak_256(data),
{
}

/// The digest of an extrinsic, layout by layout and hash function by hash function.
pub proof fn law_extrinsic_digest(digest: ExtrinsicDigest, ext: Seq<u8>)
    ensures
        digest.is_digest_of::<LayoutV1<BlakeTwo256>>(ext) <==> match digest {
            ExtrinsicDigest::Data(data) => ext.len() < 33 && data@ == ext,
            ExtrinsicDigest::Hash(hash) => ext.len() >= 33 && hash.0@ == blake2_256(ext),
        },
        digest.is_digest_of::<LayoutV1<Keccak256>>(ext) <==> match digest {
            ExtrinsicDigest::Data(data) => ext.len() < 33 && data@ == ext,
            ExtrinsicDigest::Hash(hash) => ext.len() >= 33 && hash.0@ == keccak_256(ext),
        },
        digest.is_digest_of::<LayoutV0<BlakeTwo256>>(ext) <==> digest is Data && digest->Data_0@
            == ext,
        digest.is_digest_of::<LayoutV0<Keccak256>>(ext) <==> digest is Data && digest->Data_0@
            == ext,
{
}

/// The digest of an extrinsic for any layout: whether it is hashed is decided by its length and the
/// limit of the layout alone, and the hash is that of the layout.
pub proof fn law_extrinsic_digest_of_any_layout<Layout: TrieLayout>(
    digest: ExtrinsicDigest,
    ext: Seq<u8>,
)
    ensures
        is_hashed::<Layout>(ext) <==> Layout::inline_limit() is Some && ext.len()
            >= Layout::inline_limit()->Some_0,
        digest.is_digest_of::<Layout>(ext) <==> match (digest, Layout::inline_limit()) {
            (ExtrinsicDigest::Data(data), Some(limit)) => ext.len() < limit && data@ == ext,
            (ExtrinsicDigest::Data(data), None) => data@ == ext,
            (ExtrinsicDigest::Hash(hash), Some(limit)) => ext.len() >= limit && hash.0@
                == Layout::Hash::digest(ext),
            (ExtrinsicDigest::Hash(_), None) => false,
        },
{
}

/// The limits of the two layouts do not depend on their hash function, and the hash function of a
/// layout is the one that it is made with.
pub proof fn law_layouts<H: Hashing>(data: Seq<u8>)
    ensures
        LayoutV0::<H>::inline_limit() is None,
        LayoutV1::<H>::inline_limit() == Some(33u32),
        <LayoutV0<H> as TrieLayout>::Hash::digest(data) == H::digest(data),
        <LayoutV1<H> as TrieLayout>::Hash::digest(data) == H::digest(data),
{
}

/// A fraud proof of any kind targets the domain that the proof inside names.
pub proof fn law_target_domain_is_that_of_the_proof<ReceiptHash, BundleHeader>(
    evidence: FraudProof<ReceiptHash, BundleHeader>,
)
    ensures
        evidence matches FraudProof::InvalidStateTransition(inner)
            ==> evidence.target_domain() == inner.domain_id,
        evidence matches FraudProof::InvalidTransaction(inner)
            ==> evidence.target_domain() == inner.domain_id,
        evidence matches FraudProof::BundleEquivocation(inner)
            ==> evidence.target_domain() == inner.domain_id,
        evidence matches FraudProof::ImproperTransactionSortition(inner)
            ==> evidence.target_domain() == inner.domain_id,
        evidence matches FraudProof::InvalidTotalRewards(inner)
            ==> evidence.target_domain() == inner.domain_id,
        evidence matches FraudProof::InvalidExtrinsicsRoot(inner)
            ==> evidence.target_domain() == inner.domain_id,
        evidence matches FraudProof::ValidBundle(inner)
            ==> evidence.target_domain() == inner.domain_id,
        evidence matches FraudProof::InvalidDomainBlockHash(inner)
            ==> evidence.target_domain() == inner.domain_id,
        evidence matches FraudProof::InvalidBundles(inner)
            ==> evidence.target_domain() == inner.domain_id,
        evidence matches FraudProof::Dummy { domain_id, .. }
            ==> evidence.target_domain() == domain_id,
{
}

/// A fraud proof of any kind but a bundle equivocation targets the receipt that the proof inside
/// names as bad, whatever other hashes it holds.
pub proof fn law_target_receipt_is_that_of_the_proof<ReceiptHash, BundleHeader>(
    evidence: FraudProof<ReceiptHash, BundleHeader>,
)
    ensures
        evidence matches FraudProof::InvalidStateTransition(inner)
            ==> evidence.target_receipt() == Some(
            inner.bad_receipt_hash,
        ),
        evidence matches FraudProof::InvalidTransaction(inner)
            ==> evidence.target_receipt() == Some(
            inner.bad_receipt_hash,
        ),
        evidence matches FraudProof::ImproperTransactionSortition(inner)
            ==> evidence.target_receipt() == Some(
            inner.bad_receipt_hash,
        ),
        evidence matches FraudProof::InvalidTotalRewards(inner)
            ==> evidence.target_receipt() == Some(
            inner.bad_receipt_hash,
        ),
        evidence matches FraudProof::InvalidExtrinsicsRoot(inner)
            ==> evidence.target_receipt() == Some(
            inner.bad_receipt_hash,
        ),
        evidence matches FraudProof::ValidBundle(inner) ==> evidence.target_receipt() == Some(
            inner.bad_receipt_hash,
        ),
        evidence matches FraudProof::InvalidDomainBlockHash(inner)
            ==> evidence.target_receipt() == Some(
            inner.bad_receipt_hash,
        ),
        evidence matches FraudProof::InvalidBundles(inner) ==> evidence.target_receipt() == Some(
            inner.bad_receipt_hash,
        ),
        evidence matches FraudProof::Dummy { bad_receipt_hash, .. }
            ==> evidence.target_receipt() == Some(
            bad_receipt_hash,
        ),
        evidence is BundleEquivocation ==> evidence.target_receipt() is None,
{
}

/// The key of a storage item starts with the hash of the name of its pallet and ends with that of
/// its own name.
pub proof fn law_item_key(pallet: Seq<u8>, item: Seq<u8>)
    ensures
        item_key(pallet, item).len() == twox_128(pallet).len() + twox_128(item).len(),
        item_key(pallet, item).take(twox_128(pallet).len() as int) == twox_128(pallet),
        item_key(pallet, item).skip(twox_128(pallet).len() as int) == twox_128(item),
{
    let n = twox_128(pallet).len() as int;
    assert(item_key(pallet, item).take(n) =~= twox_128(pallet));
    assert(item_key(pallet, item).skip(n) =~= twox_128(item));
}

} // verus!
