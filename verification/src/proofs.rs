//! The proofs of the different kinds of fraud.

use vstd::prelude::*;

use sp_trie::StorageProof;

#[allow(unused_imports)]
use crate::encoding_laws::law_equivocation_fields_in_order;
use crate::execution_phase::ExecutionPhase;
use crate::extrinsic_digest::ValidBundleDigest;
use crate::hashing::Hashing;
use crate::primitives::{AccountId, DomainId, Slot, H256};
use crate::scale::Encode;
use crate::storage_proof::empty_proof;
#[allow(unused_imports)]
use crate::scale::{lemma_concat_prefix_free, lemma_first_part};
#[allow(unused_imports)]
use crate::storage_proof::proof_nodes;

verus! {

/// Proof data specific to each *expected* invalid bundle type
#[derive(Debug, PartialEq, Eq, Clone)]
pub enum ProofDataPerInvalidBundleType {
    /// An extrinsic of the bundle is out of the transaction range of the bundle.
    OutOfRangeTx,
}

/// Proves an invalid state transition by challenging the trace at specific index in a bad receipt.
#[derive(Clone, Debug, Eq, PartialEq)]
pub struct InvalidStateTransitionProof<ReceiptHash> {
    /// The id of the domain this fraud proof targeted
    pub domain_id: DomainId,
    /// Hash of the bad receipt in which an invalid trace occurred.
    pub bad_receipt_hash: ReceiptHash,
    /// Proof recorded during the computation.
    pub proof: StorageProof,
    /// Execution phase.
    pub execution_phase: ExecutionPhase,
}

/// Represents a bundle equivocation proof. An equivocation happens when an executor
/// produces more than one bundle on the same slot. The proof of equivocation
/// are the given distinct bundle headers that were signed by the validator and which
/// include the slot number.
#[derive(Clone, Debug, Eq, PartialEq)]
pub struct BundleEquivocationProof<BundleHeader> {
    /// The id of the domain this fraud proof targeted
    pub domain_id: DomainId,
    /// The authority id of the equivocator.
    pub offender: AccountId,
    /// The slot at which the equivocation happened.
    pub slot: Slot,
    /// The first header involved in the equivocation.
    pub first_header: BundleHeader,
    /// The second header involved in the equivocation.
    pub second_header: BundleHeader,
}

/// Represents an invalid transaction proof.
#[derive(Clone, Debug, Eq, PartialEq)]
pub struct InvalidTransactionProof<DomainHash> {
    /// The id of the domain this fraud proof targeted
    pub domain_id: DomainId,
    /// Hash of the bad receipt this fraud proof targeted
    pub bad_receipt_hash: DomainHash,
    /// Number of the block at which the invalid transaction occurred.
    pub domain_block_number: u32,
    /// Hash of the domain block corresponding to `block_number`.
    pub domain_block_hash: DomainHash,
    /// The encoded extrinsic that is invalid.
    pub invalid_extrinsic: Vec<u8>,
    /// Storage witness needed for verifying this proof.
    pub storage_proof: StorageProof,
}

/// Represents an improper transaction sortition proof.
#[derive(Clone, Debug, Eq, PartialEq)]
pub struct ImproperTransactionSortitionProof<ReceiptHash> {
    /// The id of the domain this fraud proof targeted
    pub domain_id: DomainId,
    /// Hash of the bad receipt this fraud proof targeted
    pub bad_receipt_hash: ReceiptHash,
}

/// Represents an invalid total rewards proof.
#[derive(Clone, Debug, Eq, PartialEq)]
pub struct InvalidTotalRewardsProof<ReceiptHash> {
    /// The id of the domain this fraud proof targeted
    pub domain_id: DomainId,
    /// Hash of the bad receipt this fraud proof targeted
    pub bad_receipt_hash: ReceiptHash,
    /// Storage witness needed for verifying this proof.
    pub storage_proof: StorageProof,
}

/// Represents an invalid domain block hash fraud proof.
#[derive(Clone, Debug, Eq, PartialEq)]
pub struct InvalidDomainBlockHashProof<ReceiptHash> {
    /// The id of the domain this fraud proof targeted
    pub domain_id: DomainId,
    /// Hash of the bad receipt this fraud proof targeted
    pub bad_receipt_hash: ReceiptHash,
    /// Digests storage proof that is used to derive Domain block hash.
    pub digest_storage_proof: StorageProof,
}

/// Represents an Invalid domain extrinsics root proof with necessary info for verification.
#[derive(Clone, Debug, Eq, PartialEq)]
pub struct InvalidExtrinsicsRootProof<ReceiptHash> {
    /// The id of the domain this fraud proof targeted
    pub domain_id: DomainId,
    /// Hash of the bad receipt this fraud proof targeted
    pub bad_receipt_hash: ReceiptHash,
    /// Valid Bundle digests
    pub valid_bundle_digests: Vec<ValidBundleDigest>,
}

/// Fraud proof for the valid bundles in the inboxed bundles of an execution receipt.
#[derive(Clone, Debug, Eq, PartialEq)]
pub struct ValidBundleProof<ReceiptHash> {
    /// The id of the domain this fraud proof targeted
    pub domain_id: DomainId,
    /// The targetted bad receipt
    pub bad_receipt_hash: ReceiptHash,
    /// The index of the targetted bundle
    pub bundle_index: u32,
}

/// Proves that a bundle is marked wrongly as valid, or as invalid, in a bad receipt.
#[derive(Clone, Debug, Eq, PartialEq)]
pub struct InvalidBundlesFraudProof<ReceiptHash> {
    /// Hash of the bad receipt this fraud proof targeted
    pub bad_receipt_hash: ReceiptHash,
    /// The id of the domain this fraud proof targeted
    pub domain_id: DomainId,
    /// The index of the targeted bundle
    pub bundle_index: u32,
    /// The index of the extrinsic of the bundle that the proof is about
    pub mismatched_extrinsic_index: u32,
    /// Proof that the extrinsic is included in the bundle
    pub extrinsic_inclusion_proof: Vec<Vec<u8>>,
    /// Whether the bundle is shown to be invalid, rather than wrongly marked as such
    pub is_true_invalid_fraud_proof: bool,
    /// Proof data specific to the expected invalid bundle type
    pub proof_data: ProofDataPerInvalidBundleType,
}

impl<ReceiptHash> InvalidBundlesFraudProof<ReceiptHash> {
    /// Returns the proof that is made of the given parts.
    pub fn new(
        bad_receipt_hash: ReceiptHash,
        domain_id: DomainId,
        bundle_index: u32,
        mismatched_extrinsic_index: u32,
        extrinsic_inclusion_proof: Vec<Vec<u8>>,
        is_true_invalid_fraud_proof: bool,
        proof_data: ProofDataPerInvalidBundleType,
    ) -> (proof: Self)
        ensures
            proof == (InvalidBundlesFraudProof {
                bad_receipt_hash,
                domain_id,
                bundle_index,
                mismatched_extrinsic_index,
                extrinsic_inclusion_proof,
                is_true_invalid_fraud_proof,
                proof_data,
            }),
    {
        Self {
            bad_receipt_hash,
            domain_id,
            bundle_index,
            mismatched_extrinsic_index,
            extrinsic_inclusion_proof,
            is_true_invalid_fraud_proof,
            proof_data,
        }
    }
}

impl<ReceiptHash: Copy> InvalidTotalRewardsProof<ReceiptHash> {
    pub(crate) fn domain_id(&self) -> (id: DomainId)
        ensures
            id == self.domain_id,
    {
        self.domain_id
    }

    pub(crate) fn bad_receipt_hash(&self) -> (hash: ReceiptHash)
        ensures
            hash == self.bad_receipt_hash,
    {
        self.bad_receipt_hash
    }
}

impl<BundleHeader: Encode> BundleEquivocationProof<BundleHeader> {
    /// Returns the hash of this bundle equivocation proof, for the hash function `H` of the domain
    /// chain.
    pub fn hash<H: Hashing>(&self) -> (hash: H256)
        requires
            self.encodable(),
        ensures
            hash@ == H::digest(self.encoding()),
            hash.0@ == H::digest(
                self.domain_id.encoding() + self.offender.encoding() + self.slot.encoding()
                    + self.first_header.encoding() + self.second_header.encoding(),
            ),
    {
        proof {
            law_equivocation_fields_in_order(*self);
        }
        H::hash(&self.encode())
    }
}

/// Returns a proof against the receipt with the default hash that proves nothing: it holds no
/// trie node.
pub fn dummy_invalid_state_transition_proof<ReceiptHash: Default>(domain_id: DomainId) -> (proof:
    InvalidStateTransitionProof<ReceiptHash>)
    ensures
        proof.domain_id == domain_id,
        call_ensures(ReceiptHash::default, (), proof.bad_receipt_hash),
        proof_nodes(proof.proof) == Seq::<Seq<u8>>::empty(),
        proof.execution_phase == ExecutionPhase::FinalizeBlock,
{
    InvalidStateTransitionProof {
        domain_id,
        bad_receipt_hash: ReceiptHash::default(),
        proof: empty_proof(),
        execution_phase: ExecutionPhase::FinalizeBlock,
    }
}

impl Encode for ExecutionPhase {
    open spec fn encodable(&self) -> bool {
        match self {
            ExecutionPhase::ApplyExtrinsic { proof_of_inclusion, mismatch_index, extrinsic } => {
                proof_of_inclusion.encodable() && extrinsic.encodable()
            },
            _ => true,
        }
    }

    open spec fn encoding(&self) -> Seq<u8> {
        match self {
            ExecutionPhase::InitializeBlock => seq![0u8],
            ExecutionPhase::ApplyExtrinsic { proof_of_inclusion, mismatch_index, extrinsic } => {
                seq![1u8] + (proof_of_inclusion.encoding() + (mismatch_index.encoding()
                    + extrinsic.encoding()))
            },
            ExecutionPhase::FinalizeBlock => seq![2u8],
        }
    }

    open spec fn same(&self, other: &Self) -> bool {
        match (self, other) {
            (ExecutionPhase::InitializeBlock, ExecutionPhase::InitializeBlock) => true,
            (
                ExecutionPhase::ApplyExtrinsic {
                    proof_of_inclusion: p,
                    mismatch_index: i,
                    extrinsic: x,
                },
                ExecutionPhase::ApplyExtrinsic {
                    proof_of_inclusion: q,
                    mismatch_index: j,
                    extrinsic: y,
                },
            ) => p.same(q) && i.same(j) && x.same(y),
            (ExecutionPhase::FinalizeBlock, ExecutionPhase::FinalizeBlock) => true,
            _ => false,
        }
    }

    proof fn lemma_prefix_free(a: &Self, b: &Self, s: Seq<u8>, t: Seq<u8>) {
        let left = a.encoding() + s;
        let right = b.encoding() + t;
        assert(left[0] == (match a {
            ExecutionPhase::InitializeBlock => 0u8,
            ExecutionPhase::ApplyExtrinsic { .. } => 1u8,
            ExecutionPhase::FinalizeBlock => 2u8,
        }));
        assert(right[0] == (match b {
            ExecutionPhase::InitializeBlock => 0u8,
            ExecutionPhase::ApplyExtrinsic { .. } => 1u8,
            ExecutionPhase::FinalizeBlock => 2u8,
        }));
        match (a, b) {
            (
                ExecutionPhase::ApplyExtrinsic {
                    proof_of_inclusion: p,
                    mismatch_index: i,
                    extrinsic: x,
                },
                ExecutionPhase::ApplyExtrinsic {
                    proof_of_inclusion: q,
                    mismatch_index: j,
                    extrinsic: y,
                },
            ) => {
                let a1 = i.encoding() + x.encoding();
                let b1 = j.encoding() + y.encoding();
                assert(left.skip(1) =~= (p.encoding() + a1) + s);
                assert(right.skip(1) =~= (q.encoding() + b1) + t);
                lemma_first_part(p, q, a1, b1, s, t);
                lemma_first_part(i, j, x.encoding(), y.encoding(), s, t);
                Encode::lemma_prefix_free(x, y, s, t);
            },
            _ => {
                assert(left.skip(1) =~= s);
                assert(right.skip(1) =~= t);
            },
        }
    }

    proof fn lemma_same_encoding(a: &Self, b: &Self) {
    }

    fn is_encodable(&self) -> (fits: bool) {
        match self {
            ExecutionPhase::ApplyExtrinsic { proof_of_inclusion, extrinsic, .. } => {
                proof_of_inclusion.is_encodable() && extrinsic.is_encodable()
            },
            _ => true,
        }
    }

    fn encode_to(&self, out: &mut Vec<u8>) {
        match self {
            ExecutionPhase::InitializeBlock => {
                out.push(0u8);
            },
            ExecutionPhase::ApplyExtrinsic { proof_of_inclusion, mismatch_index, extrinsic } => {
                out.push(1u8);
                proof_of_inclusion.encode_to(out);
                mismatch_index.encode_to(out);
                extrinsic.encode_to(out);
            },
            ExecutionPhase::FinalizeBlock => {
                out.push(2u8);
            },
        }
        assert(out@ =~= old(out)@ + self.encoding());
    }
}

impl Encode for ProofDataPerInvalidBundleType {
    open spec fn encodable(&self) -> bool {
        true
    }

    open spec fn encoding(&self) -> Seq<u8> {
        match self {
            ProofDataPerInvalidBundleType::OutOfRangeTx => seq![0u8],
        }
    }

    open spec fn same(&self, other: &Self) -> bool {
        *self == *other
    }

    proof fn lemma_prefix_free(a: &Self, b: &Self, s: Seq<u8>, t: Seq<u8>) {
        lemma_concat_prefix_free(a.encoding(), b.encoding(), s, t);
    }

    proof fn lemma_same_encoding(a: &Self, b: &Self) {
    }

    fn is_encodable(&self) -> (fits: bool) {
        true
    }

    fn encode_to(&self, out: &mut Vec<u8>) {
        match self {
            ProofDataPerInvalidBundleType::OutOfRangeTx => {
                out.push(0u8);
            },
        }
        assert(out@ =~= old(out)@ + self.encoding());
    }
}

impl<ReceiptHash: Encode> Encode for InvalidStateTransitionProof<ReceiptHash> {
    open spec fn encodable(&self) -> bool {
        &&& self.domain_id.encodable()
        &&& self.bad_receipt_hash.encodable()
        &&& self.proof.encodable()
        &&& self.execution_phase.encodable()
    }

    open spec fn encoding(&self) -> Seq<u8> {
        self.domain_id.encoding() + (self.bad_receipt_hash.encoding() + (self.proof.encoding() + self.execution_phase.encoding()))
    }

    open spec fn same(&self, other: &Self) -> bool {
        &&& self.domain_id.same(&other.domain_id)
        &&& self.bad_receipt_hash.same(&other.bad_receipt_hash)
        &&& self.proof.same(&other.proof)
        &&& self.execution_phase.same(&other.execution_phase)
    }

    proof fn lemma_prefix_free(a: &Self, b: &Self, s: Seq<u8>, t: Seq<u8>) {
        let a1 = a.bad_receipt_hash.encoding() + (a.proof.encoding() + a.execution_phase.encoding());
        let b1 = b.bad_receipt_hash.encoding() + (b.proof.encoding() + b.execution_phase.encoding());
        let a2 = a.proof.encoding() + a.execution_phase.encoding();
        let b2 = b.proof.encoding() + b.execution_phase.encoding();
        let a3 = a.execution_phase.encoding();
        let b3 = b.execution_phase.encoding();
        lemma_first_part(&a.domain_id, &b.domain_id, a1, b1, s, t);
        lemma_first_part(&a.bad_receipt_hash, &b.bad_receipt_hash, a2, b2, s, t);
        lemma_first_part(&a.proof, &b.proof, a3, b3, s, t);
        Encode::lemma_prefix_free(&a.execution_phase, &b.execution_phase, s, t);
    }

    proof fn lemma_same_encoding(a: &Self, b: &Self) {
        Encode::lemma_same_encoding(&a.domain_id, &b.domain_id);
        Encode::lemma_same_encoding(&a.bad_receipt_hash, &b.bad_receipt_hash);
        Encode::lemma_same_encoding(&a.proof, &b.proof);
        Encode::lemma_same_encoding(&a.execution_phase, &b.execution_phase);
    }

    fn is_encodable(&self) -> (fits: bool) {
        self.domain_id.is_encodable()
            && self.bad_receipt_hash.is_encodable()
            && self.proof.is_encodable()
            && self.execution_phase.is_encodable()
    }

    fn encode_to(&self, out: &mut Vec<u8>) {
        self.domain_id.encode_to(out);
        self.bad_receipt_hash.encode_to(out);
        self.proof.encode_to(out);
        self.execution_phase.encode_to(out);
        assert(out@ =~= old(out)@ + self.encoding());
    }
}

impl<BundleHeader: Encode> Encode for BundleEquivocationProof<BundleHeader> {
    open spec fn encodable(&self) -> bool {
        &&& self.domain_id.encodable()
        &&& self.offender.encodable()
        &&& self.slot.encodable()
        &&& self.first_header.encodable()
        &&& self.second_header.encodable()
    }

    open spec fn encoding(&self) -> Seq<u8> {
        self.domain_id.encoding() + (self.offender.encoding() + (self.slot.encoding() + (self.first_header.encoding() + self.second_header.encoding())))
    }

    open spec fn same(&self, other: &Self) -> bool {
        &&& self.domain_id.same(&other.domain_id)
        &&& self.offender.same(&other.offender)
        &&& self.slot.same(&other.slot)
        &&& self.first_header.same(&other.first_header)
        &&& self.second_header.same(&other.second_header)
    }

    proof fn lemma_prefix_free(a: &Self, b: &Self, s: Seq<u8>, t: Seq<u8>) {
        let a1 = a.offender.encoding() + (a.slot.encoding() + (a.first_header.encoding() + a.second_header.encoding()));
        let b1 = b.offender.encoding() + (b.slot.encoding() + (b.first_header.encoding() + b.second_header.encoding()));
        let a2 = a.slot.encoding() + (a.first_header.encoding() + a.second_header.encoding());
        let b2 = b.slot.encoding() + (b.first_header.encoding() + b.second_header.encoding());
        let a3 = a.first_header.encoding() + a.second_header.encoding();
        let b3 = b.first_header.encoding() + b.second_header.encoding();
        let a4 = a.second_header.encoding();
        let b4 = b.second_header.encoding();
        lemma_first_part(&a.domain_id, &b.domain_id, a1, b1, s, t);
        lemma_first_part(&a.offender, &b.offender, a2, b2, s, t);
        lemma_first_part(&a.slot, &b.slot, a3, b3, s, t);
        lemma_first_part(&a.first_header, &b.first_header, a4, b4, s, t);
        Encode::lemma_prefix_free(&a.second_header, &b.second_header, s, t);
    }

    proof fn lemma_same_encoding(a: &Self, b: &Self) {
        Encode::lemma_same_encoding(&a.domain_id, &b.domain_id);
        Encode::lemma_same_encoding(&a.offender, &b.offender);
        Encode::lemma_same_encoding(&a.slot, &b.slot);
        Encode::lemma_same_encoding(&a.first_header, &b.first_header);
        Encode::lemma_same_encoding(&a.second_header, &b.second_header);
    }

    fn is_encodable(&self) -> (fits: bool) {
        self.domain_id.is_encodable()
            && self.offender.is_encodable()
            && self.slot.is_encodable()
            && self.first_header.is_encodable()
            && self.second_header.is_encodable()
    }

    fn encode_to(&self, out: &mut Vec<u8>) {
        self.domain_id.encode_to(out);
        self.offender.encode_to(out);
        self.slot.encode_to(out);
        self.first_header.encode_to(out);
        self.second_header.encode_to(out);
        assert(out@ =~= old(out)@ + self.encoding());
    }
}

impl<DomainHash: Encode> Encode for InvalidTransactionProof<DomainHash> {
    open spec fn encodable(&self) -> bool {
        &&& self.domain_id.encodable()
        &&& self.bad_receipt_hash.encodable()
        &&& self.domain_block_number.encodable()
        &&& self.domain_block_hash.encodable()
        &&& self.invalid_extrinsic.encodable()
        &&& self.storage_proof.encodable()
    }

    open spec fn encoding(&self) -> Seq<u8> {
        self.domain_id.encoding() + (self.bad_receipt_hash.encoding() + (self.domain_block_number.encoding() + (self.domain_block_hash.encoding() + (self.invalid_extrinsic.encoding() + self.storage_proof.encoding()))))
    }

    open spec fn same(&self, other: &Self) -> bool {
        &&& self.domain_id.same(&other.domain_id)
        &&& self.bad_receipt_hash.same(&other.bad_receipt_hash)
        &&& self.domain_block_number.same(&other.domain_block_number)
        &&& self.domain_block_hash.same(&other.domain_block_hash)
        &&& self.invalid_extrinsic.same(&other.invalid_extrinsic)
        &&& self.storage_proof.same(&other.storage_proof)
    }

    proof fn lemma_prefix_free(a: &Self, b: &Self, s: Seq<u8>, t: Seq<u8>) {
        let a1 = a.bad_receipt_hash.encoding() + (a.domain_block_number.encoding() + (a.domain_block_hash.encoding() + (a.invalid_extrinsic.encoding() + a.storage_proof.encoding())));
        let b1 = b.bad_receipt_hash.encoding() + (b.domain_block_number.encoding() + (b.domain_block_hash.encoding() + (b.invalid_extrinsic.encoding() + b.storage_proof.encoding())));
        let a2 = a.domain_block_number.encoding() + (a.domain_block_hash.encoding() + (a.invalid_extrinsic.encoding() + a.storage_proof.encoding()));
        let b2 = b.domain_block_number.encoding() + (b.domain_block_hash.encoding() + (b.invalid_extrinsic.encoding() + b.storage_proof.encoding()));
        let a3 = a.domain_block_hash.encoding() + (a.invalid_extrinsic.encoding() + a.storage_proof.encoding());
        let b3 = b.domain_block_hash.encoding() + (b.invalid_extrinsic.encoding() + b.storage_proof.encoding());
        let a4 = a.invalid_extrinsic.encoding() + a.storage_proof.encoding();
        let b4 = b.invalid_extrinsic.encoding() + b.storage_proof.encoding();
        let a5 = a.storage_proof.encoding();
        let b5 = b.storage_proof.encoding();
        lemma_first_part(&a.domain_id, &b.domain_id, a1, b1, s, t);
        lemma_first_part(&a.bad_receipt_hash, &b.bad_receipt_hash, a2, b2, s, t);
        lemma_first_part(&a.domain_block_number, &b.domain_block_number, a3, b3, s, t);
        lemma_first_part(&a.domain_block_hash, &b.domain_block_hash, a4, b4, s, t);
        lemma_first_part(&a.invalid_extrinsic, &b.invalid_extrinsic, a5, b5, s, t);
        Encode::lemma_prefix_free(&a.storage_proof, &b.storage_proof, s, t);
    }

    proof fn lemma_same_encoding(a: &Self, b: &Self) {
        Encode::lemma_same_encoding(&a.domain_id, &b.domain_id);
        Encode::lemma_same_encoding(&a.bad_receipt_hash, &b.bad_receipt_hash);
        Encode::lemma_same_encoding(&a.domain_block_number, &b.domain_block_number);
        Encode::lemma_same_encoding(&a.domain_block_hash, &b.domain_block_hash);
        Encode::lemma_same_encoding(&a.invalid_extrinsic, &b.invalid_extrinsic);
        Encode::lemma_same_encoding(&a.storage_proof, &b.storage_proof);
    }

    fn is_encodable(&self) -> (fits: bool) {
        self.domain_id.is_encodable()
            && self.bad_receipt_hash.is_encodable()
            && self.domain_block_number.is_encodable()
            && self.domain_block_hash.is_encodable()
            && self.invalid_extrinsic.is_encodable()
            && self.storage_proof.is_encodable()
    }

    fn encode_to(&self, out: &mut Vec<u8>) {
        self.domain_id.encode_to(out);
        self.bad_receipt_hash.encode_to(out);
        self.domain_block_number.encode_to(out);
        self.domain_block_hash.encode_to(out);
        self.invalid_extrinsic.encode_to(out);
        self.storage_proof.encode_to(out);
        assert(out@ =~= old(out)@ + self.encoding());
    }
}

impl<ReceiptHash: Encode> Encode for ImproperTransactionSortitionProof<ReceiptHash> {
    open spec fn encodable(&self) -> bool {
        &&& self.domain_id.encodable()
        &&& self.bad_receipt_hash.encodable()
    }

    open spec fn encoding(&self) -> Seq<u8> {
        self.domain_id.encoding() + self.bad_receipt_hash.encoding()
    }

    open spec fn same(&self, other: &Self) -> bool {
        &&& self.domain_id.same(&other.domain_id)
        &&& self.bad_receipt_hash.same(&other.bad_receipt_hash)
    }

    proof fn lemma_prefix_free(a: &Self, b: &Self, s: Seq<u8>, t: Seq<u8>) {
        let a1 = a.bad_receipt_hash.encoding();
        let b1 = b.bad_receipt_hash.encoding();
        lemma_first_part(&a.domain_id, &b.domain_id, a1, b1, s, t);
        Encode::lemma_prefix_free(&a.bad_receipt_hash, &b.bad_receipt_hash, s, t);
    }

    proof fn lemma_same_encoding(a: &Self, b: &Self) {
        Encode::lemma_same_encoding(&a.domain_id, &b.domain_id);
        Encode::lemma_same_encoding(&a.bad_receipt_hash, &b.bad_receipt_hash);
    }

    fn is_encodable(&self) -> (fits: bool) {
        self.domain_id.is_encodable()
            && self.bad_receipt_hash.is_encodable()
    }

    fn encode_to(&self, out: &mut Vec<u8>) {
        self.domain_id.encode_to(out);
        self.bad_receipt_hash.encode_to(out);
        assert(out@ =~= old(out)@ + self.encoding());
    }
}

impl<ReceiptHash: Encode> Encode for InvalidTotalRewardsProof<ReceiptHash> {
    open spec fn encodable(&self) -> bool {
        &&& self.domain_id.encodable()
        &&& self.bad_receipt_hash.encodable()
        &&& self.storage_proof.encodable()
    }

    open spec fn encoding(&self) -> Seq<u8> {
        self.domain_id.encoding() + (self.bad_receipt_hash.encoding() + self.storage_proof.encoding())
    }

    open spec fn same(&self, other: &Self) -> bool {
        &&& self.domain_id.same(&other.domain_id)
        &&& self.bad_receipt_hash.same(&other.bad_receipt_hash)
        &&& self.storage_proof.same(&other.storage_proof)
    }

    proof fn lemma_prefix_free(a: &Self, b: &Self, s: Seq<u8>, t: Seq<u8>) {
        let a1 = a.bad_receipt_hash.encoding() + a.storage_proof.encoding();
        let b1 = b.bad_receipt_hash.encoding() + b.storage_proof.encoding();
        let a2 = a.storage_proof.encoding();
        let b2 = b.storage_proof.encoding();
        lemma_first_part(&a.domain_id, &b.domain_id, a1, b1, s, t);
        lemma_first_part(&a.bad_receipt_hash, &b.bad_receipt_hash, a2, b2, s, t);
        Encode::lemma_prefix_free(&a.storage_proof, &b.storage_proof, s, t);
    }

    proof fn lemma_same_encoding(a: &Self, b: &Self) {
        Encode::lemma_same_encoding(&a.domain_id, &b.domain_id);
        Encode::lemma_same_encoding(&a.bad_receipt_hash, &b.bad_receipt_hash);
        Encode::lemma_same_encoding(&a.storage_proof, &b.storage_proof);
    }

    fn is_encodable(&self) -> (fits: bool) {
        self.domain_id.is_encodable()
            && self.bad_receipt_hash.is_encodable()
            && self.storage_proof.is_encodable()
    }

    fn encode_to(&self, out: &mut Vec<u8>) {
        self.domain_id.encode_to(out);
        self.bad_receipt_hash.encode_to(out);
        self.storage_proof.encode_to(out);
        assert(out@ =~= old(out)@ + self.encoding());
    }
}

impl<ReceiptHash: Encode> Encode for InvalidDomainBlockHashProof<ReceiptHash> {
    open spec fn encodable(&self) -> bool {
        &&& self.domain_id.encodable()
        &&& self.bad_receipt_hash.encodable()
        &&& self.digest_storage_proof.encodable()
    }

    open spec fn encoding(&self) -> Seq<u8> {
        self.domain_id.encoding() + (self.bad_receipt_hash.encoding() + self.digest_storage_proof.encoding())
    }

    open spec fn same(&self, other: &Self) -> bool {
        &&& self.domain_id.same(&other.domain_id)
        &&& self.bad_receipt_hash.same(&other.bad_receipt_hash)
        &&& self.digest_storage_proof.same(&other.digest_storage_proof)
    }

    proof fn lemma_prefix_free(a: &Self, b: &Self, s: Seq<u8>, t: Seq<u8>) {
        let a1 = a.bad_receipt_hash.encoding() + a.digest_storage_proof.encoding();
        let b1 = b.bad_receipt_hash.encoding() + b.digest_storage_proof.encoding();
        let a2 = a.digest_storage_proof.encoding();
        let b2 = b.digest_storage_proof.encoding();
        lemma_first_part(&a.domain_id, &b.domain_id, a1, b1, s, t);
        lemma_first_part(&a.bad_receipt_hash, &b.bad_receipt_hash, a2, b2, s, t);
        Encode::lemma_prefix_free(&a.digest_storage_proof, &b.digest_storage_proof, s, t);
    }

    proof fn lemma_same_encoding(a: &Self, b: &Self) {
        Encode::lemma_same_encoding(&a.domain_id, &b.domain_id);
        Encode::lemma_same_encoding(&a.bad_receipt_hash, &b.bad_receipt_hash);
        Encode::lemma_same_encoding(&a.digest_storage_proof, &b.digest_storage_proof);
    }

    fn is_encodable(&self) -> (fits: bool) {
        self.domain_id.is_encodable()
            && self.bad_receipt_hash.is_encodable()
            && self.digest_storage_proof.is_encodable()
    }

    fn encode_to(&self, out: &mut Vec<u8>) {
        self.domain_id.encode_to(out);
        self.bad_receipt_hash.encode_to(out);
        self.digest_storage_proof.encode_to(out);
        assert(out@ =~= old(out)@ + self.encoding());
    }
}

impl<ReceiptHash: Encode> Encode for InvalidExtrinsicsRootProof<ReceiptHash> {
    open spec fn encodable(&self) -> bool {
        &&& self.domain_id.encodable()
        &&& self.bad_receipt_hash.encodable()
        &&& self.valid_bundle_digests.encodable()
    }

    open spec fn encoding(&self) -> Seq<u8> {
        self.domain_id.encoding() + (self.bad_receipt_hash.encoding() + self.valid_bundle_digests.encoding())
    }

    open spec fn same(&self, other: &Self) -> bool {
        &&& self.domain_id.same(&other.domain_id)
        &&& self.bad_receipt_hash.same(&other.bad_receipt_hash)
        &&& self.valid_bundle_digests.same(&other.valid_bundle_digests)
    }

    proof fn lemma_prefix_free(a: &Self, b: &Self, s: Seq<u8>, t: Seq<u8>) {
        let a1 = a.bad_receipt_hash.encoding() + a.valid_bundle_digests.encoding();
        let b1 = b.bad_receipt_hash.encoding() + b.valid_bundle_digests.encoding();
        let a2 = a.valid_bundle_digests.encoding();
        let b2 = b.valid_bundle_digests.encoding();
        lemma_first_part(&a.domain_id, &b.domain_id, a1, b1, s, t);
        lemma_first_part(&a.bad_receipt_hash, &b.bad_receipt_hash, a2, b2, s, t);
        Encode::lemma_prefix_free(&a.valid_bundle_digests, &b.valid_bundle_digests, s, t);
    }

    proof fn lemma_same_encoding(a: &Self, b: &Self) {
        Encode::lemma_same_encoding(&a.domain_id, &b.domain_id);
        Encode::lemma_same_encoding(&a.bad_receipt_hash, &b.bad_receipt_hash);
        Encode::lemma_same_encoding(&a.valid_bundle_digests, &b.valid_bundle_digests);
    }

    fn is_encodable(&self) -> (fits: bool) {
        self.domain_id.is_encodable()
            && self.bad_receipt_hash.is_encodable()
            && self.valid_bundle_digests.is_encodable()
    }

    fn encode_to(&self, out: &mut Vec<u8>) {
        self.domain_id.encode_to(out);
        self.bad_receipt_hash.encode_to(out);
        self.valid_bundle_digests.encode_to(out);
        assert(out@ =~= old(out)@ + self.encoding());
    }
}

impl<ReceiptHash: Encode> Encode for ValidBundleProof<ReceiptHash> {
    open spec fn encodable(&self) -> bool {
        &&& self.domain_id.encodable()
        &&& self.bad_receipt_hash.encodable()
        &&& self.bundle_index.encodable()
    }

    open spec fn encoding(&self) -> Seq<u8> {
        self.domain_id.encoding() + (self.bad_receipt_hash.encoding() + self.bundle_index.encoding())
    }

    open spec fn same(&self, other: &Self) -> bool {
        &&& self.domain_id.same(&other.domain_id)
        &&& self.bad_receipt_hash.same(&other.bad_receipt_hash)
        &&& self.bundle_index.same(&other.bundle_index)
    }

    proof fn lemma_prefix_free(a: &Self, b: &Self, s: Seq<u8>, t: Seq<u8>) {
        let a1 = a.bad_receipt_hash.encoding() + a.bundle_index.encoding();
        let b1 = b.bad_receipt_hash.encoding() + b.bundle_index.encoding();
        let a2 = a.bundle_index.encoding();
        let b2 = b.bundle_index.encoding();
        lemma_first_part(&a.domain_id, &b.domain_id, a1, b1, s, t);
        lemma_first_part(&a.bad_receipt_hash, &b.bad_receipt_hash, a2, b2, s, t);
        Encode::lemma_prefix_free(&a.bundle_index, &b.bundle_index, s, t);
    }

    proof fn lemma_same_encoding(a: &Self, b: &Self) {
        Encode::lemma_same_encoding(&a.domain_id, &b.domain_id);
        Encode::lemma_same_encoding(&a.bad_receipt_hash, &b.bad_receipt_hash);
        Encode::lemma_same_encoding(&a.bundle_index, &b.bundle_index);
    }

    fn is_encodable(&self) -> (fits: bool) {
        self.domain_id.is_encodable()
            && self.bad_receipt_hash.is_encodable()
            && self.bundle_index.is_encodable()
    }

    fn encode_to(&self, out: &mut Vec<u8>) {
        self.domain_id.encode_to(out);
        self.bad_receipt_hash.encode_to(out);
        self.bundle_index.encode_to(out);
        assert(out@ =~= old(out)@ + self.encoding());
    }
}

impl<ReceiptHash: Encode> Encode for InvalidBundlesFraudProof<ReceiptHash> {
    open spec fn encodable(&self) -> bool {
        &&& self.bad_receipt_hash.encodable()
        &&& self.domain_id.encodable()
        &&& self.bundle_index.encodable()
        &&& self.mismatched_extrinsic_index.encodable()
        &&& self.extrinsic_inclusion_proof.encodable()
        &&& self.is_true_invalid_fraud_proof.encodable()
        &&& self.proof_data.encodable()
    }

    open spec fn encoding(&self) -> Seq<u8> {
        self.bad_receipt_hash.encoding() + (self.domain_id.encoding() + (self.bundle_index.encoding() + (self.mismatched_extrinsic_index.encoding() + (self.extrinsic_inclusion_proof.encoding() + (self.is_true_invalid_fraud_proof.encoding() + self.proof_data.encoding())))))
    }

    open spec fn same(&self, other: &Self) -> bool {
        &&& self.bad_receipt_hash.same(&other.bad_receipt_hash)
        &&& self.domain_id.same(&other.domain_id)
        &&& self.bundle_index.same(&other.bundle_index)
        &&& self.mismatched_extrinsic_index.same(&other.mismatched_extrinsic_index)
        &&& self.extrinsic_inclusion_proof.same(&other.extrinsic_inclusion_proof)
        &&& self.is_true_invalid_fraud_proof.same(&other.is_true_invalid_fraud_proof)
        &&& self.proof_data.same(&other.proof_data)
    }

    proof fn lemma_prefix_free(a: &Self, b: &Self, s: Seq<u8>, t: Seq<u8>) {
        let a1 = a.domain_id.encoding() + (a.bundle_index.encoding() + (a.mismatched_extrinsic_index.encoding() + (a.extrinsic_inclusion_proof.encoding() + (a.is_true_invalid_fraud_proof.encoding() + a.proof_data.encoding()))));
        let b1 = b.domain_id.encoding() + (b.bundle_index.encoding() + (b.mismatched_extrinsic_index.encoding() + (b.extrinsic_inclusion_proof.encoding() + (b.is_true_invalid_fraud_proof.encoding() + b.proof_data.encoding()))));
        let a2 = a.bundle_index.encoding() + (a.mismatched_extrinsic_index.encoding() + (a.extrinsic_inclusion_proof.encoding() + (a.is_true_invalid_fraud_proof.encoding() + a.proof_data.encoding())));
        let b2 = b.bundle_index.encoding() + (b.mismatched_extrinsic_index.encoding() + (b.extrinsic_inclusion_proof.encoding() + (b.is_true_invalid_fraud_proof.encoding() + b.proof_data.encoding())));
        let a3 = a.mismatched_extrinsic_index.encoding() + (a.extrinsic_inclusion_proof.encoding() + (a.is_true_invalid_fraud_proof.encoding() + a.proof_data.encoding()));
        let b3 = b.mismatched_extrinsic_index.encoding() + (b.extrinsic_inclusion_proof.encoding() + (b.is_true_invalid_fraud_proof.encoding() + b.proof_data.encoding()));
        let a4 = a.extrinsic_inclusion_proof.encoding() + (a.is_true_invalid_fraud_proof.encoding() + a.proof_data.encoding());
        let b4 = b.extrinsic_inclusion_proof.encoding() + (b.is_true_invalid_fraud_proof.encoding() + b.proof_data.encoding());
        let a5 = a.is_true_invalid_fraud_proof.encoding() + a.proof_data.encoding();
        let b5 = b.is_true_invalid_fraud_proof.encoding() + b.proof_data.encoding();
        let a6 = a.proof_data.encoding();
        let b6 = b.proof_data.encoding();
        lemma_first_part(&a.bad_receipt_hash, &b.bad_receipt_hash, a1, b1, s, t);
        lemma_first_part(&a.domain_id, &b.domain_id, a2, b2, s, t);
        lemma_first_part(&a.bundle_index, &b.bundle_index, a3, b3, s, t);
        lemma_first_part(&a.mismatched_extrinsic_index, &b.mismatched_extrinsic_index, a4, b4, s, t);
        lemma_first_part(&a.extrinsic_inclusion_proof, &b.extrinsic_inclusion_proof, a5, b5, s, t);
        lemma_first_part(&a.is_true_invalid_fraud_proof, &b.is_true_invalid_fraud_proof, a6, b6, s, t);
        Encode::lemma_prefix_free(&a.proof_data, &b.proof_data, s, t);
    }

    proof fn lemma_same_encoding(a: &Self, b: &Self) {
        Encode::lemma_same_encoding(&a.bad_receipt_hash, &b.bad_receipt_hash);
        Encode::lemma_same_encoding(&a.domain_id, &b.domain_id);
        Encode::lemma_same_encoding(&a.bundle_index, &b.bundle_index);
        Encode::lemma_same_encoding(&a.mismatched_extrinsic_index, &b.mismatched_extrinsic_index);
        Encode::lemma_same_encoding(&a.extrinsic_inclusion_proof, &b.extrinsic_inclusion_proof);
        Encode::lemma_same_encoding(&a.is_true_invalid_fraud_proof, &b.is_true_invalid_fraud_proof);
        Encode::lemma_same_encoding(&a.proof_data, &b.proof_data);
    }

    fn is_encodable(&self) -> (fits: bool) {
        self.bad_receipt_hash.is_encodable()
            && self.domain_id.is_encodable()
            && self.bundle_index.is_encodable()
            && self.mismatched_extrinsic_index.is_encodable()
            && self.extrinsic_inclusion_proof.is_encodable()
            && self.is_true_invalid_fraud_proof.is_encodable()
            && self.proof_data.is_encodable()
    }

    fn encode_to(&self, out: &mut Vec<u8>) {
        self.bad_receipt_hash.encode_to(out);
        self.domain_id.encode_to(out);
        self.bundle_index.encode_to(out);
        self.mismatched_extrinsic_index.encode_to(out);
        self.extrinsic_inclusion_proof.encode_to(out);
        self.is_true_invalid_fraud_proof.encode_to(out);
        self.proof_data.encode_to(out);
        assert(out@ =~= old(out)@ + self.encoding());
    }
}

} // verus!
