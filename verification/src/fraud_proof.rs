//! Fraud proofs: what is sent to the consensus chain to reject a bad receipt.

use vstd::prelude::*;

use crate::hashing::Hashing;
use crate::primitives::{DomainId, H256};
use crate::proofs::{
    BundleEquivocationProof, ImproperTransactionSortitionProof, InvalidBundlesFraudProof,
    InvalidDomainBlockHashProof, InvalidExtrinsicsRootProof, InvalidStateTransitionProof,
    InvalidTotalRewardsProof, InvalidTransactionProof, ValidBundleProof,
};
use crate::scale::Encode;
#[allow(unused_imports)]
use crate::scale::lemma_first_part;

verus! {

/// Fraud proof.
///
/// `ReceiptHash` is the hash type of the domain chain, and `BundleHeader` the type of the sealed
/// headers of its bundles.
///
/// The kinds are numbered in the order in which they stand here, with `Dummy` among them, as in builds
/// with `std` or `runtime-benchmarks`. A build that leaves `Dummy` out numbers `InvalidBundles` one
/// lower, so the two kinds of build encode and hash proofs of that kind differently.
#[derive(Debug, PartialEq, Eq, Clone)]
pub enum FraudProof<ReceiptHash, BundleHeader> {
    /// A state root of the execution trace is wrong.
    InvalidStateTransition(InvalidStateTransitionProof<ReceiptHash>),
    /// The block holds an invalid transaction.
    InvalidTransaction(InvalidTransactionProof<ReceiptHash>),
    /// Two bundles were produced in one slot.
    BundleEquivocation(BundleEquivocationProof<BundleHeader>),
    /// A transaction was assigned to the wrong bundle.
    ImproperTransactionSortition(ImproperTransactionSortitionProof<ReceiptHash>),
    /// The total rewards of the block are wrong.
    InvalidTotalRewards(InvalidTotalRewardsProof<ReceiptHash>),
    /// The extrinsics root of the block is wrong.
    InvalidExtrinsicsRoot(InvalidExtrinsicsRootProof<ReceiptHash>),
    /// The entry of a valid bundle is wrong.
    ValidBundle(ValidBundleProof<ReceiptHash>),
    /// The hash of the block is wrong.
    InvalidDomainBlockHash(InvalidDomainBlockHashProof<ReceiptHash>),
    /// Dummy fraud proof only used in test and benchmark.
    Dummy {
        /// Id of the domain this fraud proof targeted
        domain_id: DomainId,
        /// Hash of the bad receipt this fraud proof targeted
        bad_receipt_hash: ReceiptHash,
    },
    /// The entry of an invalid bundle is wrong.
    InvalidBundles(InvalidBundlesFraudProof<ReceiptHash>),
}

impl<ReceiptHash, BundleHeader> FraudProof<ReceiptHash, BundleHeader> {
    /// The domain that the fraud proof targets.
    pub open spec fn target_domain(self) -> DomainId {
        match self {
            FraudProof::InvalidStateTransition(proof) => proof.domain_id,
            FraudProof::InvalidTransaction(proof) => proof.domain_id,
            FraudProof::BundleEquivocation(proof) => proof.domain_id,
            FraudProof::ImproperTransactionSortition(proof) => proof.domain_id,
            FraudProof::InvalidTotalRewards(proof) => proof.domain_id,
            FraudProof::InvalidExtrinsicsRoot(proof) => proof.domain_id,
            FraudProof::ValidBundle(proof) => proof.domain_id,
            FraudProof::InvalidDomainBlockHash(proof) => proof.domain_id,
            FraudProof::Dummy { domain_id, .. } => domain_id,
            FraudProof::InvalidBundles(proof) => proof.domain_id,
        }
    }

    /// The hash of the receipt that the fraud proof targets. A bundle equivocation targets bundles,
    /// and no receipt.
    pub open spec fn target_receipt(self) -> Option<ReceiptHash> {
        match self {
            FraudProof::InvalidStateTransition(proof) => Some(proof.bad_receipt_hash),
            FraudProof::InvalidTransaction(proof) => Some(proof.bad_receipt_hash),
            FraudProof::BundleEquivocation(_) => None,
            FraudProof::ImproperTransactionSortition(proof) => Some(proof.bad_receipt_hash),
            FraudProof::InvalidTotalRewards(proof) => Some(proof.bad_receipt_hash),
            FraudProof::InvalidExtrinsicsRoot(proof) => Some(proof.bad_receipt_hash),
            FraudProof::ValidBundle(proof) => Some(proof.bad_receipt_hash),
            FraudProof::InvalidDomainBlockHash(proof) => Some(proof.bad_receipt_hash),
            FraudProof::Dummy { bad_receipt_hash, .. } => Some(bad_receipt_hash),
            FraudProof::InvalidBundles(proof) => Some(proof.bad_receipt_hash),
        }
    }
}

impl<ReceiptHash: Copy + Default, BundleHeader> FraudProof<ReceiptHash, BundleHeader> {
    /// Returns the id of the domain this fraud proof targeted.
    pub fn domain_id(&self) -> (id: DomainId)
        ensures
            id == self.target_domain(),
            *self matches FraudProof::InvalidStateTransition(proof) ==> id == proof.domain_id,
            *self matches FraudProof::InvalidTransaction(proof) ==> id == proof.domain_id,
            *self matches FraudProof::BundleEquivocation(proof) ==> id == proof.domain_id,
            *self matches FraudProof::ImproperTransactionSortition(proof) ==> id == proof.domain_id,
            *self matches FraudProof::InvalidTotalRewards(proof) ==> id == proof.domain_id,
            *self matches FraudProof::InvalidExtrinsicsRoot(proof) ==> id == proof.domain_id,
            *self matches FraudProof::ValidBundle(proof) ==> id == proof.domain_id,
            *self matches FraudProof::InvalidDomainBlockHash(proof) ==> id == proof.domain_id,
            *self matches FraudProof::InvalidBundles(proof) ==> id == proof.domain_id,
            *self matches FraudProof::Dummy { domain_id, .. } ==> id == domain_id,
    {
        match self {
            FraudProof::InvalidStateTransition(proof) => proof.domain_id,
            FraudProof::InvalidTransaction(proof) => proof.domain_id,
            FraudProof::BundleEquivocation(proof) => proof.domain_id,
            FraudProof::ImproperTransactionSortition(proof) => proof.domain_id,
            FraudProof::InvalidTotalRewards(proof) => proof.domain_id(),
            FraudProof::InvalidExtrinsicsRoot(proof) => proof.domain_id,
            FraudProof::ValidBundle(proof) => proof.domain_id,
            FraudProof::InvalidDomainBlockHash(proof) => proof.domain_id,
            FraudProof::Dummy { domain_id, .. } => *domain_id,
            FraudProof::InvalidBundles(proof) => proof.domain_id,
        }
    }

    /// Returns the hash of the bad receipt this fraud proof targeted, or the default hash if it
    /// targeted none.
    pub fn bad_receipt_hash(&self) -> (hash: ReceiptHash)
        ensures
            match self.target_receipt() {
                Some(target) => hash == target,
                None => call_ensures(ReceiptHash::default, (), hash),
            },
            *self matches FraudProof::InvalidStateTransition(proof)
                ==> hash == proof.bad_receipt_hash,
            *self matches FraudProof::InvalidTransaction(proof) ==> hash == proof.bad_receipt_hash,
            *self matches FraudProof::ImproperTransactionSortition(proof)
                ==> hash == proof.bad_receipt_hash,
            *self matches FraudProof::InvalidTotalRewards(proof) ==> hash == proof.bad_receipt_hash,
            *self matches FraudProof::InvalidExtrinsicsRoot(proof)
                ==> hash == proof.bad_receipt_hash,
            *self matches FraudProof::ValidBundle(proof) ==> hash == proof.bad_receipt_hash,
            *self matches FraudProof::InvalidDomainBlockHash(proof)
                ==> hash == proof.bad_receipt_hash,
            *self matches FraudProof::InvalidBundles(proof) ==> hash == proof.bad_receipt_hash,
            *self matches FraudProof::Dummy { bad_receipt_hash, .. } ==> hash == bad_receipt_hash,
            *self is BundleEquivocation ==> call_ensures(ReceiptHash::default, (), hash),
    {
        match self {
            FraudProof::InvalidStateTransition(proof) => proof.bad_receipt_hash,
            FraudProof::InvalidTransaction(proof) => proof.bad_receipt_hash,
            FraudProof::BundleEquivocation(_) => ReceiptHash::default(),
            FraudProof::ImproperTransactionSortition(proof) => proof.bad_receipt_hash,
            FraudProof::InvalidTotalRewards(proof) => proof.bad_receipt_hash(),
            FraudProof::InvalidExtrinsicsRoot(proof) => proof.bad_receipt_hash,
            FraudProof::ValidBundle(proof) => proof.bad_receipt_hash,
            FraudProof::InvalidDomainBlockHash(proof) => proof.bad_receipt_hash,
            FraudProof::Dummy { bad_receipt_hash, .. } => *bad_receipt_hash,
            FraudProof::InvalidBundles(proof) => proof.bad_receipt_hash,
        }
    }

    /// Returns a fraud proof that targets the given domain and receipt, and proves nothing.
    pub fn dummy_fraud_proof(domain_id: DomainId, bad_receipt_hash: ReceiptHash) -> (proof: Self)
        ensures
            proof == (FraudProof::<ReceiptHash, BundleHeader>::Dummy { domain_id, bad_receipt_hash }),
    {
        FraudProof::Dummy { domain_id, bad_receipt_hash }
    }
}

impl<ReceiptHash: Encode, BundleHeader: Encode> FraudProof<ReceiptHash, BundleHeader> {
    /// Returns the hash of the fraud proof, for the hash function `H` of the domain chain.
    pub fn hash<H: Hashing>(&self) -> (hash: H256)
        requires
            self.encodable(),
        ensures
            hash@ == H::digest(self.encoding()),
    {
        H::hash(&self.encode())
    }

    /// The byte that tells the kind of the fraud proof in its encoding, where `Dummy` is numbered
    /// too.
    pub open spec fn kind(self) -> u8 {
        match self {
            FraudProof::InvalidStateTransition(_) => 0,
            FraudProof::InvalidTransaction(_) => 1,
            FraudProof::BundleEquivocation(_) => 2,
            FraudProof::ImproperTransactionSortition(_) => 3,
            FraudProof::InvalidTotalRewards(_) => 4,
            FraudProof::InvalidExtrinsicsRoot(_) => 5,
            FraudProof::ValidBundle(_) => 6,
            FraudProof::InvalidDomainBlockHash(_) => 7,
            FraudProof::Dummy { .. } => 8,
            FraudProof::InvalidBundles(_) => 9,
        }
    }

    /// The encoding of what the fraud proof holds.
    pub open spec fn body(self) -> Seq<u8> {
        match self {
            FraudProof::InvalidStateTransition(proof) => proof.encoding(),
            FraudProof::InvalidTransaction(proof) => proof.encoding(),
            FraudProof::BundleEquivocation(proof) => proof.encoding(),
            FraudProof::ImproperTransactionSortition(proof) => proof.encoding(),
            FraudProof::InvalidTotalRewards(proof) => proof.encoding(),
            FraudProof::InvalidExtrinsicsRoot(proof) => proof.encoding(),
            FraudProof::ValidBundle(proof) => proof.encoding(),
            FraudProof::InvalidDomainBlockHash(proof) => proof.encoding(),
            FraudProof::Dummy { domain_id, bad_receipt_hash } => domain_id.encoding()
                + bad_receipt_hash.encoding(),
            FraudProof::InvalidBundles(proof) => proof.encoding(),
        }
    }
}

impl<ReceiptHash: Encode, BundleHeader: Encode> Encode for FraudProof<ReceiptHash, BundleHeader> {
    open spec fn encodable(&self) -> bool {
        match self {
            FraudProof::InvalidStateTransition(proof) => proof.encodable(),
            FraudProof::InvalidTransaction(proof) => proof.encodable(),
            FraudProof::BundleEquivocation(proof) => proof.encodable(),
            FraudProof::ImproperTransactionSortition(proof) => proof.encodable(),
            FraudProof::InvalidTotalRewards(proof) => proof.encodable(),
            FraudProof::InvalidExtrinsicsRoot(proof) => proof.encodable(),
            FraudProof::ValidBundle(proof) => proof.encodable(),
            FraudProof::InvalidDomainBlockHash(proof) => proof.encodable(),
            FraudProof::Dummy { domain_id, bad_receipt_hash } => bad_receipt_hash.encodable(),
            FraudProof::InvalidBundles(proof) => proof.encodable(),
        }
    }

    open spec fn encoding(&self) -> Seq<u8> {
        seq![self.kind()] + self.body()
    }

    open spec fn same(&self, other: &Self) -> bool {
        match (self, other) {
            (FraudProof::InvalidStateTransition(a), FraudProof::InvalidStateTransition(b)) => a.same(b),
            (FraudProof::InvalidTransaction(a), FraudProof::InvalidTransaction(b)) => a.same(b),
            (FraudProof::BundleEquivocation(a), FraudProof::BundleEquivocation(b)) => a.same(b),
            (FraudProof::ImproperTransactionSortition(a), FraudProof::ImproperTransactionSortition(b)) => a.same(b),
            (FraudProof::InvalidTotalRewards(a), FraudProof::InvalidTotalRewards(b)) => a.same(b),
            (FraudProof::InvalidExtrinsicsRoot(a), FraudProof::InvalidExtrinsicsRoot(b)) => a.same(b),
            (FraudProof::ValidBundle(a), FraudProof::ValidBundle(b)) => a.same(b),
            (FraudProof::InvalidDomainBlockHash(a), FraudProof::InvalidDomainBlockHash(b)) => a.same(b),
            (
                FraudProof::Dummy { domain_id: d, bad_receipt_hash: h },
                FraudProof::Dummy { domain_id: e, bad_receipt_hash: k },
            ) => d.same(e) && h.same(k),
            (FraudProof::InvalidBundles(a), FraudProof::InvalidBundles(b)) => a.same(b),
            _ => false,
        }
    }

    proof fn lemma_prefix_free(a: &Self, b: &Self, s: Seq<u8>, t: Seq<u8>) {
        let left = a.encoding() + s;
        let right = b.encoding() + t;
        assert(left[0] == a.kind());
        assert(right[0] == b.kind());
        assert(left.skip(1) =~= a.body() + s);
        assert(right.skip(1) =~= b.body() + t);
        match (a, b) {
            (FraudProof::InvalidStateTransition(x), FraudProof::InvalidStateTransition(y)) => {
                Encode::lemma_prefix_free(x, y, s, t);
            },
            (FraudProof::InvalidTransaction(x), FraudProof::InvalidTransaction(y)) => {
                Encode::lemma_prefix_free(x, y, s, t);
            },
            (FraudProof::BundleEquivocation(x), FraudProof::BundleEquivocation(y)) => {
                Encode::lemma_prefix_free(x, y, s, t);
            },
            (FraudProof::ImproperTransactionSortition(x), FraudProof::ImproperTransactionSortition(y)) => {
                Encode::lemma_prefix_free(x, y, s, t);
            },
            (FraudProof::InvalidTotalRewards(x), FraudProof::InvalidTotalRewards(y)) => {
                Encode::lemma_prefix_free(x, y, s, t);
            },
            (FraudProof::InvalidExtrinsicsRoot(x), FraudProof::InvalidExtrinsicsRoot(y)) => {
                Encode::lemma_prefix_free(x, y, s, t);
            },
            (FraudProof::ValidBundle(x), FraudProof::ValidBundle(y)) => {
                Encode::lemma_prefix_free(x, y, s, t);
            },
            (FraudProof::InvalidDomainBlockHash(x), FraudProof::InvalidDomainBlockHash(y)) => {
                Encode::lemma_prefix_free(x, y, s, t);
            },
            (
                FraudProof::Dummy { domain_id: d, bad_receipt_hash: h },
                FraudProof::Dummy { domain_id: e, bad_receipt_hash: k },
            ) => {
                lemma_first_part(d, e, h.encoding(), k.encoding(), s, t);
                Encode::lemma_prefix_free(h, k, s, t);
            },
            (FraudProof::InvalidBundles(x), FraudProof::InvalidBundles(y)) => {
                Encode::lemma_prefix_free(x, y, s, t);
            },
            _ => {},
        }
    }

    proof fn lemma_same_encoding(a: &Self, b: &Self) {
        match (a, b) {
            (FraudProof::InvalidStateTransition(x), FraudProof::InvalidStateTransition(y)) => {
                Encode::lemma_same_encoding(x, y);
            },
            (FraudProof::InvalidTransaction(x), FraudProof::InvalidTransaction(y)) => {
                Encode::lemma_same_encoding(x, y);
            },
            (FraudProof::BundleEquivocation(x), FraudProof::BundleEquivocation(y)) => {
                Encode::lemma_same_encoding(x, y);
            },
            (FraudProof::ImproperTransactionSortition(x), FraudProof::ImproperTransactionSortition(y)) => {
                Encode::lemma_same_encoding(x, y);
            },
            (FraudProof::InvalidTotalRewards(x), FraudProof::InvalidTotalRewards(y)) => {
                Encode::lemma_same_encoding(x, y);
            },
            (FraudProof::InvalidExtrinsicsRoot(x), FraudProof::InvalidExtrinsicsRoot(y)) => {
                Encode::lemma_same_encoding(x, y);
            },
            (FraudProof::ValidBundle(x), FraudProof::ValidBundle(y)) => {
                Encode::lemma_same_encoding(x, y);
            },
            (FraudProof::InvalidDomainBlockHash(x), FraudProof::InvalidDomainBlockHash(y)) => {
                Encode::lemma_same_encoding(x, y);
            },
            (
                FraudProof::Dummy { domain_id: d, bad_receipt_hash: h },
                FraudProof::Dummy { domain_id: e, bad_receipt_hash: k },
            ) => {
                Encode::lemma_same_encoding(h, k);
            },
            (FraudProof::InvalidBundles(x), FraudProof::InvalidBundles(y)) => {
                Encode::lemma_same_encoding(x, y);
            },
            _ => {},
        }
    }

    fn is_encodable(&self) -> (fits: bool) {
        match self {
            FraudProof::InvalidStateTransition(proof) => proof.is_encodable(),
            FraudProof::InvalidTransaction(proof) => proof.is_encodable(),
            FraudProof::BundleEquivocation(proof) => proof.is_encodable(),
            FraudProof::ImproperTransactionSortition(proof) => proof.is_encodable(),
            FraudProof::InvalidTotalRewards(proof) => proof.is_encodable(),
            FraudProof::InvalidExtrinsicsRoot(proof) => proof.is_encodable(),
            FraudProof::ValidBundle(proof) => proof.is_encodable(),
            FraudProof::InvalidDomainBlockHash(proof) => proof.is_encodable(),
            FraudProof::Dummy { bad_receipt_hash, .. } => bad_receipt_hash.is_encodable(),
            FraudProof::InvalidBundles(proof) => proof.is_encodable(),
        }
    }

    fn encode_to(&self, out: &mut Vec<u8>) {
        match self {
            FraudProof::InvalidStateTransition(proof) => {
                out.push(0u8);
                proof.encode_to(out);
            },
            FraudProof::InvalidTransaction(proof) => {
                out.push(1u8);
                proof.encode_to(out);
            },
            FraudProof::BundleEquivocation(proof) => {
                out.push(2u8);
                proof.encode_to(out);
            },
            FraudProof::ImproperTransactionSortition(proof) => {
                out.push(3u8);
                proof.encode_to(out);
            },
            FraudProof::InvalidTotalRewards(proof) => {
                out.push(4u8);
                proof.encode_to(out);
            },
            FraudProof::InvalidExtrinsicsRoot(proof) => {
                out.push(5u8);
                proof.encode_to(out);
            },
            FraudProof::ValidBundle(proof) => {
                out.push(6u8);
                proof.encode_to(out);
            },
            FraudProof::InvalidDomainBlockHash(proof) => {
                out.push(7u8);
                proof.encode_to(out);
            },
            FraudProof::Dummy { domain_id, bad_receipt_hash } => {
                out.push(8u8);
                domain_id.encode_to(out);
                bad_receipt_hash.encode_to(out);
            },
            FraudProof::InvalidBundles(proof) => {
                out.push(9u8);
                proof.encode_to(out);
            },
        }
        assert(out@ =~= old(out)@ + self.encoding());
    }
}

} // verus!
