//! Digests of the extrinsics of a bundle.

use vstd::prelude::*;

use crate::hashing::{Hashing, TrieLayout};
use crate::primitives::H256;
use crate::scale::{encode_list_to, is_list_encodable, Encode};
#[allow(unused_imports)]
use crate::scale::{
    lemma_first_part, lemma_list_prefix_free, lemma_list_same_encoding, list_encodable,
    list_encoding, list_same,
};

verus! {

/// Represents the extrinsic either as full data or hash of the data.
#[derive(Clone, Debug, Eq, PartialEq)]
pub enum ExtrinsicDigest {
    /// Actual extrinsic data that is inlined since it is less than 33 bytes.
    Data(Vec<u8>),
    /// Extrinsic Hash.
    Hash(H256),
}

/// Whether a value of the trie is stored outside of its node, which holds its hash.
pub open spec fn is_hashed<Layout: TrieLayout>(value: Seq<u8>) -> bool {
    match Layout::inline_limit() {
        Some(limit) => value.len() >= limit,
        None => false,
    }
}

impl ExtrinsicDigest {
    /// Whether this is the digest of an extrinsic for tries of the given layout: the extrinsic
    /// itself where such a trie stores it in its node, and its hash where not.
    pub open spec fn is_digest_of<Layout: TrieLayout>(self, ext: Seq<u8>) -> bool {
        match self {
            ExtrinsicDigest::Data(data) => !is_hashed::<Layout>(ext) && data@ == ext,
            ExtrinsicDigest::Hash(hash) => is_hashed::<Layout>(ext) && hash@
                == Layout::Hash::digest(ext),
        }
    }

    /// Returns the digest of an extrinsic for tries of the given layout.
    pub fn new<Layout: TrieLayout>(ext: Vec<u8>) -> (digest: Self)
        ensures
            digest.is_digest_of::<Layout>(ext@),
            digest is Hash <==> Layout::inline_limit() is Some && ext@.len()
                >= Layout::inline_limit()->Some_0,
            digest matches ExtrinsicDigest::Data(data) ==> data@ == ext@,
            digest matches ExtrinsicDigest::Hash(hash) ==> hash.0@ == Layout::Hash::digest(ext@),
    {
        if let Some(threshold) = Layout::max_inline_value() {
            if ext.len() >= threshold as usize {
                ExtrinsicDigest::Hash(Layout::Hash::hash(&ext))
            } else {
                ExtrinsicDigest::Data(ext)
            }
        } else {
            ExtrinsicDigest::Data(ext)
        }
    }
}

impl Encode for ExtrinsicDigest {
    open spec fn encodable(&self) -> bool {
        match self {
            ExtrinsicDigest::Data(data) => data.encodable(),
            ExtrinsicDigest::Hash(hash) => true,
        }
    }

    open spec fn encoding(&self) -> Seq<u8> {
        match self {
            ExtrinsicDigest::Data(data) => seq![0u8] + data.encoding(),
            ExtrinsicDigest::Hash(hash) => seq![1u8] + hash.encoding(),
        }
    }

    open spec fn same(&self, other: &Self) -> bool {
        match (self, other) {
            (ExtrinsicDigest::Data(a), ExtrinsicDigest::Data(b)) => a.same(b),
            (ExtrinsicDigest::Hash(a), ExtrinsicDigest::Hash(b)) => a.same(b),
            _ => false,
        }
    }

    proof fn lemma_prefix_free(a: &Self, b: &Self, s: Seq<u8>, t: Seq<u8>) {
        let left = a.encoding() + s;
        let right = b.encoding() + t;
        assert(left[0] == if a is Data { 0u8 } else { 1u8 });
        assert(right[0] == if b is Data { 0u8 } else { 1u8 });
        match (a, b) {
            (ExtrinsicDigest::Data(x), ExtrinsicDigest::Data(y)) => {
                assert(left.skip(1) =~= x.encoding() + s);
                assert(right.skip(1) =~= y.encoding() + t);
                Encode::lemma_prefix_free(x, y, s, t);
            },
            (ExtrinsicDigest::Hash(x), ExtrinsicDigest::Hash(y)) => {
                assert(left.skip(1) =~= x.encoding() + s);
                assert(right.skip(1) =~= y.encoding() + t);
                Encode::lemma_prefix_free(x, y, s, t);
            },
            _ => {},
        }
    }

    proof fn lemma_same_encoding(a: &Self, b: &Self) {
    }

    fn is_encodable(&self) -> (fits: bool) {
        match self {
            ExtrinsicDigest::Data(data) => data.is_encodable(),
            ExtrinsicDigest::Hash(_) => true,
        }
    }

    fn encode_to(&self, out: &mut Vec<u8>) {
        match self {
            ExtrinsicDigest::Data(data) => {
                out.push(0u8);
                data.encode_to(out);
            },
            ExtrinsicDigest::Hash(hash) => {
                out.push(1u8);
                hash.encode_to(out);
            },
        }
        assert(out@ =~= old(out)@ + self.encoding());
    }
}

/// Represents a valid bundle index and all the extrinsics within that bundle.
#[derive(Clone, Debug, Eq, PartialEq)]
pub struct ValidBundleDigest {
    /// Index of this bundle in the original list of bundles in the consensus block.
    pub bundle_index: u32,
    /// `Vec<(tx_signer, tx_hash)>` of all extrinsics
    pub bundle_digest: Vec<(Option<Vec<u8>>, ExtrinsicDigest)>,
}

impl Encode for Vec<(Option<Vec<u8>>, ExtrinsicDigest)> {
    open spec fn encodable(&self) -> bool {
        list_encodable(self@)
    }

    open spec fn encoding(&self) -> Seq<u8> {
        list_encoding(self@)
    }

    open spec fn same(&self, other: &Self) -> bool {
        list_same(self@, other@)
    }

    proof fn lemma_prefix_free(a: &Self, b: &Self, s: Seq<u8>, t: Seq<u8>) {
        lemma_list_prefix_free(a@, b@, s, t);
    }

    proof fn lemma_same_encoding(a: &Self, b: &Self) {
        lemma_list_same_encoding(a@, b@);
    }

    fn is_encodable(&self) -> (fits: bool) {
        is_list_encodable(self)
    }

    fn encode_to(&self, out: &mut Vec<u8>) {
        encode_list_to(self, out);
    }
}

impl Encode for ValidBundleDigest {
    open spec fn encodable(&self) -> bool {
        &&& self.bundle_index.encodable()
        &&& self.bundle_digest.encodable()
    }

    open spec fn encoding(&self) -> Seq<u8> {
        self.bundle_index.encoding() + self.bundle_digest.encoding()
    }

    open spec fn same(&self, other: &Self) -> bool {
        &&& self.bundle_index.same(&other.bundle_index)
        &&& self.bundle_digest.same(&other.bundle_digest)
    }

    proof fn lemma_prefix_free(a: &Self, b: &Self, s: Seq<u8>, t: Seq<u8>) {
        let a1 = a.bundle_digest.encoding();
        let b1 = b.bundle_digest.encoding();
        lemma_first_part(&a.bundle_index, &b.bundle_index, a1, b1, s, t);
        Encode::lemma_prefix_free(&a.bundle_digest, &b.bundle_digest, s, t);
    }

    proof fn lemma_same_encoding(a: &Self, b: &Self) {
        Encode::lemma_same_encoding(&a.bundle_index, &b.bundle_index);
        Encode::lemma_same_encoding(&a.bundle_digest, &b.bundle_digest);
    }

    fn is_encodable(&self) -> (fits: bool) {
        self.bundle_index.is_encodable()
            && self.bundle_digest.is_encodable()
    }

    fn encode_to(&self, out: &mut Vec<u8>) {
        self.bundle_index.encode_to(out);
        self.bundle_digest.encode_to(out);
        assert(out@ =~= old(out)@ + self.encoding());
    }
}

impl Encode for Vec<ValidBundleDigest> {
    open spec fn encodable(&self) -> bool {
        list_encodable(self@)
    }

    open spec fn encoding(&self) -> Seq<u8> {
        list_encoding(self@)
    }

    open spec fn same(&self, other: &Self) -> bool {
        list_same(self@, other@)
    }

    proof fn lemma_prefix_free(a: &Self, b: &Self, s: Seq<u8>, t: Seq<u8>) {
        lemma_list_prefix_free(a@, b@, s, t);
    }

    proof fn lemma_same_encoding(a: &Self, b: &Self) {
        lemma_list_same_encoding(a@, b@);
    }

    fn is_encodable(&self) -> (fits: bool) {
        is_list_encodable(self)
    }

    fn encode_to(&self, out: &mut Vec<u8>) {
        encode_list_to(self, out);
    }
}

} // verus!
