//! The identifiers and hashes that fraud proofs refer to.

use vstd::prelude::*;

use crate::scale::Encode;
#[allow(unused_imports)]
use crate::scale::lemma_concat_prefix_free;

verus! {

/// A hash of 256 bits.
#[derive(Debug, Clone, Copy, PartialEq, Eq)]
pub struct H256(pub [u8; 32]);

impl View for H256 {
    type V = Seq<u8>;

    open spec fn view(&self) -> Seq<u8> {
        self.0@
    }
}

/// Hashes with the same bytes are equal.
pub proof fn lemma_hash_from_bytes(a: H256, b: H256)
    requires
        a@ == b@,
    ensures
        a == b,
{
    assert forall|i: int| 0 <= i < 32 implies a.0[i] == b.0[i] by {
        assert(a@[i] == b@[i]);
    }
    assert(a.0 =~= b.0);
}

/// The bytes of the hash whose bits are all zero.
pub open spec fn zero_hash() -> Seq<u8> {
    Seq::new(32, |i: int| 0u8)
}

impl Default for H256 {
    /// Returns the hash whose bits are all zero.
    fn default() -> (hash: Self)
        ensures
            hash@ == zero_hash(),
            forall|i: int| 0 <= i < 32 ==> hash.0@[i] == 0,
    {
        let hash = H256([0u8; 32]);
        assert(hash@ =~= zero_hash());
        hash
    }
}

/// The error of `parity_scale_codec::Decode::decode` for a `sp_core::H256` on an input that is too
/// short for a hash.
pub uninterp spec fn hash_error(input: Seq<u8>) -> parity_scale_codec::Error;

/// Calls `parity_scale_codec::Decode::decode` for a `sp_core::H256`. What follows the hash in the
/// input is left unread.
///
/// Claimed of it: it succeeds if and only if the input has at least 32 bytes, and then returns the
/// first 32 of them; otherwise its error depends on the input alone.
#[verifier::external_body]
pub(crate) fn decode_hash(input: &Vec<u8>) -> (decoded: Result<H256, parity_scale_codec::Error>)
    ensures
        match decoded {
            Ok(hash) => input@.len() >= 32 && hash@ == input@.take(32),
            Err(error) => input@.len() < 32 && error == hash_error(input@),
        },
{
    <sp_core::H256 as parity_scale_codec::Decode>::decode(&mut input.as_slice()).map(
        |hash| H256(hash.0),
    )
}

/// The account of a signer on the consensus chain.
#[derive(Debug, Clone, Copy, PartialEq, Eq)]
pub struct AccountId(pub [u8; 32]);

impl View for AccountId {
    type V = Seq<u8>;

    open spec fn view(&self) -> Seq<u8> {
        self.0@
    }
}

/// The identifier of a domain.
#[derive(Debug, Clone, Copy, PartialEq, Eq)]
pub struct DomainId(pub u32);

/// A slot of the consensus chain.
#[derive(Debug, Clone, Copy, PartialEq, Eq)]
pub struct Slot(pub u64);

/// Appends 32 bytes to `out`.
fn append_array(bytes: &[u8; 32], out: &mut Vec<u8>)
    ensures
        final(out)@ == old(out)@ + bytes@,
{
    out.extend_from_slice(bytes.as_slice());
    assert(out@ =~= old(out)@ + bytes@);
}

impl Encode for H256 {
    open spec fn encodable(&self) -> bool {
        true
    }

    open spec fn encoding(&self) -> Seq<u8> {
        self@
    }

    open spec fn same(&self, other: &Self) -> bool {
        *self == *other
    }

    proof fn lemma_prefix_free(a: &Self, b: &Self, s: Seq<u8>, t: Seq<u8>) {
        lemma_concat_prefix_free(a@, b@, s, t);
        lemma_hash_from_bytes(*a, *b);
    }

    proof fn lemma_same_encoding(a: &Self, b: &Self) {
    }

    fn is_encodable(&self) -> (fits: bool) {
        true
    }

    fn encode_to(&self, out: &mut Vec<u8>) {
        append_array(&self.0, out);
    }
}

impl Encode for AccountId {
    open spec fn encodable(&self) -> bool {
        true
    }

    open spec fn encoding(&self) -> Seq<u8> {
        self@
    }

    open spec fn same(&self, other: &Self) -> bool {
        *self == *other
    }

    proof fn lemma_prefix_free(a: &Self, b: &Self, s: Seq<u8>, t: Seq<u8>) {
        lemma_concat_prefix_free(a@, b@, s, t);
        assert forall|i: int| 0 <= i < 32 implies a.0[i] == b.0[i] by {
            assert(a@[i] == b@[i]);
        }
        assert(a.0 =~= b.0);
    }

    proof fn lemma_same_encoding(a: &Self, b: &Self) {
    }

    fn is_encodable(&self) -> (fits: bool) {
        true
    }

    fn encode_to(&self, out: &mut Vec<u8>) {
        append_array(&self.0, out);
    }
}

impl Encode for DomainId {
    open spec fn encodable(&self) -> bool {
        true
    }

    open spec fn encoding(&self) -> Seq<u8> {
        self.0.encoding()
    }

    open spec fn same(&self, other: &Self) -> bool {
        *self == *other
    }

    proof fn lemma_prefix_free(a: &Self, b: &Self, s: Seq<u8>, t: Seq<u8>) {
        u32::lemma_prefix_free(&a.0, &b.0, s, t);
    }

    proof fn lemma_same_encoding(a: &Self, b: &Self) {
    }

    fn is_encodable(&self) -> (fits: bool) {
        true
    }

    fn encode_to(&self, out: &mut Vec<u8>) {
        self.0.encode_to(out);
    }
}

impl Encode for Slot {
    open spec fn encodable(&self) -> bool {
        true
    }

    open spec fn encoding(&self) -> Seq<u8> {
        self.0.encoding()
    }

    open spec fn same(&self, other: &Self) -> bool {
        *self == *other
    }

    proof fn lemma_prefix_free(a: &Self, b: &Self, s: Seq<u8>, t: Seq<u8>) {
        u64::lemma_prefix_free(&a.0, &b.0, s, t);
    }

    proof fn lemma_same_encoding(a: &Self, b: &Self) {
    }

    fn is_encodable(&self) -> (fits: bool) {
        true
    }

    fn encode_to(&self, out: &mut Vec<u8>) {
        self.0.encode_to(out);
    }
}

} // verus!
