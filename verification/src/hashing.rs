//! The hash functions of domain chains, and the layouts of the tries that are built with them.

use vstd::prelude::*;

use core::marker::PhantomData;

use crate::primitives::H256;

verus! {

/// The hash function of a chain.
pub trait Hashing: Sized {
    /// The hash of `data`.
    spec fn digest(data: Seq<u8>) -> Seq<u8>;

    /// Returns the hash of `data`.
    fn hash(data: &Vec<u8>) -> (hash: H256)
        ensures
            hash@ == Self::digest(data@),
    ;
}

/// The Blake2 hash function with a result of 256 bits.
#[derive(Debug, Clone, Copy, PartialEq, Eq)]
pub struct BlakeTwo256;

/// The Keccak hash function with a result of 256 bits.
#[derive(Debug, Clone, Copy, PartialEq, Eq)]
pub struct Keccak256;

/// The result of `sp_runtime::traits::BlakeTwo256::hash` on the given bytes.
pub uninterp spec fn blake2_256(data: Seq<u8>) -> Seq<u8>;

/// The result of `sp_runtime::traits::Keccak256::hash` on the given bytes.
pub uninterp spec fn keccak_256(data: Seq<u8>) -> Seq<u8>;

/// Calls `sp_runtime::traits::BlakeTwo256::hash`.
///
/// Claimed of it: the result depends on the bytes of `data` alone.
#[verifier::external_body]
fn hash_blake2_256(data: &Vec<u8>) -> (hash: H256)
    ensures
        hash@ == blake2_256(data@),
{
    H256(<sp_runtime::traits::BlakeTwo256 as sp_runtime::traits::Hash>::hash(data).0)
}

/// Calls `sp_runtime::traits::Keccak256::hash`.
///
/// Claimed of it: the result depends on the bytes of `data` alone.
#[verifier::external_body]
fn hash_keccak_256(data: &Vec<u8>) -> (hash: H256)
    ensures
        hash@ == keccak_256(data@),
{
    H256(<sp_runtime::traits::Keccak256 as sp_runtime::traits::Hash>::hash(data).0)
}

impl Hashing for BlakeTwo256 {
    open spec fn digest(data: Seq<u8>) -> Seq<u8> {
        blake2_256(data)
    }

    fn hash(data: &Vec<u8>) -> (hash: H256)
        ensures
            hash.0@ == blake2_256(data@),
    {
        hash_blake2_256(data)
    }
}

impl Hashing for Keccak256 {
    open spec fn digest(data: Seq<u8>) -> Seq<u8> {
        keccak_256(data)
    }

    fn hash(data: &Vec<u8>) -> (hash: H256)
        ensures
            hash.0@ == keccak_256(data@),
    {
        hash_keccak_256(data)
    }
}

/// How a trie stores its values.
pub trait TrieLayout: Sized {
    /// The hash function of the trie.
    type Hash: Hashing;

    /// The length from which on a value is stored outside of its node, if there is one.
    spec fn inline_limit() -> Option<u32>;

    /// Returns the length from which on a value is stored outside of its node, if there is one.
    fn max_inline_value() -> (limit: Option<u32>)
        ensures
            limit == Self::inline_limit(),
    ;
}

/// The layout that stores every value in its node.
pub struct LayoutV0<H> {
    hash: PhantomData<H>,
}

/// The layout that stores a value of at least 33 bytes outside of its node.
pub struct LayoutV1<H> {
    hash: PhantomData<H>,
}

/// Reads `trie_db::TrieLayout::MAX_INLINE_VALUE` of `sp_trie::LayoutV0`. The hash function of the
/// layout plays no part in it.
///
/// Claimed of it: there is no limit.
#[verifier::external_body]
fn layout_v0_max_inline_value() -> (limit: Option<u32>)
    ensures
        limit == None::<u32>,
{
    <sp_trie::LayoutV0<sp_runtime::traits::BlakeTwo256> as trie_db::TrieLayout>::MAX_INLINE_VALUE
}

/// Reads `trie_db::TrieLayout::MAX_INLINE_VALUE` of `sp_trie::LayoutV1`. The hash function of the
/// layout plays no part in it.
///
/// Claimed of it: the limit is 33 bytes.
#[verifier::external_body]
fn layout_v1_max_inline_value() -> (limit: Option<u32>)
    ensures
        limit == Some(33u32),
{
    <sp_trie::LayoutV1<sp_runtime::traits::BlakeTwo256> as trie_db::TrieLayout>::MAX_INLINE_VALUE
}

impl<H: Hashing> TrieLayout for LayoutV0<H> {
    type Hash = H;

    open spec fn inline_limit() -> Option<u32> {
        None
    }

    fn max_inline_value() -> (limit: Option<u32>)
        ensures
            limit is None,
    {
        layout_v0_max_inline_value()
    }
}

impl<H: Hashing> TrieLayout for LayoutV1<H> {
    type Hash = H;

    open spec fn inline_limit() -> Option<u32> {
        Some(33)
    }

    fn max_inline_value() -> (limit: Option<u32>)
        ensures
            limit == Some(33u32),
    {
        layout_v1_max_inline_value()
    }
}

} // verus!
