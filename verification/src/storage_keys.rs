//! Keys of the storage items that fraud proofs read.

use vstd::prelude::*;

verus! {

/// The result of `sp_io::hashing::twox_128` on the given bytes, on which
/// `frame_support::storage::storage_prefix` rests.
pub uninterp spec fn twox_128(data: Seq<u8>) -> Seq<u8>;

/// The key of a storage item: the hash of the name of its pallet, then that of its own name.
pub open spec fn item_key(pallet: Seq<u8>, item: Seq<u8>) -> Seq<u8> {
    twox_128(pallet) + twox_128(item)
}

/// Calls `frame_support::storage::storage_prefix`.
///
/// Claimed of it: the first half of the result is the `twox_128` hash of the name of the pallet, and
/// the second half that of the name of the storage item. Each of the halves has 16 bytes.
#[verifier::external_body]
fn storage_prefix(pallet_name: &[u8], storage_name: &[u8]) -> (key: Vec<u8>)
    ensures
        key@ == item_key(pallet_name@, storage_name@),
        key@.len() == 32,
        key@.take(16) == twox_128(pallet_name@),
        key@.skip(16) == twox_128(storage_name@),
{
    frame_support::storage::storage_prefix(pallet_name, storage_name).to_vec()
}

/// This is a representation of actual Block Rewards storage in pallet-operator-rewards.
/// Any change in key or value there should be changed here accordingly.
pub fn operator_block_rewards_final_key() -> (key: Vec<u8>)
    ensures
        key@ == item_key(vstd::utf8::encode_utf8("OperatorRewards"@), vstd::utf8::encode_utf8("BlockRewards"@)),
        key@.len() == 32,
        key@.take(16) == twox_128(vstd::utf8::encode_utf8("OperatorRewards"@)),
        key@.skip(16) == twox_128(vstd::utf8::encode_utf8("BlockRewards"@)),
{
    storage_prefix("OperatorRewards".as_bytes(), "BlockRewards".as_bytes())
}

/// Digest storage key in frame_system.
/// Unfortunately, the digest storage is private and not possible to derive the key from it directly.
pub fn system_digest_final_key() -> (key: Vec<u8>)
    ensures
        key@ == item_key(vstd::utf8::encode_utf8("System"@), vstd::utf8::encode_utf8("Digest"@)),
        key@.len() == 32,
        key@.take(16) == twox_128(vstd::utf8::encode_utf8("System"@)),
        key@.skip(16) == twox_128(vstd::utf8::encode_utf8("Digest"@)),
{
    storage_prefix("System".as_bytes(), "Digest".as_bytes())
}

} // verus!
