use frame_support::StorageHasher;
use sp_domains_fraud_proof::storage_keys::{
    operator_block_rewards_final_key, system_digest_final_key,
};

#[test]
fn system_digest_key_has_its_known_bytes() {
    let expected: Vec<u8> = vec![
        0x26, 0xaa, 0x39, 0x4e, 0xea, 0x56, 0x30, 0xe0, 0x7c, 0x48, 0xae, 0x0c, 0x95, 0x58, 0xce,
        0xf7, 0x99, 0xe7, 0xf9, 0x3f, 0xc6, 0xa9, 0x8f, 0x08, 0x74, 0xfd, 0x05, 0x7f, 0x11, 0x1c,
        0x4d, 0x2d,
    ];
    assert_eq!(system_digest_final_key(), expected);
}

#[test]
fn block_rewards_key_joins_the_hashes_of_both_names() {
    let mut expected: Vec<u8> = frame_support::Twox128::hash(b"OperatorRewards").to_vec();
    expected.extend_from_slice(&frame_support::Twox128::hash(b"BlockRewards"));
    let key = operator_block_rewards_final_key();
    assert_eq!(key.len(), 32);
    assert_eq!(key, expected);
    assert_ne!(key, system_digest_final_key());
}
