use sp_domains_fraud_proof::extrinsic_digest::ExtrinsicDigest;
use sp_domains_fraud_proof::hashing::{BlakeTwo256, Hashing, Keccak256, LayoutV0, LayoutV1};
use sp_domains_fraud_proof::primitives::H256;

const BLAKE_OF_NOTHING: [u8; 32] = [
    0x0e, 0x57, 0x51, 0xc0, 0x26, 0xe5, 0x43, 0xb2, 0xe8, 0xab, 0x2e, 0xb0, 0x60, 0x99, 0xda, 0xa1,
    0xd1, 0xe5, 0xdf, 0x47, 0x77, 0x8f, 0x77, 0x87, 0xfa, 0xab, 0x45, 0xcd, 0xf1, 0x2f, 0xe3, 0xa8,
];

const KECCAK_OF_NOTHING: [u8; 32] = [
    0xc5, 0xd2, 0x46, 0x01, 0x86, 0xf7, 0x23, 0x3c, 0x92, 0x7e, 0x7d, 0xb2, 0xdc, 0xc7, 0x03, 0xc0,
    0xe5, 0x00, 0xb6, 0x53, 0xca, 0x82, 0x27, 0x3b, 0x7b, 0xfa, 0xd8, 0x04, 0x5d, 0x85, 0xa4, 0x70,
];

#[test]
fn hashes_of_nothing_are_known() {
    assert_eq!(BlakeTwo256::hash(&vec![]), H256(BLAKE_OF_NOTHING));
    assert_eq!(Keccak256::hash(&vec![]), H256(KECCAK_OF_NOTHING));
}

#[test]
fn extrinsic_of_less_than_33_bytes_is_inlined() {
    for len in [0usize, 1, 32] {
        let ext = vec![7u8; len];
        assert_eq!(
            ExtrinsicDigest::new::<LayoutV1<BlakeTwo256>>(ext.clone()),
            ExtrinsicDigest::Data(ext)
        );
    }
}

#[test]
fn extrinsic_of_33_bytes_is_hashed() {
    for len in [33usize, 34, 1000] {
        let ext = vec![7u8; len];
        assert_eq!(
            ExtrinsicDigest::new::<LayoutV1<BlakeTwo256>>(ext.clone()),
            ExtrinsicDigest::Hash(BlakeTwo256::hash(&ext))
        );
        assert_eq!(
            ExtrinsicDigest::new::<LayoutV1<Keccak256>>(ext.clone()),
            ExtrinsicDigest::Hash(Keccak256::hash(&ext))
        );
    }
}

#[test]
fn layout_without_limit_inlines_every_extrinsic() {
    for len in [0usize, 33, 1000] {
        let ext = vec![7u8; len];
        assert_eq!(
            ExtrinsicDigest::new::<LayoutV0<BlakeTwo256>>(ext.clone()),
            ExtrinsicDigest::Data(ext)
        );
    }
}

#[test]
fn different_extrinsics_have_different_digests() {
    let digest = |ext: Vec<u8>| ExtrinsicDigest::new::<LayoutV1<BlakeTwo256>>(ext);
    assert_ne!(digest(vec![1]), digest(vec![2]));
    assert_ne!(digest(vec![1; 40]), digest(vec![2; 40]));
    assert_ne!(digest(vec![1; 32]), digest(vec![1; 33]));
}
