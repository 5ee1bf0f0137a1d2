use parity_scale_codec::Encode as ScaleEncode;
use sp_domains_fraud_proof::execution_phase::ExecutionPhase;
use sp_domains_fraud_proof::extrinsic_digest::{ExtrinsicDigest, ValidBundleDigest};
use sp_domains_fraud_proof::fraud_proof::FraudProof;
use sp_domains_fraud_proof::hashing::{BlakeTwo256, Hashing, Keccak256};
use sp_domains_fraud_proof::primitives::{AccountId, DomainId, Slot, H256};
use sp_domains_fraud_proof::proofs::{
    dummy_invalid_state_transition_proof, BundleEquivocationProof,
    ImproperTransactionSortitionProof, InvalidBundlesFraudProof, InvalidDomainBlockHashProof,
    InvalidExtrinsicsRootProof, InvalidStateTransitionProof, InvalidTotalRewardsProof,
    InvalidTransactionProof, ProofDataPerInvalidBundleType, ValidBundleProof,
};
use sp_domains_fraud_proof::scale::Encode;
use sp_trie::StorageProof;

type Proof = FraudProof<H256, u64>;

const RECEIPT: H256 = H256([5u8; 32]);

fn storage_proof() -> StorageProof {
    StorageProof::new([vec![9u8, 8], vec![1u8; 70], vec![]])
}

fn equivocation() -> BundleEquivocationProof<u64> {
    BundleEquivocationProof {
        domain_id: DomainId(3),
        offender: AccountId([6u8; 32]),
        slot: Slot(77),
        first_header: 11,
        second_header: 12,
    }
}

fn invalid_bundles() -> InvalidBundlesFraudProof<H256> {
    InvalidBundlesFraudProof::new(
        RECEIPT,
        DomainId(10),
        4,
        5,
        vec![vec![1, 2], vec![]],
        true,
        ProofDataPerInvalidBundleType::OutOfRangeTx,
    )
}

fn bundle_digests() -> Vec<ValidBundleDigest> {
    vec![
        ValidBundleDigest {
            bundle_index: 2,
            bundle_digest: vec![
                (Some(vec![1, 2, 3]), ExtrinsicDigest::Data(vec![4])),
                (None, ExtrinsicDigest::Hash(H256([8u8; 32]))),
            ],
        },
        ValidBundleDigest { bundle_index: 3, bundle_digest: vec![] },
    ]
}

/// One fraud proof of each kind; the domain of each is one more than its place.
fn all_kinds() -> Vec<Proof> {
    vec![
        FraudProof::InvalidStateTransition(InvalidStateTransitionProof {
            domain_id: DomainId(1),
            bad_receipt_hash: RECEIPT,
            proof: storage_proof(),
            execution_phase: ExecutionPhase::ApplyExtrinsic {
                proof_of_inclusion: StorageProof::empty(),
                mismatch_index: 6,
                extrinsic: vec![3, 2, 1],
            },
        }),
        FraudProof::InvalidTransaction(InvalidTransactionProof {
            domain_id: DomainId(2),
            bad_receipt_hash: RECEIPT,
            domain_block_number: 99,
            domain_block_hash: H256([4u8; 32]),
            invalid_extrinsic: vec![1, 2],
            storage_proof: storage_proof(),
        }),
        FraudProof::BundleEquivocation(equivocation()),
        FraudProof::ImproperTransactionSortition(ImproperTransactionSortitionProof {
            domain_id: DomainId(4),
            bad_receipt_hash: RECEIPT,
        }),
        FraudProof::InvalidTotalRewards(InvalidTotalRewardsProof {
            domain_id: DomainId(5),
            bad_receipt_hash: RECEIPT,
            storage_proof: storage_proof(),
        }),
        FraudProof::InvalidExtrinsicsRoot(InvalidExtrinsicsRootProof {
            domain_id: DomainId(6),
            bad_receipt_hash: RECEIPT,
            valid_bundle_digests: bundle_digests(),
        }),
        FraudProof::ValidBundle(ValidBundleProof {
            domain_id: DomainId(7),
            bad_receipt_hash: RECEIPT,
            bundle_index: 8,
        }),
        FraudProof::InvalidDomainBlockHash(InvalidDomainBlockHashProof {
            domain_id: DomainId(8),
            bad_receipt_hash: RECEIPT,
            digest_storage_proof: storage_proof(),
        }),
        FraudProof::dummy_fraud_proof(DomainId(9), RECEIPT),
        FraudProof::InvalidBundles(invalid_bundles()),
    ]
}

#[test]
fn every_kind_targets_its_domain() {
    for (place, proof) in all_kinds().iter().enumerate() {
        assert_eq!(proof.domain_id(), DomainId(place as u32 + 1));
    }
}

#[test]
fn every_kind_but_equivocation_targets_its_receipt() {
    for proof in all_kinds() {
        if matches!(proof, FraudProof::BundleEquivocation(_)) {
            assert_eq!(proof.bad_receipt_hash(), H256([0u8; 32]));
        } else {
            assert_eq!(proof.bad_receipt_hash(), RECEIPT);
        }
    }
}

#[test]
fn dummy_fraud_proof_targets_what_it_was_made_for() {
    let proof = Proof::dummy_fraud_proof(DomainId(42), H256([7u8; 32]));
    assert_eq!(proof.domain_id(), DomainId(42));
    assert_eq!(proof.bad_receipt_hash(), H256([7u8; 32]));
    assert!(matches!(proof, FraudProof::Dummy { .. }));
}

#[test]
fn dummy_state_transition_proof_is_empty() {
    let proof = dummy_invalid_state_transition_proof::<H256>(DomainId(4));
    assert_eq!(proof.domain_id, DomainId(4));
    assert_eq!(proof.bad_receipt_hash, H256([0u8; 32]));
    assert_eq!(proof.proof, StorageProof::empty());
    assert_eq!(proof.execution_phase, ExecutionPhase::FinalizeBlock);
}

#[test]
fn new_keeps_every_part() {
    let proof = invalid_bundles();
    assert_eq!(proof.bad_receipt_hash, RECEIPT);
    assert_eq!(proof.domain_id, DomainId(10));
    assert_eq!(proof.bundle_index, 4);
    assert_eq!(proof.mismatched_extrinsic_index, 5);
    assert_eq!(proof.extrinsic_inclusion_proof, vec![vec![1, 2], vec![]]);
    assert!(proof.is_true_invalid_fraud_proof);
    assert_eq!(proof.proof_data, ProofDataPerInvalidBundleType::OutOfRangeTx);
}

#[test]
fn encodings_agree_with_the_codec() {
    let r = RECEIPT.0;
    let kinds = all_kinds();
    let expected: Vec<Vec<u8>> = vec![
        (0u8, 1u32, r, storage_proof(), 1u8, StorageProof::empty(), 6u32, vec![3u8, 2, 1]).encode(),
        (1u8, 2u32, r, 99u32, [4u8; 32], vec![1u8, 2], storage_proof()).encode(),
        (2u8, 3u32, [6u8; 32], 77u64, 11u64, 12u64).encode(),
        (3u8, 4u32, r).encode(),
        (4u8, 5u32, r, storage_proof()).encode(),
        (
            5u8,
            6u32,
            r,
            vec![
                (
                    2u32,
                    vec![
                        (Some(vec![1u8, 2, 3]), (0u8, vec![4u8]).encode_raw()),
                        (None, (1u8, [8u8; 32]).encode_raw()),
                    ],
                ),
                (3u32, vec![]),
            ],
        )
            .encode(),
        (6u8, 7u32, r, 8u32).encode(),
        (7u8, 8u32, r, storage_proof()).encode(),
        (8u8, 9u32, r).encode(),
        (9u8, r, 10u32, 4u32, 5u32, vec![vec![1u8, 2], vec![]], true, 0u8).encode(),
    ];
    for (proof, bytes) in kinds.iter().zip(expected) {
        assert!(Encode::is_encodable(proof));
        assert_eq!(Encode::encode(proof), bytes);
    }
}

/// Bytes that are encoded as they stand.
struct Raw(Vec<u8>);

impl ScaleEncode for Raw {
    fn encode(&self) -> Vec<u8> {
        self.0.clone()
    }
}

trait EncodeRaw {
    fn encode_raw(&self) -> Raw;
}

impl<T: ScaleEncode> EncodeRaw for T {
    fn encode_raw(&self) -> Raw {
        Raw(ScaleEncode::encode(self))
    }
}

#[test]
fn small_encoding_has_exact_bytes() {
    let proof = ValidBundleProof { domain_id: DomainId(0x01020304), bad_receipt_hash: 7u32, bundle_index: 1 };
    let proof: FraudProof<u32, u64> = FraudProof::ValidBundle(proof);
    assert_eq!(Encode::encode(&proof), vec![6, 4, 3, 2, 1, 7, 0, 0, 0, 1, 0, 0, 0]);
}

#[test]
fn compact_lengths_take_each_of_their_forms() {
    for (len, head) in [
        (0usize, vec![0u8]),
        (63, vec![252]),
        (64, vec![1, 1]),
        (16383, vec![253, 255]),
        (16384, vec![2, 0, 1, 0]),
    ] {
        let bytes = vec![5u8; len];
        let encoded = Encode::encode(&bytes);
        assert_eq!(encoded[..head.len()].to_vec(), head);
        assert_eq!(encoded[head.len()..].to_vec(), bytes);
        // A list counts its items in the same form.
        let list: Vec<Vec<u8>> = vec![vec![]; len];
        let mut expected = head.clone();
        expected.extend_from_slice(&vec![0u8; len]);
        assert_eq!(Encode::encode(&list), expected);
    }
}

#[test]
fn storage_proof_is_encoded_in_order() {
    assert_eq!(
        Encode::encode(&StorageProof::new([vec![9u8, 8], vec![2u8]])),
        vec![8, 4, 2, 8, 9, 8]
    );
    assert_eq!(Encode::encode(&StorageProof::empty()), vec![0]);
    assert!(Encode::is_encodable(&storage_proof()));
}

#[test]
fn phases_and_small_values_have_their_bytes() {
    assert_eq!(Encode::encode(&ExecutionPhase::InitializeBlock), vec![0]);
    assert_eq!(Encode::encode(&ExecutionPhase::FinalizeBlock), vec![2]);
    assert_eq!(Encode::encode(&true), vec![1]);
    assert_eq!(Encode::encode(&false), vec![0]);
    assert_eq!(Encode::encode(&Some(258u32)), vec![1, 2, 1, 0, 0]);
    assert_eq!(Encode::encode(&None::<u32>), vec![0]);
    assert_eq!(Encode::encode(&Slot(1)), vec![1, 0, 0, 0, 0, 0, 0, 0]);
    assert_eq!(Encode::encode(&AccountId([3; 32])), vec![3; 32]);
    assert_eq!(Encode::encode(&H256([4; 32])), vec![4; 32]);
    assert_eq!(Encode::encode(&ProofDataPerInvalidBundleType::OutOfRangeTx), vec![0]);
}

#[test]
fn hash_is_that_of_the_encoding() {
    for proof in all_kinds() {
        let bytes = Encode::encode(&proof);
        assert_eq!(proof.hash::<BlakeTwo256>(), BlakeTwo256::hash(&bytes));
        assert_eq!(proof.hash::<Keccak256>(), Keccak256::hash(&bytes));
    }
    let bytes = (3u32, [6u8; 32], 77u64, 11u64, 12u64).encode();
    assert_eq!(equivocation().hash::<BlakeTwo256>(), BlakeTwo256::hash(&bytes));
}

#[test]
fn different_proofs_have_different_encodings_and_hashes() {
    let kinds = all_kinds();
    for (i, a) in kinds.iter().enumerate() {
        for (j, b) in kinds.iter().enumerate() {
            assert_eq!(Encode::encode(a) == Encode::encode(b), i == j);
            assert_eq!(a.hash::<BlakeTwo256>() == b.hash::<BlakeTwo256>(), i == j);
        }
    }
    let mut other = equivocation();
    other.slot = Slot(78);
    assert_ne!(equivocation().hash::<BlakeTwo256>(), other.hash::<BlakeTwo256>());
}
