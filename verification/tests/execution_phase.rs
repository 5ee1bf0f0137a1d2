use parity_scale_codec::{Compact, Decode, Encode as ScaleEncode};
use sp_domains_fraud_proof::error::VerificationError;
use sp_domains_fraud_proof::execution_phase::{
    apply_extrinsic_call_data, initialize_block_call_data, post_state_root_from_byte_string,
    post_state_root_from_hash, post_state_root_from_header, ExecutionPhase,
};
use sp_domains_fraud_proof::header::{DigestItem, Header};
use sp_domains_fraud_proof::primitives::H256;
use sp_domains_fraud_proof::receipt::ExecutionReceipt;
use sp_trie::StorageProof;

type DomainHeader = sp_runtime::generic::Header<u32, sp_runtime::traits::BlakeTwo256>;

fn hash(byte: u8) -> H256 {
    H256([byte; 32])
}

fn receipt(trace: Vec<H256>) -> ExecutionReceipt<H256> {
    ExecutionReceipt {
        domain_block_number: 2000,
        domain_block_hash: hash(0xb0),
        domain_block_extrinsic_root: hash(0xb1),
        consensus_block_hash: hash(0xb2),
        final_state_root: hash(0xb3),
        execution_trace: trace,
    }
}

fn parent() -> ExecutionReceipt<H256> {
    ExecutionReceipt {
        domain_block_number: 1999,
        domain_block_hash: hash(0xa0),
        domain_block_extrinsic_root: hash(0xa1),
        consensus_block_hash: hash(0xa2),
        final_state_root: hash(0xa3),
        execution_trace: vec![hash(0xa4), hash(0xa5)],
    }
}

fn apply(mismatch_index: u32, extrinsic: Vec<u8>) -> ExecutionPhase {
    ExecutionPhase::ApplyExtrinsic {
        proof_of_inclusion: StorageProof::empty(),
        mismatch_index,
        extrinsic,
    }
}

fn block_info(consensus_block_hash: H256) -> DigestItem {
    DigestItem::PreRuntime(*b"TEST", consensus_block_hash.0.to_vec())
}

fn storage_key(index: u32) -> Vec<u8> {
    Compact(index).encode()
}

fn verify(proof: &StorageProof, root: &H256, value: &Vec<u8>, key: Vec<u8>) -> bool {
    let db = proof.to_memory_db::<sp_runtime::traits::BlakeTwo256>();
    let root = sp_core::H256(root.0);
    let stored = sp_trie::read_trie_value::<
        sp_trie::LayoutV1<sp_runtime::traits::BlakeTwo256>,
        _,
    >(&db, &root, &key, None, None);
    matches!(stored, Ok(Some(stored)) if stored == *value)
}

fn call_data(
    phase: &ExecutionPhase,
    bad_receipt: &ExecutionReceipt<H256>,
) -> Result<Vec<u8>, VerificationError> {
    phase.call_data(bad_receipt, &parent(), block_info, storage_key, verify)
}

/// The root and all nodes of the trie of a list of extrinsics.
fn extrinsics_trie(extrinsics: &[Vec<u8>]) -> (H256, StorageProof) {
    let mut db = sp_trie::MemoryDB::<sp_runtime::traits::BlakeTwo256>::default();
    let mut root = sp_core::H256([0u8; 32]);
    {
        let mut trie = sp_trie::trie_types::TrieDBMutBuilderV1::new(&mut db, &mut root).build();
        for (index, extrinsic) in extrinsics.iter().enumerate() {
            sp_trie::TrieMut::insert(&mut trie, &storage_key(index as u32), extrinsic).unwrap();
        }
    }
    let nodes: Vec<Vec<u8>> =
        db.drain().into_iter().filter(|(_, (_, rc))| *rc > 0).map(|(_, (node, _))| node).collect();
    (H256(root.0), StorageProof::new(nodes))
}

#[test]
fn proving_methods_are_those_of_the_runtime() {
    assert_eq!(
        ExecutionPhase::InitializeBlock.proving_method(),
        "DomainCoreApi_initialize_block_with_post_state_root"
    );
    assert_eq!(apply(1, vec![]).proving_method(), "BlockBuilder_apply_extrinsic");
    assert_eq!(ExecutionPhase::FinalizeBlock.proving_method(), "BlockBuilder_finalize_block");
}

#[test]
fn verifying_methods_return_the_post_state_root() {
    assert_eq!(
        ExecutionPhase::InitializeBlock.verifying_method(),
        "DomainCoreApi_initialize_block_with_post_state_root"
    );
    assert_eq!(
        apply(1, vec![]).verifying_method(),
        "DomainCoreApi_apply_extrinsic_with_post_state_root"
    );
    assert_eq!(ExecutionPhase::FinalizeBlock.verifying_method(), "BlockBuilder_finalize_block");
}

#[test]
fn methods_differ_for_extrinsics_alone() {
    for phase in [ExecutionPhase::InitializeBlock, apply(1, vec![]), ExecutionPhase::FinalizeBlock]
    {
        let differ = phase.proving_method() != phase.verifying_method();
        assert_eq!(differ, matches!(phase, ExecutionPhase::ApplyExtrinsic { .. }));
    }
}

#[test]
fn roots_of_each_phase_chain() {
    let bad = receipt(vec![hash(1), hash(2), hash(3), hash(4)]);
    let roots = |phase: ExecutionPhase| phase.pre_post_state_root(&bad, &parent()).unwrap();
    assert_eq!(roots(ExecutionPhase::InitializeBlock), (hash(0xa3), hash(1)));
    assert_eq!(roots(apply(1, vec![])), (hash(1), hash(2)));
    assert_eq!(roots(apply(2, vec![])), (hash(2), hash(3)));
    assert_eq!(roots(ExecutionPhase::FinalizeBlock), (hash(3), hash(4)));
}

#[test]
fn shortest_trace_has_no_extrinsic() {
    let bad = receipt(vec![hash(1), hash(2)]);
    assert_eq!(
        ExecutionPhase::InitializeBlock.pre_post_state_root(&bad, &parent()).unwrap(),
        (hash(0xa3), hash(1))
    );
    assert_eq!(
        ExecutionPhase::FinalizeBlock.pre_post_state_root(&bad, &parent()).unwrap(),
        (hash(1), hash(2))
    );
    assert!(matches!(
        apply(1, vec![]).pre_post_state_root(&bad, &parent()),
        Err(VerificationError::InvalidApplyExtrinsicTraceIndex)
    ));
}

#[test]
fn trace_of_less_than_two_roots_is_refused() {
    for trace in [vec![], vec![hash(1)]] {
        let bad = receipt(trace);
        for phase in
            [ExecutionPhase::InitializeBlock, apply(1, vec![]), ExecutionPhase::FinalizeBlock]
        {
            assert!(matches!(
                phase.pre_post_state_root(&bad, &parent()),
                Err(VerificationError::InvalidExecutionTrace)
            ));
        }
    }
}

#[test]
fn extrinsic_index_outside_of_the_trace_is_refused() {
    let bad = receipt(vec![hash(1), hash(2), hash(3), hash(4)]);
    for index in [0, 3, 4, u32::MAX] {
        assert!(matches!(
            apply(index, vec![]).pre_post_state_root(&bad, &parent()),
            Err(VerificationError::InvalidApplyExtrinsicTraceIndex)
        ));
    }
}

#[test]
fn encoded_root_is_read_back() {
    let mut result = hash(9).0.to_vec().encode();
    result.extend_from_slice(&[1, 2, 3]);
    for phase in [ExecutionPhase::InitializeBlock, apply(1, vec![])] {
        assert_eq!(phase.decode_execution_result(result.clone()).unwrap(), hash(9));
    }
    // Bytes behind the root are not read either.
    let longer = vec![9u8; 40].encode();
    assert_eq!(
        ExecutionPhase::InitializeBlock.decode_execution_result(longer).unwrap(),
        hash(9)
    );
}

#[test]
fn result_that_is_no_byte_string_is_refused() {
    for result in [vec![], vec![128u8, 1, 2], vec![1u8, 0]] {
        assert!(matches!(
            apply(1, vec![]).decode_execution_result(result),
            Err(VerificationError::InitializeBlockOrApplyExtrinsicDecode(_))
        ));
    }
}

#[test]
fn byte_string_too_short_for_a_root_is_refused() {
    for len in [0usize, 31] {
        assert!(matches!(
            ExecutionPhase::InitializeBlock.decode_execution_result(vec![9u8; len].encode()),
            Err(VerificationError::StorageRootDecode(_))
        ));
    }
}

fn finalized_header() -> DomainHeader {
    DomainHeader {
        parent_hash: [1u8; 32].into(),
        number: 70_000,
        state_root: [2u8; 32].into(),
        extrinsics_root: [3u8; 32].into(),
        digest: sp_runtime::Digest {
            logs: vec![
                sp_runtime::DigestItem::PreRuntime(*b"abcd", vec![1, 2]),
                sp_runtime::DigestItem::Consensus(*b"abcd", vec![3]),
                sp_runtime::DigestItem::Seal(*b"abcd", vec![]),
                sp_runtime::DigestItem::Other(vec![4, 5, 6]),
                sp_runtime::DigestItem::RuntimeEnvironmentUpdated,
            ],
        },
    }
}

#[test]
fn state_root_of_the_header_is_read_back() {
    let mut result = finalized_header().encode();
    let root = ExecutionPhase::FinalizeBlock.decode_execution_result(result.clone()).unwrap();
    assert_eq!(root, hash(2));
    result.push(0xff);
    assert_eq!(ExecutionPhase::FinalizeBlock.decode_execution_result(result).unwrap(), hash(2));
}

#[test]
fn result_that_is_no_header_is_refused() {
    let mut cut = finalized_header().encode();
    cut.pop();
    cut.pop();
    for result in [vec![], cut, hash(9).0.to_vec().encode()] {
        assert!(matches!(
            ExecutionPhase::FinalizeBlock.decode_execution_result(result),
            Err(VerificationError::HeaderDecode(_))
        ));
    }
}

#[test]
fn error_of_the_failed_decoding_is_carried() {
    for result in [vec![], vec![128u8, 1, 2], vec![1u8, 0]] {
        let expected = Vec::<u8>::decode(&mut result.as_slice()).unwrap_err();
        for phase in [ExecutionPhase::InitializeBlock, apply(1, vec![])] {
            assert!(matches!(
                phase.decode_execution_result(result.clone()),
                Err(VerificationError::InitializeBlockOrApplyExtrinsicDecode(error))
                    if error == expected
            ));
        }
        let expected = DomainHeader::decode(&mut result.as_slice()).unwrap_err();
        assert!(matches!(
            ExecutionPhase::FinalizeBlock.decode_execution_result(result),
            Err(VerificationError::HeaderDecode(error)) if error == expected
        ));
    }
    let expected = sp_core::H256::decode(&mut [9u8; 31].as_slice()).unwrap_err();
    for phase in [ExecutionPhase::InitializeBlock, apply(1, vec![])] {
        assert!(matches!(
            phase.decode_execution_result(vec![9u8; 31].encode()),
            Err(VerificationError::StorageRootDecode(error)) if error == expected
        ));
    }
}

#[test]
fn decoded_parts_give_the_root_or_their_error() {
    let error = parity_scale_codec::Error::from("no such bytes");
    assert_eq!(post_state_root_from_byte_string(Ok(vec![7; 33])).unwrap(), hash(7));
    assert!(matches!(
        post_state_root_from_byte_string(Ok(vec![7; 31])),
        Err(VerificationError::StorageRootDecode(_))
    ));
    assert!(matches!(
        post_state_root_from_byte_string(Err(error.clone())),
        Err(VerificationError::InitializeBlockOrApplyExtrinsicDecode(e)) if e == error
    ));
    assert_eq!(post_state_root_from_hash(Ok(hash(6))).unwrap(), hash(6));
    assert!(matches!(
        post_state_root_from_hash(Err(error.clone())),
        Err(VerificationError::StorageRootDecode(e)) if e == error
    ));
    let header = Header {
        parent_hash: hash(1),
        number: 2,
        state_root: hash(3),
        extrinsics_root: hash(4),
    };
    assert_eq!(post_state_root_from_header(Ok(header)).unwrap(), hash(3));
    assert!(matches!(
        post_state_root_from_header(Err(error.clone())),
        Err(VerificationError::HeaderDecode(e)) if e == error
    ));
}

#[test]
fn initialize_block_starts_from_the_parent() {
    let bad = receipt(vec![hash(1), hash(2)]);
    let data = call_data(&ExecutionPhase::InitializeBlock, &bad).unwrap();
    let expected = DomainHeader {
        parent_hash: [0xa0; 32].into(),
        number: 2000,
        state_root: [0u8; 32].into(),
        extrinsics_root: [0u8; 32].into(),
        digest: sp_runtime::Digest {
            logs: vec![sp_runtime::DigestItem::PreRuntime(*b"TEST", vec![0xb2; 32])],
        },
    };
    assert_eq!(data, expected.encode());
    assert_eq!(DomainHeader::decode(&mut data.as_slice()).unwrap(), expected);
}

#[test]
fn initial_header_has_exact_bytes() {
    let bad = receipt(vec![hash(1), hash(2)]);
    let data = initialize_block_call_data(&bad, &parent(), DigestItem::Other(vec![54]));
    let mut expected = vec![0xa0u8; 32];
    expected.extend_from_slice(&[0x41, 0x1f]);
    expected.extend_from_slice(&[0u8; 64]);
    expected.extend_from_slice(&[4, 0, 4, 54]);
    assert_eq!(data, expected);
}

#[test]
fn block_number_takes_each_compact_form() {
    for (number, compact) in [
        (63u32, vec![252u8]),
        (64, vec![1, 1]),
        (0x3fff, vec![253, 255]),
        (0x4000, vec![2, 0, 1, 0]),
        (0x3fff_ffff, vec![254, 255, 255, 255]),
        (0x4000_0000, vec![3, 0, 0, 0, 64]),
        (u32::MAX, vec![3, 255, 255, 255, 255]),
    ] {
        let mut bad = receipt(vec![]);
        bad.domain_block_number = number;
        let item = DigestItem::RuntimeEnvironmentUpdated;
        let data = initialize_block_call_data(&bad, &parent(), item);
        assert_eq!(data[32..32 + compact.len()].to_vec(), compact);
        assert_eq!(data.len(), 98 + compact.len());
    }
}

#[test]
fn every_kind_of_digest_item_is_encoded() {
    let bad = receipt(vec![]);
    let tail = |item: DigestItem| initialize_block_call_data(&bad, &parent(), item)[98..].to_vec();
    assert_eq!(tail(DigestItem::Other(vec![7])), vec![4, 0, 4, 7]);
    assert_eq!(
        tail(DigestItem::Consensus(*b"abcd", vec![7])),
        vec![4, 4, 97, 98, 99, 100, 4, 7]
    );
    assert_eq!(tail(DigestItem::Seal(*b"abcd", vec![7])), vec![4, 5, 97, 98, 99, 100, 4, 7]);
    assert_eq!(
        tail(DigestItem::PreRuntime(*b"abcd", vec![7])),
        vec![4, 6, 97, 98, 99, 100, 4, 7]
    );
    assert_eq!(tail(DigestItem::RuntimeEnvironmentUpdated), vec![4, 8]);
}

#[test]
fn included_extrinsic_is_the_call_data() {
    let extrinsics = vec![vec![1u8, 2, 3], vec![4u8; 100], vec![5u8; 32]];
    let (root, proof) = extrinsics_trie(&extrinsics);
    let mut bad = receipt(vec![hash(1), hash(2)]);
    bad.domain_block_extrinsic_root = root;
    for (index, extrinsic) in extrinsics.iter().enumerate() {
        let phase = ExecutionPhase::ApplyExtrinsic {
            proof_of_inclusion: proof.clone(),
            mismatch_index: index as u32,
            extrinsic: extrinsic.clone(),
        };
        assert_eq!(call_data(&phase, &bad).unwrap(), *extrinsic);
    }
}

#[test]
fn extrinsic_that_is_not_included_is_refused() {
    let extrinsics = vec![vec![1u8, 2, 3], vec![4u8; 100]];
    let (root, proof) = extrinsics_trie(&extrinsics);
    let mut bad = receipt(vec![hash(1), hash(2)]);
    bad.domain_block_extrinsic_root = root;
    let cases = [
        (proof.clone(), 0, vec![1u8, 2, 4]),
        (proof.clone(), 1, vec![1u8, 2, 3]),
        (proof.clone(), 2, vec![1u8, 2, 3]),
        (StorageProof::empty(), 0, vec![1u8, 2, 3]),
    ];
    for (proof_of_inclusion, mismatch_index, extrinsic) in cases {
        let phase = ExecutionPhase::ApplyExtrinsic { proof_of_inclusion, mismatch_index, extrinsic };
        assert!(matches!(
            call_data(&phase, &bad),
            Err(VerificationError::InvalidApplyExtrinsicCallData)
        ));
    }
}

#[test]
fn verdict_decides_on_the_extrinsic() {
    assert_eq!(apply_extrinsic_call_data(&vec![1, 2], true).unwrap(), vec![1, 2]);
    assert!(matches!(
        apply_extrinsic_call_data(&vec![1, 2], false),
        Err(VerificationError::InvalidApplyExtrinsicCallData)
    ));
}

#[test]
fn inclusion_is_asked_of_the_receipt_and_the_phase() {
    let bad = receipt(vec![hash(1), hash(2)]);
    let phase = apply(7, vec![8, 9]);
    let data = phase.call_data(
        &bad,
        &parent(),
        block_info,
        |index| index + 100,
        |proof, root, value, key: u32| {
            proof.is_empty() && *root == hash(0xb1) && *value == vec![8, 9] && key == 107
        },
    );
    assert_eq!(data.unwrap(), vec![8, 9]);
}

#[test]
fn finalize_block_has_no_call_data() {
    let bad = receipt(vec![hash(1), hash(2)]);
    assert_eq!(call_data(&ExecutionPhase::FinalizeBlock, &bad).unwrap(), Vec::<u8>::new());
}
