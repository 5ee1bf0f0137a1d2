//! The bytes of every encoding.
//!
//! Numbers are told by their weighted digits, composed values by the encodings of their parts in
//! order, and lists by how they are joined.

use vstd::prelude::*;

use sp_trie::StorageProof;

use crate::execution_phase::ExecutionPhase;
use crate::extrinsic_digest::{ExtrinsicDigest, ValidBundleDigest};
use crate::fraud_proof::FraudProof;
use crate::header::{DigestItem, Header, HeaderModel, Log};
use crate::primitives::{AccountId, DomainId, Slot, H256};
use crate::proofs::{
    BundleEquivocationProof, ImproperTransactionSortitionProof, InvalidBundlesFraudProof,
    InvalidDomainBlockHashProof, InvalidExtrinsicsRootProof, InvalidStateTransitionProof,
    InvalidTotalRewardsProof, InvalidTransactionProof, ProofDataPerInvalidBundleType,
    ValidBundleProof,
};
use crate::scale::Encode;
#[allow(unused_imports)]
use crate::header::{joined_logs, reads_header};
#[allow(unused_imports)]
use crate::primitives::zero_hash;
#[allow(unused_imports)]
use crate::scale::{
    bytes_encoding, compact, items_encoding, le_bytes, lemma_le_bytes_len, length_fits,
    list_encodable, list_encoding, reads_bytes,
};
#[allow(unused_imports)]
use crate::storage_proof::{joined_nodes, nodes_encoding, proof_nodes};

verus! {

/// The first byte of a number is its remainder by 256, and the others are the bytes of the
/// quotient.
pub proof fn law_first_byte_is_least_significant(n: nat, width: nat)
    requires
        width > 0,
    ensures
        le_bytes(n, width).len() == width,
        le_bytes(n, width)[0] == n % 256,
        le_bytes(n, width).skip(1) == le_bytes(n / 256, (width - 1) as nat),
        le_bytes(n, 0).len() == 0,
{
    lemma_le_bytes_len(n, width);
    lemma_le_bytes_len(n, 0);
    assert(le_bytes(n, width).skip(1) =~= le_bytes(n / 256, (width - 1) as nat));
}

/// Two bytes hold the number that their weighted sum gives.
proof fn lemma_two_bytes(n: nat)
    requires
        n < 0x1_0000,
    ensures
        le_bytes(n, 2).len() == 2,
        le_bytes(n, 2)[0] + 0x100 * le_bytes(n, 2)[1] == n,
{
    lemma_le_bytes_len(n, 2);
    law_first_byte_is_least_significant(n, 2);
    law_first_byte_is_least_significant(n / 0x100, 1);
    assert(le_bytes(n, 2)[1] == le_bytes(n, 2).skip(1)[0]);
}

/// Four bytes hold the number that their weighted sum gives.
proof fn lemma_four_bytes(n: nat)
    requires
        n < 0x1_0000_0000,
    ensures
        le_bytes(n, 4).len() == 4,
        le_bytes(n, 4)[0] + 0x100 * le_bytes(n, 4)[1] + 0x1_0000 * le_bytes(n, 4)[2] + 0x100_0000
            * le_bytes(n, 4)[3] == n,
{
    let m = n / 0x1_0000;
    law_first_byte_is_least_significant(n, 4);
    law_first_byte_is_least_significant(n / 0x100, 3);
    lemma_two_bytes(m);
    assert(n / 0x100 / 0x100 == m);
    let b = le_bytes(n, 4);
    let c = le_bytes(n / 0x100, 3);
    let d = le_bytes(m, 2);
    assert(b[1] == b.skip(1)[0]);
    assert(b[2] == b.skip(1)[1]);
    assert(b[3] == b.skip(1)[2]);
    assert(c[1] == c.skip(1)[0]);
    assert(c[2] == c.skip(1)[1]);
    assert(n == n % 0x100 + 0x100 * ((n / 0x100) % 0x100) + 0x1_0000 * m);
}

/// A 32-bit number is encoded in four bytes, of which it is the sum with the weights 1, 2⁸, 2¹⁶ and
/// 2²⁴.
pub proof fn law_u32_is_the_weighted_sum_of_its_bytes(n: u32)
    ensures
        n.encodable(),
        n.encoding().len() == 4,
        n.encoding()[0] + 0x100 * n.encoding()[1] + 0x1_0000 * n.encoding()[2] + 0x100_0000
            * n.encoding()[3] == n,
{
    lemma_four_bytes(n as nat);
}

/// A 64-bit number is encoded in eight bytes: those of its lower half, then those of its upper
/// half.
pub proof fn law_u64_is_its_two_halves(n: u64)
    ensures
        n.encodable(),
        n.encoding() == ((n % 0x1_0000_0000) as u32).encoding() + ((n
            / 0x1_0000_0000) as u32).encoding(),
{
    let lower = (n % 0x1_0000_0000) as nat;
    let upper = (n / 0x1_0000_0000) as nat;
    assert(n == lower + 0x1_0000_0000 * upper);
    lemma_split_digits(lower, upper);
}

proof fn lemma_low_digit(low: nat, high: nat)
    ensures
        (low + 256 * high) % 256 == low % 256,
        (low + 256 * high) / 256 == low / 256 + high,
{
}

proof fn lemma_split_digits(lower: nat, upper: nat)
    requires
        lower < 0x1_0000_0000,
    ensures
        le_bytes(lower + 0x1_0000_0000 * upper, 8) == le_bytes(lower, 4) + le_bytes(upper, 4),
{
    let n = lower + 0x1_0000_0000 * upper;
    reveal_with_fuel(le_bytes, 5);
    let n1 = n / 256;
    let n2 = n1 / 256;
    let n3 = n2 / 256;
    let n4 = n3 / 256;
    let l1 = lower / 256;
    let l2 = l1 / 256;
    let l3 = l2 / 256;
    lemma_low_digit(lower, 0x100_0000 * upper);
    lemma_low_digit(l1, 0x1_0000 * upper);
    lemma_low_digit(l2, 0x100 * upper);
    lemma_low_digit(l3, upper);
    assert(n4 == upper);
    assert(le_bytes(n, 8) =~= seq![(n % 256) as u8] + (seq![(n1 % 256) as u8] + (seq![
        (n2 % 256) as u8,
    ] + (seq![(n3 % 256) as u8] + le_bytes(n4, 4)))));
    assert(le_bytes(lower, 4) =~= seq![(lower % 256) as u8] + (seq![(l1 % 256) as u8] + (seq![
        (l2 % 256) as u8,
    ] + (seq![(l3 % 256) as u8] + Seq::<u8>::empty()))));
    assert(le_bytes(n, 8) =~= le_bytes(lower, 4) + le_bytes(upper, 4));
}

/// A number that fits in 32 bits has the shortest compact form that holds it: one, two or four
/// bytes whose weighted sum is four times the number and the form's tag, or a tag byte and four
/// bytes whose weighted sum is the number.
pub proof fn law_compact_is_shortest(n: nat)
    requires
        n <= u32::MAX,
    ensures
        n < 0x40 ==> compact(n).len() == 1 && compact(n)[0] == 4 * n,
        0x40 <= n < 0x4000 ==> compact(n).len() == 2 && compact(n)[0] + 0x100 * compact(n)[1]
            == 4 * n + 1,
        0x4000 <= n < 0x4000_0000 ==> compact(n).len() == 4 && compact(n)[0] + 0x100 * compact(n)[1]
            + 0x1_0000 * compact(n)[2] + 0x100_0000 * compact(n)[3] == 4 * n + 2,
        0x4000_0000 <= n ==> compact(n).len() == 5 && compact(n)[0] == 3 && compact(n)[1] + 0x100
            * compact(n)[2] + 0x1_0000 * compact(n)[3] + 0x100_0000 * compact(n)[4] == n,
{
    if n < 0x40 {
        law_first_byte_is_least_significant(4 * n, 1);
    } else if n < 0x4000 {
        lemma_two_bytes(4 * n + 1);
    } else if n < 0x4000_0000 {
        lemma_four_bytes(4 * n + 2);
    } else {
        lemma_four_bytes(n);
    }
}

/// A byte string is encoded as its compact length and its bytes, if its length fits in 32 bits.
pub proof fn law_byte_string_layout(bytes: Vec<u8>)
    ensures
        bytes.encodable() <==> bytes@.len() <= u32::MAX,
        bytes.encoding() == compact(bytes@.len()) + bytes@,
        bytes_encoding(bytes@) == compact(bytes@.len()) + bytes@,
{
}

/// A byte string can be read from an input if and only if the input is its compact length, its
/// bytes, and something more or nothing.
pub proof fn law_reading_a_byte_string(input: Seq<u8>, bytes: Seq<u8>)
    ensures
        reads_bytes(input, bytes) <==> bytes.len() <= u32::MAX && exists|rest: Seq<u8>| input
            == #[trigger] (compact(bytes.len()) + bytes + rest),
{
    let whole = compact(bytes.len()) + bytes;
    if reads_bytes(input, bytes) {
        let rest = input.skip(whole.len() as int);
        assert(input =~= compact(bytes.len()) + bytes + rest);
    }
    if bytes.len() <= u32::MAX && exists|rest: Seq<u8>| input == #[trigger] (compact(bytes.len())
        + bytes + rest) {
        let rest = choose|rest: Seq<u8>| input == #[trigger] (compact(bytes.len()) + bytes + rest);
        assert(input.take(whole.len() as int) =~= whole);
        assert(whole.is_prefix_of(input));
    }
}

/// A header can be read from an input if and only if the input is its encoding, and something more
/// or nothing.
pub proof fn law_reading_a_header(input: Seq<u8>, header: HeaderModel)
    ensures
        reads_header(input, header) <==> header.encodable() && exists|rest: Seq<u8>| input
            == #[trigger] (header.encoding() + rest),
{
    let whole = header.encoding();
    if reads_header(input, header) {
        let rest = input.skip(whole.len() as int);
        assert(input =~= whole + rest);
    }
    if header.encodable() && exists|rest: Seq<u8>| input == #[trigger] (header.encoding() + rest) {
        let rest = choose|rest: Seq<u8>| input == #[trigger] (header.encoding() + rest);
        assert(input.take(whole.len() as int) =~= whole);
        assert(whole.is_prefix_of(input));
    }
}

/// A truth value is one byte, an identifier is its number, and a hash or an account is its bytes.
/// All of them can be encoded.
pub proof fn law_small_values(b: bool, id: DomainId, slot: Slot, hash: H256, account: AccountId)
    ensures
        b.encodable() && id.encodable() && slot.encodable(),
        hash.encodable() && account.encodable(),
        b.encoding().len() == 1,
        b ==> b.encoding()[0] == 1,
        !b ==> b.encoding()[0] == 0,
        id.encoding() == id.0.encoding(),
        slot.encoding() == slot.0.encoding(),
        hash.encoding() == hash.0@,
        hash@ == hash.0@,
        account.encoding() == account.0@,
        account@ == account.0@,
{
}

/// The zero hash has 32 bytes, all of them zero.
pub proof fn law_zero_hash()
    ensures
        zero_hash().len() == 32,
        forall|i: int| 0 <= i < 32 ==> zero_hash()[i] == 0,
{
}

/// An option is a byte that tells whether there is a value, and the value.
pub proof fn law_option_layout<T: Encode>(value: T)
    ensures
        None::<T>.encodable(),
        None::<T>.encoding() == seq![0u8],
        Some(value).encodable() <==> value.encodable(),
        Some(value).encoding().len() == 1 + value.encoding().len(),
        Some(value).encoding()[0] == 1,
        Some(value).encoding().skip(1) == value.encoding(),
{
    assert(Some(value).encoding().skip(1) =~= value.encoding());
}

/// A pair is its first part, then its second.
pub proof fn law_pair_layout<A: Encode, B: Encode>(a: A, b: B)
    ensures
        (a, b).encodable() <==> a.encodable() && b.encodable(),
        (a, b).encoding().take(a.encoding().len() as int) == a.encoding(),
        (a, b).encoding().skip(a.encoding().len() as int) == b.encoding(),
{
    assert((a, b).encoding().take(a.encoding().len() as int) =~= a.encoding());
    assert((a, b).encoding().skip(a.encoding().len() as int) =~= b.encoding());
}

/// The items of a list are joined in order: those of two lists one after the other are the joined
/// items of the one and then of the other, and a single item is its own encoding.
pub proof fn law_items_are_joined_in_order<T: Encode>(a: Seq<T>, b: Seq<T>, item: T)
    ensures
        items_encoding(Seq::<T>::empty()).len() == 0,
        items_encoding(seq![item]) == item.encoding(),
        items_encoding(a + b) == items_encoding(a) + items_encoding(b),
    decreases a.len(),
{
    assert(seq![item].skip(1) =~= Seq::<T>::empty());
    assert(items_encoding(Seq::<T>::empty()) =~= Seq::<u8>::empty());
    assert(items_encoding(seq![item]) =~= item.encoding());
    if a.len() == 0 {
        assert(a + b =~= b);
        assert(items_encoding(a) + items_encoding(b) =~= items_encoding(b));
    } else {
        let rest = a.skip(1);
        law_items_are_joined_in_order(rest, b, item);
        assert((a + b).skip(1) =~= rest + b);
        assert(items_encoding(a + b) =~= items_encoding(a) + items_encoding(b));
    }
}

/// The nodes of a storage proof are joined in order, each as a byte string.
pub proof fn law_nodes_are_joined_in_order(a: Seq<Seq<u8>>, b: Seq<Seq<u8>>, node: Seq<u8>)
    ensures
        joined_nodes(Seq::<Seq<u8>>::empty()).len() == 0,
        joined_nodes(seq![node]) == compact(node.len()) + node,
        joined_nodes(a + b) == joined_nodes(a) + joined_nodes(b),
    decreases a.len(),
{
    assert(seq![node].skip(1) =~= Seq::<Seq<u8>>::empty());
    assert(joined_nodes(Seq::<Seq<u8>>::empty()) =~= Seq::<u8>::empty());
    assert(joined_nodes(seq![node]) =~= compact(node.len()) + node);
    if a.len() == 0 {
        assert(a + b =~= b);
        assert(joined_nodes(a) + joined_nodes(b) =~= joined_nodes(b));
    } else {
        let rest = a.skip(1);
        law_nodes_are_joined_in_order(rest, b, node);
        assert((a + b).skip(1) =~= rest + b);
        assert(joined_nodes(a + b) =~= joined_nodes(a) + joined_nodes(b));
    }
}

/// The entries of a digest are joined in order.
pub proof fn law_logs_are_joined_in_order(a: Seq<Log>, b: Seq<Log>, log: Log)
    ensures
        joined_logs(Seq::<Log>::empty()).len() == 0,
        joined_logs(seq![log]) == log.encoding(),
        joined_logs(a + b) == joined_logs(a) + joined_logs(b),
    decreases a.len(),
{
    assert(seq![log].skip(1) =~= Seq::<Log>::empty());
    assert(joined_logs(Seq::<Log>::empty()) =~= Seq::<u8>::empty());
    assert(joined_logs(seq![log]) =~= log.encoding());
    if a.len() == 0 {
        assert(a + b =~= b);
        assert(joined_logs(a) + joined_logs(b) =~= joined_logs(b));
    } else {
        let rest = a.skip(1);
        law_logs_are_joined_in_order(rest, b, log);
        assert((a + b).skip(1) =~= rest + b);
        assert(joined_logs(a + b) =~= joined_logs(a) + joined_logs(b));
    }
}

/// A list is the compact number of its items and the joined items, if that number fits in 32 bits
/// and every item can be encoded.
pub proof fn law_list_layout<T: Encode>(items: Seq<T>)
    ensures
        list_encoding(items) == compact(items.len()) + items_encoding(items),
        list_encodable(items) <==> items.len() <= u32::MAX && forall|i: int|
            0 <= i < items.len() ==> (#[trigger] items[i]).encodable(),
{
}

/// The lists in fraud proofs are encoded as lists.
pub proof fn law_vectors_are_lists(
    nodes: Vec<Vec<u8>>,
    digests: Vec<ValidBundleDigest>,
    extrinsics: Vec<(Option<Vec<u8>>, ExtrinsicDigest)>,
)
    ensures
        nodes.encoding() == compact(nodes@.len()) + items_encoding(nodes@),
        digests.encoding() == compact(digests@.len()) + items_encoding(digests@),
        extrinsics.encoding() == compact(extrinsics@.len()) + items_encoding(extrinsics@),
        nodes.encodable() <==> list_encodable(nodes@),
        digests.encodable() <==> list_encodable(digests@),
        extrinsics.encodable() <==> list_encodable(extrinsics@),
{
}

/// A storage proof is the compact number of its nodes and the joined nodes, if that number and the
/// length of every node fit in 32 bits.
pub proof fn law_storage_proof_layout(evidence: StorageProof)
    ensures
        evidence.encoding() == compact(proof_nodes(evidence).len()) + joined_nodes(
            proof_nodes(evidence),
        ),
        nodes_encoding(proof_nodes(evidence)) == evidence.encoding(),
        evidence.encodable() <==> proof_nodes(evidence).len() <= u32::MAX && forall|i: int|
            0 <= i < proof_nodes(evidence).len() ==> (#[trigger] proof_nodes(evidence)[i]).len()
                <= u32::MAX,
{
    if evidence.encodable() {
        assert forall|i: int| 0 <= i < proof_nodes(evidence).len() implies (
        #[trigger] proof_nodes(evidence)[i]).len() <= u32::MAX by {
            assert(length_fits(proof_nodes(evidence)[i].len()));
        }
    }
}

/// A digest item stands for the entry of its kind with the bytes that it holds.
pub proof fn law_digest_item_views(engine: [u8; 4], data: Vec<u8>)
    ensures
        DigestItem::PreRuntime(engine, data)@ == Log::PreRuntime(engine@, data@),
        DigestItem::Consensus(engine, data)@ == Log::Consensus(engine@, data@),
        DigestItem::Seal(engine, data)@ == Log::Seal(engine@, data@),
        DigestItem::Other(data)@ == Log::Other(data@),
        DigestItem::RuntimeEnvironmentUpdated@ == Log::RuntimeEnvironmentUpdated,
{
}

/// An entry of a digest is a byte for its kind, the identifier of the engine where it has one, and
/// its data as a byte string.
pub proof fn law_log_layout(engine: Seq<u8>, data: Seq<u8>)
    ensures
        Log::Other(data).encoding() == seq![0u8] + (compact(data.len()) + data),
        Log::Consensus(engine, data).encoding() == seq![4u8] + (engine + (compact(data.len()) + data)),
        Log::Seal(engine, data).encoding() == seq![5u8] + (engine + (compact(data.len()) + data)),
        Log::PreRuntime(engine, data).encoding() == seq![6u8] + (engine + (compact(data.len()) + data)),
        Log::RuntimeEnvironmentUpdated.encoding() == seq![8u8],
        Log::Other(data).encodable() <==> data.len() <= u32::MAX,
        Log::Consensus(engine, data).encodable() <==> engine.len() == 4 && data.len() <= u32::MAX,
        Log::Seal(engine, data).encodable() <==> engine.len() == 4 && data.len() <= u32::MAX,
        Log::PreRuntime(engine, data).encodable() <==> engine.len() == 4 && data.len() <= u32::MAX,
        Log::RuntimeEnvironmentUpdated.encodable(),
{
    let string = compact(data.len()) + data;
    assert(seq![4u8] + engine + string =~= seq![4u8] + (engine + string));
    assert(seq![5u8] + engine + string =~= seq![5u8] + (engine + string));
    assert(seq![6u8] + engine + string =~= seq![6u8] + (engine + string));
}

/// A header is the hash of its parent, its compact number, its state root, its extrinsics root, and
/// its digest, in this order.
pub proof fn law_header_layout(header: HeaderModel)
    ensures
        header.encoding() == header.parent_hash + compact(header.number as nat) + header.state_root
            + header.extrinsics_root + compact(header.logs.len()) + joined_logs(header.logs),
        header.encodable() <==> header.parent_hash.len() == 32 && header.state_root.len() == 32
            && header.extrinsics_root.len() == 32 && header.logs.len() <= u32::MAX && forall|i: int|
            0 <= i < header.logs.len() ==> (#[trigger] header.logs[i]).encodable(),
{
    let a = header.parent_hash;
    let b = compact(header.number as nat);
    let c = header.state_root;
    let d = header.extrinsics_root;
    let e = compact(header.logs.len());
    let f = joined_logs(header.logs);
    lemma_regroup(d, e, f);
    lemma_regroup(c, d, e + f);
    lemma_regroup(c + d, e, f);
    lemma_regroup(b, c, d + (e + f));
    lemma_regroup(b + c, d, e + f);
    lemma_regroup(b + c + d, e, f);
    lemma_regroup(a, b, c + (d + (e + f)));
    lemma_regroup(a + b, c, d + (e + f));
    lemma_regroup(a + b + c, d, e + f);
    lemma_regroup(a + b + c + d, e, f);
}

/// A header says what its fields hold.
pub proof fn law_header_says_its_fields(header: Header, logs: Seq<Log>)
    ensures
        header.with_logs(logs).parent_hash == header.parent_hash.0@,
        header.with_logs(logs).number == header.number,
        header.with_logs(logs).state_root == header.state_root.0@,
        header.with_logs(logs).extrinsics_root == header.extrinsics_root.0@,
        header.with_logs(logs).logs == logs,
{
}

proof fn lemma_regroup(a: Seq<u8>, b: Seq<u8>, c: Seq<u8>)
    ensures
        a + (b + c) == (a + b) + c,
{
    assert(a + (b + c) =~= (a + b) + c);
}

/// A phase is a byte for its kind and, for an extrinsic, the proof of inclusion, the index and the
/// extrinsic, in this order.
pub proof fn law_phase_layout(phase: ExecutionPhase)
    ensures
        phase is InitializeBlock ==> phase.encodable() && phase.encoding() == seq![0u8],
        phase is FinalizeBlock ==> phase.encodable() && phase.encoding() == seq![2u8],
        phase matches ExecutionPhase::ApplyExtrinsic { proof_of_inclusion, mismatch_index, extrinsic }
            ==> {
            &&& phase.encodable() <==> proof_of_inclusion.encodable() && extrinsic@.len() <= u32::MAX
            &&& phase.encoding() == seq![1u8] + proof_of_inclusion.encoding() + mismatch_index.encoding()
                + extrinsic.encoding()
        },
{
    if let ExecutionPhase::ApplyExtrinsic { proof_of_inclusion, mismatch_index, extrinsic } = phase {
        let p = proof_of_inclusion.encoding();
        let i = mismatch_index.encoding();
        let x = extrinsic.encoding();
        lemma_regroup(p, i, x);
        lemma_regroup(seq![1u8], p, i + x);
        lemma_regroup(seq![1u8] + p, i, x);
    }
}

/// The digest of an extrinsic is a byte for its kind, then the data as a byte string or the hash.
pub proof fn law_extrinsic_digest_layout(data: Vec<u8>, hash: H256)
    ensures
        ExtrinsicDigest::Data(data).encoding() == seq![0u8] + compact(data@.len()) + data@,
        ExtrinsicDigest::Data(data).encodable() <==> data@.len() <= u32::MAX,
        ExtrinsicDigest::Hash(hash).encoding() == seq![1u8] + hash.0@,
        ExtrinsicDigest::Hash(hash).encodable(),
{
    lemma_regroup(seq![0u8], compact(data@.len()), data@);
}

/// The proof data of an invalid bundle is the byte of its kind.
pub proof fn law_proof_data_layout(data: ProofDataPerInvalidBundleType)
    ensures
        data.encodable(),
        data.encoding() == seq![0u8],
{
}

/// The encoding of an invalid state transition proof is that of its fields, in their order; it can
/// be encoded if each of them can.
pub proof fn law_state_transition_fields_in_order<ReceiptHash: Encode>(
    evidence: InvalidStateTransitionProof<ReceiptHash>,
)
    ensures
        evidence.encoding() == evidence.domain_id.encoding()
            + evidence.bad_receipt_hash.encoding()
            + evidence.proof.encoding()
            + evidence.execution_phase.encoding(),
        evidence.encodable() <==> evidence.domain_id.encodable()
            && evidence.bad_receipt_hash.encodable()
            && evidence.proof.encodable()
            && evidence.execution_phase.encodable(),
{
    let e0 = evidence.domain_id.encoding();
    let e1 = evidence.bad_receipt_hash.encoding();
    let e2 = evidence.proof.encoding();
    let e3 = evidence.execution_phase.encoding();
    lemma_regroup(e0, e1, e2 + e3);
    lemma_regroup(e0 + e1, e2, e3);
}

/// The encoding of a bundle equivocation proof is that of its fields, in their order; it can be
/// encoded if each of them can.
pub proof fn law_equivocation_fields_in_order<BundleHeader: Encode>(
    evidence: BundleEquivocationProof<BundleHeader>,
)
    ensures
        evidence.encoding() == evidence.domain_id.encoding()
            + evidence.offender.encoding()
            + evidence.slot.encoding()
            + evidence.first_header.encoding()
            + evidence.second_header.encoding(),
        evidence.encodable() <==> evidence.domain_id.encodable()
            && evidence.offender.encodable()
            && evidence.slot.encodable()
            && evidence.first_header.encodable()
            && evidence.second_header.encodable(),
{
    let e0 = evidence.domain_id.encoding();
    let e1 = evidence.offender.encoding();
    let e2 = evidence.slot.encoding();
    let e3 = evidence.first_header.encoding();
    let e4 = evidence.second_header.encoding();
    lemma_regroup(e0, e1, e2 + (e3 + e4));
    lemma_regroup(e0 + e1, e2, e3 + e4);
    lemma_regroup(e0 + e1 + e2, e3, e4);
}

/// The encoding of an invalid transaction proof is that of its fields, in their order; it can be
/// encoded if each of them can.
pub proof fn law_transaction_fields_in_order<DomainHash: Encode>(
    evidence: InvalidTransactionProof<DomainHash>,
)
    ensures
        evidence.encoding() == evidence.domain_id.encoding()
            + evidence.bad_receipt_hash.encoding()
            + evidence.domain_block_number.encoding()
            + evidence.domain_block_hash.encoding()
            + evidence.invalid_extrinsic.encoding()
            + evidence.storage_proof.encoding(),
        evidence.encodable() <==> evidence.domain_id.encodable()
            && evidence.bad_receipt_hash.encodable()
            && evidence.domain_block_number.encodable()
            && evidence.domain_block_hash.encodable()
            && evidence.invalid_extrinsic.encodable()
            && evidence.storage_proof.encodable(),
{
    let e0 = evidence.domain_id.encoding();
    let e1 = evidence.bad_receipt_hash.encoding();
    let e2 = evidence.domain_block_number.encoding();
    let e3 = evidence.domain_block_hash.encoding();
    let e4 = evidence.invalid_extrinsic.encoding();
    let e5 = evidence.storage_proof.encoding();
    lemma_regroup(e0, e1, e2 + (e3 + (e4 + e5)));
    lemma_regroup(e0 + e1, e2, e3 + (e4 + e5));
    lemma_regroup(e0 + e1 + e2, e3, e4 + e5);
    lemma_regroup(e0 + e1 + e2 + e3, e4, e5);
}

/// The encoding of an improper transaction sortition proof is that of its fields, in their order;
/// it can be encoded if each of them can.
pub proof fn law_sortition_fields_in_order<ReceiptHash: Encode>(
    evidence: ImproperTransactionSortitionProof<ReceiptHash>,
)
    ensures
        evidence.encoding() == evidence.domain_id.encoding()
            + evidence.bad_receipt_hash.encoding(),
        evidence.encodable() <==> evidence.domain_id.encodable()
            && evidence.bad_receipt_hash.encodable(),
{
}

/// The encoding of an invalid total rewards proof is that of its fields, in their order; it can be
/// encoded if each of them can.
pub proof fn law_total_rewards_fields_in_order<ReceiptHash: Encode>(
    evidence: InvalidTotalRewardsProof<ReceiptHash>,
)
    ensures
        evidence.encoding() == evidence.domain_id.encoding()
            + evidence.bad_receipt_hash.encoding()
            + evidence.storage_proof.encoding(),
        evidence.encodable() <==> evidence.domain_id.encodable()
            && evidence.bad_receipt_hash.encodable()
            && evidence.storage_proof.encodable(),
{
    let e0 = evidence.domain_id.encoding();
    let e1 = evidence.bad_receipt_hash.encoding();
    let e2 = evidence.storage_proof.encoding();
    lemma_regroup(e0, e1, e2);
}

/// The encoding of an invalid domain block hash proof is that of its fields, in their order; it can
/// be encoded if each of them can.
pub proof fn law_block_hash_fields_in_order<ReceiptHash: Encode>(
    evidence: InvalidDomainBlockHashProof<ReceiptHash>,
)
    ensures
        evidence.encoding() == evidence.domain_id.encoding()
            + evidence.bad_receipt_hash.encoding()
            + evidence.digest_storage_proof.encoding(),
        evidence.encodable() <==> evidence.domain_id.encodable()
            && evidence.bad_receipt_hash.encodable()
            && evidence.digest_storage_proof.encodable(),
{
    let e0 = evidence.domain_id.encoding();
    let e1 = evidence.bad_receipt_hash.encoding();
    let e2 = evidence.digest_storage_proof.encoding();
    lemma_regroup(e0, e1, e2);
}

/// The encoding of an invalid extrinsics root proof is that of its fields, in their order; it can
/// be encoded if each of them can.
pub proof fn law_extrinsics_root_fields_in_order<ReceiptHash: Encode>(
    evidence: InvalidExtrinsicsRootProof<ReceiptHash>,
)
    ensures
        evidence.encoding() == evidence.domain_id.encoding()
            + evidence.bad_receipt_hash.encoding()
            + evidence.valid_bundle_digests.encoding(),
        evidence.encodable() <==> evidence.domain_id.encodable()
            && evidence.bad_receipt_hash.encodable()
            && evidence.valid_bundle_digests.encodable(),
{
    let e0 = evidence.domain_id.encoding();
    let e1 = evidence.bad_receipt_hash.encoding();
    let e2 = evidence.valid_bundle_digests.encoding();
    lemma_regroup(e0, e1, e2);
}

/// The encoding of a valid bundle proof is that of its fields, in their order; it can be encoded if
/// each of them can.
pub proof fn law_valid_bundle_fields_in_order<ReceiptHash: Encode>(
    evidence: ValidBundleProof<ReceiptHash>,
)
    ensures
        evidence.encoding() == evidence.domain_id.encoding()
            + evidence.bad_receipt_hash.encoding()
            + evidence.bundle_index.encoding(),
        evidence.encodable() <==> evidence.domain_id.encodable()
            && evidence.bad_receipt_hash.encodable()
            && evidence.bundle_index.encodable(),
{
    let e0 = evidence.domain_id.encoding();
    let e1 = evidence.bad_receipt_hash.encoding();
    let e2 = evidence.bundle_index.encoding();
    lemma_regroup(e0, e1, e2);
}

/// The encoding of an invalid bundles proof is that of its fields, in their order; it can be
/// encoded if each of them can.
pub proof fn law_invalid_bundles_fields_in_order<ReceiptHash: Encode>(
    evidence: InvalidBundlesFraudProof<ReceiptHash>,
)
    ensures
        evidence.encoding() == evidence.bad_receipt_hash.encoding()
            + evidence.domain_id.encoding()
            + evidence.bundle_index.encoding()
            + evidence.mismatched_extrinsic_index.encoding()
            + evidence.extrinsic_inclusion_proof.encoding()
            + evidence.is_true_invalid_fraud_proof.encoding()
            + evidence.proof_data.encoding(),
        evidence.encodable() <==> evidence.bad_receipt_hash.encodable()
            && evidence.domain_id.encodable()
            && evidence.bundle_index.encodable()
            && evidence.mismatched_extrinsic_index.encodable()
            && evidence.extrinsic_inclusion_proof.encodable()
            && evidence.is_true_invalid_fraud_proof.encodable()
            && evidence.proof_data.encodable(),
{
    let e0 = evidence.bad_receipt_hash.encoding();
    let e1 = evidence.domain_id.encoding();
    let e2 = evidence.bundle_index.encoding();
    let e3 = evidence.mismatched_extrinsic_index.encoding();
    let e4 = evidence.extrinsic_inclusion_proof.encoding();
    let e5 = evidence.is_true_invalid_fraud_proof.encoding();
    let e6 = evidence.proof_data.encoding();
    lemma_regroup(e0, e1, e2 + (e3 + (e4 + (e5 + e6))));
    lemma_regroup(e0 + e1, e2, e3 + (e4 + (e5 + e6)));
    lemma_regroup(e0 + e1 + e2, e3, e4 + (e5 + e6));
    lemma_regroup(e0 + e1 + e2 + e3, e4, e5 + e6);
    lemma_regroup(e0 + e1 + e2 + e3 + e4, e5, e6);
}

/// The encoding of a valid bundle digest is that of its fields, in their order; it can be encoded
/// if each of them can.
pub proof fn law_bundle_digest_fields_in_order(evidence: ValidBundleDigest)
    ensures
        evidence.encoding() == evidence.bundle_index.encoding()
            + evidence.bundle_digest.encoding(),
        evidence.encodable() <==> evidence.bundle_index.encodable()
            && evidence.bundle_digest.encodable(),
{
}

/// A fraud proof is a byte for its kind, which is its place among the kinds, and the proof inside,
/// which decides whether it can be encoded.
pub proof fn law_fraud_proof_layout<ReceiptHash: Encode, BundleHeader: Encode>(
    evidence: FraudProof<ReceiptHash, BundleHeader>,
)
    ensures
        evidence.encoding()[0] == evidence.kind(),
        evidence.encoding().skip(1) == evidence.body(),
        evidence matches FraudProof::InvalidStateTransition(inner)
            ==> evidence.encoding() == seq![0u8]
            + inner.encoding() && (evidence.encodable() <==> inner.encodable()),
        evidence matches FraudProof::InvalidTransaction(inner) ==> evidence.encoding() == seq![1u8]
            + inner.encoding() && (evidence.encodable() <==> inner.encodable()),
        evidence matches FraudProof::BundleEquivocation(inner) ==> evidence.encoding() == seq![2u8]
            + inner.encoding() && (evidence.encodable() <==> inner.encodable()),
        evidence matches FraudProof::ImproperTransactionSortition(inner)
            ==> evidence.encoding() == seq![3u8]
            + inner.encoding() && (evidence.encodable() <==> inner.encodable()),
        evidence matches FraudProof::InvalidTotalRewards(inner) ==> evidence.encoding() == seq![4u8]
            + inner.encoding() && (evidence.encodable() <==> inner.encodable()),
        evidence matches FraudProof::InvalidExtrinsicsRoot(inner)
            ==> evidence.encoding() == seq![5u8]
            + inner.encoding() && (evidence.encodable() <==> inner.encodable()),
        evidence matches FraudProof::ValidBundle(inner) ==> evidence.encoding() == seq![6u8]
            + inner.encoding() && (evidence.encodable() <==> inner.encodable()),
        evidence matches FraudProof::InvalidDomainBlockHash(inner)
            ==> evidence.encoding() == seq![7u8]
            + inner.encoding() && (evidence.encodable() <==> inner.encodable()),
        evidence matches FraudProof::InvalidBundles(inner) ==> evidence.encoding() == seq![9u8]
            + inner.encoding() && (evidence.encodable() <==> inner.encodable()),
        evidence matches FraudProof::Dummy { domain_id, bad_receipt_hash }
            ==> evidence.encoding() == seq![8u8]
            + domain_id.encoding() + bad_receipt_hash.encoding() && (evidence.encodable()
            <==> bad_receipt_hash.encodable()),
{
    assert(evidence.encoding().skip(1) =~= evidence.body());
    if let FraudProof::Dummy { domain_id, bad_receipt_hash } = evidence {
        lemma_regroup(seq![8u8], domain_id.encoding(), bad_receipt_hash.encoding());
    }
}

} // verus!
