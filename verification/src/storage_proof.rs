//! Storage proofs: sets of trie nodes from which a part of a trie can be rebuilt.
//!
//! The set itself is [`sp_trie::StorageProof`]; the contracts speak of it through the list of its
//! nodes.

use vstd::prelude::*;

use sp_trie::StorageProof;

use crate::scale::Encode;
use crate::scale::is_list_encodable;
#[allow(unused_imports)]
use crate::scale::{bytes_encoding, compact, length_fits, lemma_bytes_prefix_free, lemma_compact_prefix_free};

verus! {

/// A storage proof of `sp_trie`.
#[verifier::external_type_specification]
#[verifier::external_body]
pub struct ExStorageProof(StorageProof);

/// The encoded trie nodes that a storage proof holds, in lexicographical order.
pub uninterp spec fn proof_nodes(proof: StorageProof) -> Seq<Seq<u8>>;

/// The clone of a storage proof holds the same trie nodes.
pub assume_specification[ <StorageProof as Clone>::clone ](proof: &StorageProof) -> (copy:
    StorageProof)
    ensures
        proof_nodes(copy) == proof_nodes(*proof),
;

/// Calls `sp_trie::StorageProof::empty`.
///
/// Claimed of it: the result holds no trie node.
#[verifier::external_body]
pub(crate) fn empty_proof() -> (proof: StorageProof)
    ensures
        proof_nodes(proof) == Seq::<Seq<u8>>::empty(),
{
    StorageProof::empty()
}

/// Calls `sp_trie::StorageProof::iter_nodes` and copies what it hands out.
///
/// Claimed of it: the nodes come in lexicographical order, each of them once.
#[verifier::external_body]
fn node_list(proof: &StorageProof) -> (nodes: Vec<Vec<u8>>)
    ensures
        nodes@.len() == proof_nodes(*proof).len(),
        forall|i: int| 0 <= i < nodes@.len() ==> (#[trigger] nodes@[i])@ == proof_nodes(*proof)[i],
{
    proof.iter_nodes().cloned().collect()
}

/// Calls `parity_scale_codec::Encode::encode` on a storage proof, which panics if there are more
/// nodes, or a longer node, than 32 bits can count.
///
/// Claimed of it: the result is the compact number of the nodes, then the encoding of each of
/// them in lexicographical order.
#[verifier::external_body]
fn encode_storage_proof(proof: &StorageProof) -> (bytes: Vec<u8>)
    requires
        proof.encodable(),
    ensures
        bytes@ == nodes_encoding(proof_nodes(*proof)),
{
    parity_scale_codec::Encode::encode(proof)
}

/// The encodings of `nodes`, one after the other.
pub open spec fn joined_nodes(nodes: Seq<Seq<u8>>) -> Seq<u8>
    decreases nodes.len(),
{
    if nodes.len() == 0 {
        Seq::empty()
    } else {
        bytes_encoding(nodes[0]) + joined_nodes(nodes.skip(1))
    }
}

/// The encoding of a set of nodes: their number in compact form, then the nodes in order.
pub open spec fn nodes_encoding(nodes: Seq<Seq<u8>>) -> Seq<u8> {
    compact(nodes.len()) + joined_nodes(nodes)
}

proof fn lemma_joined_prefix_free(a: Seq<Seq<u8>>, b: Seq<Seq<u8>>, s: Seq<u8>, t: Seq<u8>)
    requires
        a.len() == b.len(),
        forall|i: int| 0 <= i < a.len() ==> length_fits((#[trigger] a[i]).len()),
        forall|i: int| 0 <= i < b.len() ==> length_fits((#[trigger] b[i]).len()),
        joined_nodes(a) + s == joined_nodes(b) + t,
    ensures
        a == b,
        s == t,
    decreases a.len(),
{
    if a.len() == 0 {
        assert(joined_nodes(a) + s =~= s);
        assert(joined_nodes(b) + t =~= t);
        assert(a =~= b);
    } else {
        let ra = a.skip(1);
        let rb = b.skip(1);
        assert(joined_nodes(a) + s =~= bytes_encoding(a[0]) + (joined_nodes(ra) + s));
        assert(joined_nodes(b) + t =~= bytes_encoding(b[0]) + (joined_nodes(rb) + t));
        lemma_bytes_prefix_free(a[0], b[0], joined_nodes(ra) + s, joined_nodes(rb) + t);
        lemma_joined_prefix_free(ra, rb, s, t);
        assert forall|i: int| 0 <= i < a.len() implies a[i] == b[i] by {
            if i > 0 {
                assert(ra[i - 1] == rb[i - 1]);
            }
        }
        assert(a =~= b);
    }
}

impl Encode for StorageProof {
    open spec fn encodable(&self) -> bool {
        let nodes = proof_nodes(*self);
        &&& length_fits(nodes.len())
        &&& forall|i: int| 0 <= i < nodes.len() ==> length_fits((#[trigger] nodes[i]).len())
    }

    open spec fn encoding(&self) -> Seq<u8> {
        nodes_encoding(proof_nodes(*self))
    }

    open spec fn same(&self, other: &Self) -> bool {
        proof_nodes(*self) == proof_nodes(*other)
    }

    proof fn lemma_prefix_free(a: &Self, b: &Self, s: Seq<u8>, t: Seq<u8>) {
        let na = proof_nodes(*a);
        let nb = proof_nodes(*b);
        assert(a.encoding() + s =~= compact(na.len()) + (joined_nodes(na) + s));
        assert(b.encoding() + t =~= compact(nb.len()) + (joined_nodes(nb) + t));
        lemma_compact_prefix_free(na.len(), nb.len(), joined_nodes(na) + s, joined_nodes(nb) + t);
        lemma_joined_prefix_free(na, nb, s, t);
    }

    proof fn lemma_same_encoding(a: &Self, b: &Self) {
    }

    fn is_encodable(&self) -> (fits: bool) {
        let nodes = node_list(self);
        proof {
            if self.encodable() {
                assert forall|i: int| 0 <= i < nodes@.len() implies (
                #[trigger] nodes@[i]).encodable() by {
                    assert(length_fits(proof_nodes(*self)[i].len()));
                }
            } else if nodes@.len() <= u32::MAX {
                let i = choose|i: int|
                    0 <= i < proof_nodes(*self).len() && !length_fits(
                        (#[trigger] proof_nodes(*self)[i]).len(),
                    );
                assert(!nodes@[i].encodable());
            }
        }
        is_list_encodable(&nodes)
    }

    fn encode_to(&self, out: &mut Vec<u8>) {
        let mut bytes = encode_storage_proof(self);
        out.append(&mut bytes);
    }
}

} // verus!
