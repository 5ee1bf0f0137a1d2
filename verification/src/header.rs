//! The headers of domain blocks.

use vstd::prelude::*;

use crate::primitives::H256;
#[allow(unused_imports)]
use crate::scale::{
    bytes_encoding, compact, lemma_bytes_prefix_free, lemma_compact_prefix_free,
    lemma_concat_prefix_free, length_fits,
};

verus! {

/// An entry of the digest of a header.
#[derive(Debug, Clone, PartialEq, Eq)]
pub enum DigestItem {
    /// A message from the consensus engine to the runtime.
    PreRuntime([u8; 4], Vec<u8>),
    /// A message from the runtime to the consensus engine.
    Consensus([u8; 4], Vec<u8>),
    /// A seal that was put on the header.
    Seal([u8; 4], Vec<u8>),
    /// Some other thing.
    Other(Vec<u8>),
    /// The execution environment of the runtime was updated.
    RuntimeEnvironmentUpdated,
}

/// An entry of the digest of a header, as the bytes that it holds.
pub enum Log {
    PreRuntime(Seq<u8>, Seq<u8>),
    Consensus(Seq<u8>, Seq<u8>),
    Seal(Seq<u8>, Seq<u8>),
    Other(Seq<u8>),
    RuntimeEnvironmentUpdated,
}

impl View for DigestItem {
    type V = Log;

    open spec fn view(&self) -> Log {
        match self {
            DigestItem::PreRuntime(engine, data) => Log::PreRuntime(engine@, data@),
            DigestItem::Consensus(engine, data) => Log::Consensus(engine@, data@),
            DigestItem::Seal(engine, data) => Log::Seal(engine@, data@),
            DigestItem::Other(data) => Log::Other(data@),
            DigestItem::RuntimeEnvironmentUpdated => Log::RuntimeEnvironmentUpdated,
        }
    }
}

impl Log {
    /// Whether the entry has an engine identifier of four bytes where it has one, and data that is
    /// not too long to be encoded.
    pub open spec fn encodable(self) -> bool {
        match self {
            Log::PreRuntime(engine, data) => engine.len() == 4 && length_fits(data.len()),
            Log::Consensus(engine, data) => engine.len() == 4 && length_fits(data.len()),
            Log::Seal(engine, data) => engine.len() == 4 && length_fits(data.len()),
            Log::Other(data) => length_fits(data.len()),
            Log::RuntimeEnvironmentUpdated => true,
        }
    }

    /// The encoding of the entry: a byte for its kind, then what it holds.
    pub open spec fn encoding(self) -> Seq<u8> {
        match self {
            Log::Other(data) => seq![0u8] + bytes_encoding(data),
            Log::Consensus(engine, data) => seq![4u8] + engine + bytes_encoding(data),
            Log::Seal(engine, data) => seq![5u8] + engine + bytes_encoding(data),
            Log::PreRuntime(engine, data) => seq![6u8] + engine + bytes_encoding(data),
            Log::RuntimeEnvironmentUpdated => seq![8u8],
        }
    }
}

/// The encodings of `logs`, one after the other.
pub open spec fn joined_logs(logs: Seq<Log>) -> Seq<u8>
    decreases logs.len(),
{
    if logs.len() == 0 {
        Seq::empty()
    } else {
        logs[0].encoding() + joined_logs(logs.skip(1))
    }
}

/// What the header of a domain block says.
pub struct HeaderModel {
    pub parent_hash: Seq<u8>,
    pub number: u32,
    pub state_root: Seq<u8>,
    pub extrinsics_root: Seq<u8>,
    pub logs: Seq<Log>,
}

impl HeaderModel {
    /// Whether the hashes have 32 bytes each and the digest can be encoded.
    pub open spec fn encodable(self) -> bool {
        &&& self.parent_hash.len() == 32
        &&& self.state_root.len() == 32
        &&& self.extrinsics_root.len() == 32
        &&& length_fits(self.logs.len())
        &&& forall|i: int| 0 <= i < self.logs.len() ==> (#[trigger] self.logs[i]).encodable()
    }

    /// The encoding of the header.
    pub open spec fn encoding(self) -> Seq<u8> {
        self.parent_hash + (compact(self.number as nat) + (self.state_root + (self.extrinsics_root
            + (compact(self.logs.len()) + joined_logs(self.logs)))))
    }
}

/// Whether `input` starts with the encoding of `header`.
pub open spec fn reads_header(input: Seq<u8>, header: HeaderModel) -> bool {
    header.encodable() && header.encoding().is_prefix_of(input)
}

impl HeaderModel {
    /// What stands behind the state root in the encoding of the header.
    spec fn tail(self) -> Seq<u8> {
        self.extrinsics_root + (compact(self.logs.len()) + joined_logs(self.logs))
    }

    proof fn lemma_split_encoding(self, rest: Seq<u8>)
        ensures
            self.encoding() + rest == self.parent_hash + (compact(self.number as nat) + (
            self.state_root + (self.tail() + rest))),
    {
        let from_root = self.state_root + self.tail();
        let from_number = compact(self.number as nat) + from_root;
        assert(self.encoding() == self.parent_hash + from_number);
        assert(from_root + rest =~= self.state_root + (self.tail() + rest));
        assert(from_number + rest =~= compact(self.number as nat) + (from_root + rest));
        assert(self.encoding() + rest =~= self.parent_hash + (from_number + rest));
    }
}

impl Log {
    /// The first byte of the encoding, which tells the kind of the entry.
    spec fn kind(self) -> u8 {
        match self {
            Log::Other(_) => 0,
            Log::Consensus(_, _) => 4,
            Log::Seal(_, _) => 5,
            Log::PreRuntime(_, _) => 6,
            Log::RuntimeEnvironmentUpdated => 8,
        }
    }

    /// What stands behind the first byte of the encoding.
    spec fn body(self) -> Seq<u8> {
        match self {
            Log::Other(data) => bytes_encoding(data),
            Log::Consensus(engine, data) => engine + bytes_encoding(data),
            Log::Seal(engine, data) => engine + bytes_encoding(data),
            Log::PreRuntime(engine, data) => engine + bytes_encoding(data),
            Log::RuntimeEnvironmentUpdated => Seq::empty(),
        }
    }

    /// Entries with the same encoding are equal, whatever follows the encodings.
    pub proof fn lemma_prefix_free(a: Log, b: Log, s: Seq<u8>, t: Seq<u8>)
        requires
            a.encodable(),
            b.encodable(),
            a.encoding() + s == b.encoding() + t,
        ensures
            a == b,
            s == t,
    {
        assert(a.encoding() =~= seq![a.kind()] + a.body());
        assert(b.encoding() =~= seq![b.kind()] + b.body());
        let left = a.encoding() + s;
        let right = b.encoding() + t;
        assert(left[0] == a.kind());
        assert(right[0] == b.kind());
        assert(left.skip(1) =~= a.body() + s);
        assert(right.skip(1) =~= b.body() + t);
        match (a, b) {
            (Log::Other(x), Log::Other(y)) => {
                lemma_bytes_prefix_free(x, y, s, t);
            },
            (Log::Consensus(i, x), Log::Consensus(j, y)) => {
                lemma_engine_and_data(i, j, x, y, s, t);
            },
            (Log::Seal(i, x), Log::Seal(j, y)) => {
                lemma_engine_and_data(i, j, x, y, s, t);
            },
            (Log::PreRuntime(i, x), Log::PreRuntime(j, y)) => {
                lemma_engine_and_data(i, j, x, y, s, t);
            },
            _ => {
                assert(a.body() + s =~= s);
                assert(b.body() + t =~= t);
            },
        }
    }
}

proof fn lemma_engine_and_data(
    i: Seq<u8>,
    j: Seq<u8>,
    x: Seq<u8>,
    y: Seq<u8>,
    s: Seq<u8>,
    t: Seq<u8>,
)
    requires
        i.len() == j.len(),
        length_fits(x.len()),
        length_fits(y.len()),
        (i + bytes_encoding(x)) + s == (j + bytes_encoding(y)) + t,
    ensures
        i == j,
        x == y,
        s == t,
{
    assert((i + bytes_encoding(x)) + s =~= i + (bytes_encoding(x) + s));
    assert((j + bytes_encoding(y)) + t =~= j + (bytes_encoding(y) + t));
    lemma_concat_prefix_free(i, j, bytes_encoding(x) + s, bytes_encoding(y) + t);
    lemma_bytes_prefix_free(x, y, s, t);
}

proof fn lemma_joined_logs_prefix_free(a: Seq<Log>, b: Seq<Log>, s: Seq<u8>, t: Seq<u8>)
    requires
        a.len() == b.len(),
        forall|i: int| 0 <= i < a.len() ==> (#[trigger] a[i]).encodable(),
        forall|i: int| 0 <= i < b.len() ==> (#[trigger] b[i]).encodable(),
        joined_logs(a) + s == joined_logs(b) + t,
    ensures
        a == b,
        s == t,
    decreases a.len(),
{
    if a.len() == 0 {
        assert(joined_logs(a) + s =~= s);
        assert(joined_logs(b) + t =~= t);
        assert(a =~= b);
    } else {
        let ra = a.skip(1);
        let rb = b.skip(1);
        assert(joined_logs(a) + s =~= a[0].encoding() + (joined_logs(ra) + s));
        assert(joined_logs(b) + t =~= b[0].encoding() + (joined_logs(rb) + t));
        Log::lemma_prefix_free(a[0], b[0], joined_logs(ra) + s, joined_logs(rb) + t);
        lemma_joined_logs_prefix_free(ra, rb, s, t);
        assert forall|i: int| 0 <= i < a.len() implies a[i] == b[i] by {
            if i > 0 {
                assert(ra[i - 1] == rb[i - 1]);
            }
        }
        assert(a =~= b);
    }
}

/// At most one header can be read from the start of an input.
pub proof fn lemma_reads_one_header(input: Seq<u8>, a: HeaderModel, b: HeaderModel)
    requires
        reads_header(input, a),
        reads_header(input, b),
    ensures
        a == b,
{
    let s = input.skip(a.encoding().len() as int);
    let t = input.skip(b.encoding().len() as int);
    assert(input =~= a.encoding() + s);
    assert(input =~= b.encoding() + t);
    a.lemma_split_encoding(s);
    b.lemma_split_encoding(t);
    let from_root_a = a.state_root + (a.tail() + s);
    let from_root_b = b.state_root + (b.tail() + t);
    let from_number_a = compact(a.number as nat) + from_root_a;
    let from_number_b = compact(b.number as nat) + from_root_b;
    lemma_concat_prefix_free(a.parent_hash, b.parent_hash, from_number_a, from_number_b);
    lemma_compact_prefix_free(a.number as nat, b.number as nat, from_root_a, from_root_b);
    lemma_concat_prefix_free(a.state_root, b.state_root, a.tail() + s, b.tail() + t);
    lemma_same_tail(a, b, s, t);
}

proof fn lemma_same_tail(a: HeaderModel, b: HeaderModel, s: Seq<u8>, t: Seq<u8>)
    requires
        a.encodable(),
        b.encodable(),
        a.tail() + s == b.tail() + t,
    ensures
        a.extrinsics_root == b.extrinsics_root,
        a.logs == b.logs,
{
    let logs_a = joined_logs(a.logs) + s;
    let logs_b = joined_logs(b.logs) + t;
    let count_a = compact(a.logs.len()) + logs_a;
    let count_b = compact(b.logs.len()) + logs_b;
    assert(a.tail() + s =~= a.extrinsics_root + count_a);
    assert(b.tail() + t =~= b.extrinsics_root + count_b);
    lemma_concat_prefix_free(a.extrinsics_root, b.extrinsics_root, count_a, count_b);
    lemma_compact_prefix_free(a.logs.len(), b.logs.len(), logs_a, logs_b);
    lemma_joined_logs_prefix_free(a.logs, b.logs, s, t);
}

/// The header of a domain block, without its digest.
#[derive(Debug, Clone, Copy, PartialEq, Eq)]
pub struct Header {
    /// The hash of the parent block.
    pub parent_hash: H256,
    /// The number of the block.
    pub number: u32,
    /// The root of the state trie after the block.
    pub state_root: H256,
    /// The root of the trie of the extrinsics of the block.
    pub extrinsics_root: H256,
}

impl Header {
    /// What the header says if `logs` are the entries of its digest.
    pub open spec fn with_logs(self, logs: Seq<Log>) -> HeaderModel {
        HeaderModel {
            parent_hash: self.parent_hash@,
            number: self.number,
            state_root: self.state_root@,
            extrinsics_root: self.extrinsics_root@,
            logs,
        }
    }
}

/// Builds a `sp_runtime::generic::Header` over `u32` and `BlakeTwo256` with one digest item, and
/// calls `parity_scale_codec::Encode::encode` on it, which panics if the data of the item is longer
/// than 32 bits can count. The hash function of the header plays no part in its encoding.
///
/// Claimed of it: the result is the encoding of the header with that one entry in its digest.
#[verifier::external_body]
pub(crate) fn encode_header(header: &Header, item: DigestItem) -> (bytes: Vec<u8>)
    requires
        item@.encodable(),
    ensures
        bytes@ == header.with_logs(seq![item@]).encoding(),
{
    let log = match item {
        DigestItem::PreRuntime(id, data) => sp_runtime::DigestItem::PreRuntime(id, data),
        DigestItem::Consensus(id, data) => sp_runtime::DigestItem::Consensus(id, data),
        DigestItem::Seal(id, data) => sp_runtime::DigestItem::Seal(id, data),
        DigestItem::Other(data) => sp_runtime::DigestItem::Other(data),
        DigestItem::RuntimeEnvironmentUpdated => sp_runtime::DigestItem::RuntimeEnvironmentUpdated,
    };
    parity_scale_codec::Encode::encode(&sp_runtime::generic::Header::<u32, sp_runtime::traits::BlakeTwo256> {
        parent_hash: header.parent_hash.0.into(),
        number: header.number,
        state_root: header.state_root.0.into(),
        extrinsics_root: header.extrinsics_root.0.into(),
        digest: sp_runtime::Digest { logs: vec![log] },
    })
}

/// The error of `parity_scale_codec::Decode::decode` for a `sp_runtime::generic::Header` over `u32`
/// and `BlakeTwo256` on an input from which no header can be read.
pub uninterp spec fn header_error(input: Seq<u8>) -> parity_scale_codec::Error;

/// Calls `parity_scale_codec::Decode::decode` for a `sp_runtime::generic::Header` over `u32` and
/// `BlakeTwo256`. The hash function of the header plays no part in its encoding, and what follows
/// the header in the input is left unread.
///
/// Claimed of it: it succeeds if and only if the input starts with the encoding of some header,
/// and then returns what that header says before its digest; otherwise its error depends on the
/// input alone.
#[verifier::external_body]
pub(crate) fn decode_header(input: &Vec<u8>) -> (decoded: Result<Header, parity_scale_codec::Error>)
    ensures
        match decoded {
            Ok(header) => exists|logs: Seq<Log>|
                reads_header(input@, #[trigger] header.with_logs(logs)),
            Err(error) => error == header_error(input@) && forall|other: HeaderModel|
                !reads_header(input@, other),
        },
{
    <sp_runtime::generic::Header<u32, sp_runtime::traits::BlakeTwo256> as parity_scale_codec::Decode>::decode(
        &mut input.as_slice(),
    ).map(
        |header| Header {
            parent_hash: H256(header.parent_hash.0),
            number: header.number,
            state_root: H256(header.state_root.0),
            extrinsics_root: H256(header.extrinsics_root.0),
        },
    )
}

} // verus!
