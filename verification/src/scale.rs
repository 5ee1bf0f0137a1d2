//! The SCALE encoding of the values that fraud proofs are made of.
//!
//! The byte layout is stated by spec functions. [`Encode`] ties every type of the library to its
//! layout, and carries the proof that the layout can be read back without ambiguity.

use vstd::prelude::*;

verus! {

/// The `width` low-order bytes of `n`, least significant byte first.
pub open spec fn le_bytes(n: nat, width: nat) -> Seq<u8>
    decreases width,
{
    if width == 0 {
        Seq::empty()
    } else {
        seq![(n % 256) as u8] + le_bytes(n / 256, (width - 1) as nat)
    }
}

/// The number of values that `width` bytes tell apart.
pub open spec fn byte_range(width: nat) -> nat
    decreases width,
{
    if width == 0 {
        1
    } else {
        256 * byte_range((width - 1) as nat)
    }
}

/// The compact encoding of a number that fits in 32 bits.
///
/// The two low-order bits of the first byte tell how many bytes follow; each number has the
/// shortest of the four forms that holds it.
pub open spec fn compact(n: nat) -> Seq<u8> {
    if n < 0x40 {
        le_bytes(4 * n, 1)
    } else if n < 0x4000 {
        le_bytes(4 * n + 1, 2)
    } else if n < 0x4000_0000 {
        le_bytes(4 * n + 2, 4)
    } else {
        seq![3u8] + le_bytes(n, 4)
    }
}

/// The encoding of a byte string: its length in compact form, then its bytes.
pub open spec fn bytes_encoding(bytes: Seq<u8>) -> Seq<u8> {
    compact(bytes.len()) + bytes
}

/// Whether a collection of this length can be encoded: its length has to fit in 32 bits.
pub open spec fn length_fits(len: nat) -> bool {
    len <= u32::MAX
}

pub proof fn lemma_le_bytes_len(n: nat, width: nat)
    ensures
        le_bytes(n, width).len() == width,
    decreases width,
{
    if width > 0 {
        lemma_le_bytes_len(n / 256, (width - 1) as nat);
    }
}

/// Numbers below the range of their width are told apart by their bytes, whatever follows them.
pub proof fn lemma_le_bytes_prefix_free(a: nat, b: nat, width: nat, s: Seq<u8>, t: Seq<u8>)
    requires
        a < byte_range(width),
        b < byte_range(width),
        le_bytes(a, width) + s == le_bytes(b, width) + t,
    ensures
        a == b,
        s == t,
    decreases width,
{
    if width == 0 {
        assert(le_bytes(a, width) + s =~= s);
        assert(le_bytes(b, width) + t =~= t);
    } else {
        let rest = (width - 1) as nat;
        let left = le_bytes(a, width) + s;
        let right = le_bytes(b, width) + t;
        assert(left[0] == (a % 256) as u8);
        assert(right[0] == (b % 256) as u8);
        assert(left.skip(1) =~= le_bytes(a / 256, rest) + s);
        assert(right.skip(1) =~= le_bytes(b / 256, rest) + t);
        lemma_le_bytes_prefix_free(a / 256, b / 256, rest, s, t);
    }
}

/// Two numbers with the same compact encoding are equal, whatever follows the encodings.
pub proof fn lemma_compact_prefix_free(a: nat, b: nat, s: Seq<u8>, t: Seq<u8>)
    requires
        length_fits(a),
        length_fits(b),
        compact(a) + s == compact(b) + t,
    ensures
        a == b,
        s == t,
{
    reveal_with_fuel(byte_range, 5);
    lemma_compact_mode(a, s);
    lemma_compact_mode(b, t);
    if a < 0x40 {
        lemma_le_bytes_prefix_free(4 * a, 4 * b, 1, s, t);
    } else if a < 0x4000 {
        lemma_le_bytes_prefix_free(4 * a + 1, 4 * b + 1, 2, s, t);
    } else if a < 0x4000_0000 {
        lemma_le_bytes_prefix_free(4 * a + 2, 4 * b + 2, 4, s, t);
    } else {
        assert((compact(a) + s).skip(1) =~= le_bytes(a, 4) + s);
        assert((compact(b) + t).skip(1) =~= le_bytes(b, 4) + t);
        lemma_le_bytes_prefix_free(a, b, 4, s, t);
    }
}

/// The first byte of a compact encoding tells which of the four forms it has.
proof fn lemma_compact_mode(n: nat, s: Seq<u8>)
    requires
        length_fits(n),
    ensures
        (compact(n) + s).len() > 0,
        (compact(n) + s)[0] % 4 == (if n < 0x40 {
            0
        } else if n < 0x4000 {
            1
        } else if n < 0x4000_0000 {
            2
        } else {
            3int
        }),
{
    lemma_le_bytes_len(4 * n, 1);
    lemma_le_bytes_len(4 * n + 1, 2);
    lemma_le_bytes_len(4 * n + 2, 4);
}

/// Two byte strings with the same encoding are equal, whatever follows the encodings.
pub proof fn lemma_bytes_prefix_free(a: Seq<u8>, b: Seq<u8>, s: Seq<u8>, t: Seq<u8>)
    requires
        length_fits(a.len()),
        length_fits(b.len()),
        bytes_encoding(a) + s == bytes_encoding(b) + t,
    ensures
        a == b,
        s == t,
{
    assert(bytes_encoding(a) + s =~= compact(a.len()) + (a + s));
    assert(bytes_encoding(b) + t =~= compact(b.len()) + (b + t));
    lemma_compact_prefix_free(a.len(), b.len(), a + s, b + t);
    lemma_concat_prefix_free(a, b, s, t);
}

/// Sequences of equal length are told apart, whatever follows them.
pub proof fn lemma_concat_prefix_free(a: Seq<u8>, b: Seq<u8>, s: Seq<u8>, t: Seq<u8>)
    requires
        a.len() == b.len(),
        a + s == b + t,
    ensures
        a == b,
        s == t,
{
    let n = a.len() as int;
    assert((a + s).take(n) =~= a);
    assert((b + t).take(n) =~= b);
    assert((a + s).skip(n) =~= s);
    assert((b + t).skip(n) =~= t);
}

/// A value with a SCALE encoding.
pub trait Encode: Sized {
    /// Whether no collection in the value is too long to be encoded.
    spec fn encodable(&self) -> bool;

    /// The bytes that the value is encoded to.
    spec fn encoding(&self) -> Seq<u8>;

    /// Whether two values hold the same contents.
    spec fn same(&self, other: &Self) -> bool;

    /// Encodings can be read back: values with different contents have encodings of which none
    /// is a prefix of the other, so the rest of the input is fixed too.
    proof fn lemma_prefix_free(a: &Self, b: &Self, s: Seq<u8>, t: Seq<u8>)
        requires
            a.encodable(),
            b.encodable(),
            a.encoding() + s == b.encoding() + t,
        ensures
            a.same(b),
            s == t,
    ;

    /// The encoding depends on the contents alone.
    proof fn lemma_same_encoding(a: &Self, b: &Self)
        requires
            a.same(b),
        ensures
            a.encodable() == b.encodable(),
            a.encoding() == b.encoding(),
    ;

    /// Tells whether the value can be encoded.
    fn is_encodable(&self) -> (fits: bool)
        ensures
            fits == self.encodable(),
    ;

    /// Appends the encoding of the value to `out`.
    fn encode_to(&self, out: &mut Vec<u8>)
        requires
            self.encodable(),
        ensures
            final(out)@ == old(out)@ + self.encoding(),
    ;

    /// Returns the encoding of the value.
    fn encode(&self) -> (bytes: Vec<u8>)
        requires
            self.encodable(),
        ensures
            bytes@ == self.encoding(),
    {
        let mut bytes: Vec<u8> = Vec::new();
        self.encode_to(&mut bytes);
        bytes
    }
}

/// The encodings of `items`, one after the other.
pub open spec fn items_encoding<T: Encode>(items: Seq<T>) -> Seq<u8>
    decreases items.len(),
{
    if items.len() == 0 {
        Seq::empty()
    } else {
        items[0].encoding() + items_encoding(items.skip(1))
    }
}

/// The encoding of a list: its length in compact form, then its items.
pub open spec fn list_encoding<T: Encode>(items: Seq<T>) -> Seq<u8> {
    compact(items.len()) + items_encoding(items)
}

/// Whether the list and all of its items can be encoded.
pub open spec fn list_encodable<T: Encode>(items: Seq<T>) -> bool {
    &&& length_fits(items.len())
    &&& forall|i: int| 0 <= i < items.len() ==> (#[trigger] items[i]).encodable()
}

/// Whether two lists have the same length and, place by place, the same contents.
pub open spec fn list_same<T: Encode>(a: Seq<T>, b: Seq<T>) -> bool {
    &&& a.len() == b.len()
    &&& forall|i: int| 0 <= i < a.len() ==> (#[trigger] a[i]).same(&b[i])
}

proof fn lemma_items_prefix_free<T: Encode>(a: Seq<T>, b: Seq<T>, s: Seq<u8>, t: Seq<u8>)
    requires
        a.len() == b.len(),
        forall|i: int| 0 <= i < a.len() ==> (#[trigger] a[i]).encodable(),
        forall|i: int| 0 <= i < b.len() ==> (#[trigger] b[i]).encodable(),
        items_encoding(a) + s == items_encoding(b) + t,
    ensures
        list_same(a, b),
        s == t,
    decreases a.len(),
{
    if a.len() == 0 {
        assert(items_encoding(a) + s =~= s);
        assert(items_encoding(b) + t =~= t);
    } else {
        let ra = a.skip(1);
        let rb = b.skip(1);
        assert(items_encoding(a) + s =~= a[0].encoding() + (items_encoding(ra) + s));
        assert(items_encoding(b) + t =~= b[0].encoding() + (items_encoding(rb) + t));
        T::lemma_prefix_free(&a[0], &b[0], items_encoding(ra) + s, items_encoding(rb) + t);
        lemma_items_prefix_free(ra, rb, s, t);
        assert forall|i: int| 0 <= i < a.len() implies (#[trigger] a[i]).same(&b[i]) by {
            if i > 0 {
                assert(ra[i - 1].same(&rb[i - 1]));
            }
        }
    }
}

/// Two lists with the same encoding hold the same contents, whatever follows the encodings.
pub proof fn lemma_list_prefix_free<T: Encode>(a: Seq<T>, b: Seq<T>, s: Seq<u8>, t: Seq<u8>)
    requires
        list_encodable(a),
        list_encodable(b),
        list_encoding(a) + s == list_encoding(b) + t,
    ensures
        list_same(a, b),
        s == t,
{
    assert(list_encoding(a) + s =~= compact(a.len()) + (items_encoding(a) + s));
    assert(list_encoding(b) + t =~= compact(b.len()) + (items_encoding(b) + t));
    lemma_compact_prefix_free(a.len(), b.len(), items_encoding(a) + s, items_encoding(b) + t);
    lemma_items_prefix_free(a, b, s, t);
}

proof fn lemma_items_same_encoding<T: Encode>(a: Seq<T>, b: Seq<T>)
    requires
        list_same(a, b),
    ensures
        items_encoding(a) == items_encoding(b),
    decreases a.len(),
{
    if a.len() > 0 {
        let ra = a.skip(1);
        let rb = b.skip(1);
        assert(a[0].same(&b[0]));
        T::lemma_same_encoding(&a[0], &b[0]);
        assert forall|i: int| 0 <= i < ra.len() implies (#[trigger] ra[i]).same(&rb[i]) by {
            assert(a[i + 1].same(&b[i + 1]));
        }
        lemma_items_same_encoding(ra, rb);
    }
}

/// The encoding of a list depends on the contents of its items alone.
pub proof fn lemma_list_same_encoding<T: Encode>(a: Seq<T>, b: Seq<T>)
    requires
        list_same(a, b),
    ensures
        list_encodable(a) == list_encodable(b),
        list_encoding(a) == list_encoding(b),
{
    lemma_items_same_encoding(a, b);
    assert forall|i: int| 0 <= i < a.len() implies (#[trigger] a[i]).encodable()
        == b[i].encodable() by {
        assert(a[i].same(&b[i]));
        T::lemma_same_encoding(&a[i], &b[i]);
    }
    if list_encodable(a) {
        assert forall|i: int| 0 <= i < b.len() implies (#[trigger] b[i]).encodable() by {
            assert(a[i].encodable());
        }
    }
}

/// Tells whether a list of this length can be encoded.
pub fn is_length_encodable(len: usize) -> (fits: bool)
    ensures
        fits == length_fits(len as nat),
        fits <==> len <= u32::MAX,
{
    len as u64 <= u32::MAX as u64
}

/// Tells whether the list and all of its items can be encoded.
pub fn is_list_encodable<T: Encode>(items: &Vec<T>) -> (fits: bool)
    ensures
        fits == list_encodable(items@),
{
    if !is_length_encodable(items.len()) {
        return false;
    }
    let mut i: usize = 0;
    while i < items.len()
        invariant
            i <= items.len(),
            forall|j: int| 0 <= j < i ==> (#[trigger] items@[j]).encodable(),
        decreases items.len() - i,
    {
        if !items[i].is_encodable() {
            return false;
        }
        i += 1;
    }
    true
}

/// Appends the encoding of the list to `out`.
pub fn encode_list_to<T: Encode>(items: &Vec<T>, out: &mut Vec<u8>)
    requires
        list_encodable(items@),
    ensures
        final(out)@ == old(out)@ + list_encoding(items@),
{
    let ghost before = out@;
    let mut head = encode_compact(items.len() as u32);
    out.append(&mut head);
    let ghost start = out@;
    let mut i: usize = 0;
    proof {
        assert(items@.skip(0) =~= items@);
    }
    while i < items.len()
        invariant
            i <= items.len(),
            list_encodable(items@),
            out@ + items_encoding(items@.skip(i as int)) =~= start + items_encoding(items@),
        decreases items.len() - i,
    {
        let ghost here = out@;
        items[i].encode_to(out);
        proof {
            let rest = items@.skip(i as int);
            assert(rest[0] == items@[i as int]);
            assert(rest.skip(1) =~= items@.skip(i + 1));
            assert(here + (rest[0].encoding() + items_encoding(rest.skip(1))) =~= out@
                + items_encoding(items@.skip(i + 1)));
        }
        i += 1;
    }
    proof {
        assert(items@.skip(i as int).len() == 0);
        assert(out@ =~= start + items_encoding(items@));
        assert(out@ =~= before + list_encoding(items@));
    }
}

/// Calls `parity_scale_codec::Compact::<u32>::encode`.
///
/// Claimed of it: the result is the compact encoding of `n`.
#[verifier::external_body]
pub(crate) fn encode_compact(n: u32) -> (bytes: Vec<u8>)
    ensures
        bytes@ == compact(n as nat),
{
    parity_scale_codec::Encode::encode(&parity_scale_codec::Compact(n))
}

/// Calls `parity_scale_codec::Encode::encode` on a `u32`.
///
/// Claimed of it: the result is the four bytes of `n`, least significant byte first.
#[verifier::external_body]
fn encode_u32(n: u32) -> (bytes: Vec<u8>)
    ensures
        bytes@ == le_bytes(n as nat, 4),
{
    parity_scale_codec::Encode::encode(&n)
}

/// Calls `parity_scale_codec::Encode::encode` on a `u64`.
///
/// Claimed of it: the result is the eight bytes of `n`, least significant byte first.
#[verifier::external_body]
fn encode_u64(n: u64) -> (bytes: Vec<u8>)
    ensures
        bytes@ == le_bytes(n as nat, 8),
{
    parity_scale_codec::Encode::encode(&n)
}

/// Calls `parity_scale_codec::Encode::encode` on a `Vec<u8>`, which panics if the length does not
/// fit in 32 bits.
///
/// Claimed of it: the result is the compact length of `bytes`, then `bytes`.
#[verifier::external_body]
fn encode_byte_string(bytes: &Vec<u8>) -> (encoded: Vec<u8>)
    requires
        length_fits(bytes@.len()),
    ensures
        encoded@ == bytes_encoding(bytes@),
{
    parity_scale_codec::Encode::encode(bytes)
}

/// A decoding error of `parity_scale_codec`.
#[verifier::external_type_specification]
#[verifier::external_body]
pub struct ExCodecError(parity_scale_codec::Error);

/// Whether `input` starts with the encoding of the byte string `bytes`.
pub open spec fn reads_bytes(input: Seq<u8>, bytes: Seq<u8>) -> bool {
    length_fits(bytes.len()) && bytes_encoding(bytes).is_prefix_of(input)
}

/// At most one byte string can be read from the start of an input.
pub proof fn lemma_reads_one_byte_string(input: Seq<u8>, a: Seq<u8>, b: Seq<u8>)
    requires
        reads_bytes(input, a),
        reads_bytes(input, b),
    ensures
        a == b,
{
    let s = input.skip(bytes_encoding(a).len() as int);
    let t = input.skip(bytes_encoding(b).len() as int);
    assert(bytes_encoding(a) + s =~= input);
    assert(bytes_encoding(b) + t =~= input);
    lemma_bytes_prefix_free(a, b, s, t);
}

/// The error of `parity_scale_codec::Decode::decode` for a `Vec<u8>` on an input from which no byte
/// string can be read.
pub uninterp spec fn byte_string_error(input: Seq<u8>) -> parity_scale_codec::Error;

/// Calls `parity_scale_codec::Decode::decode` for a `Vec<u8>`. What follows the byte string in the
/// input is left unread.
///
/// Claimed of it: it succeeds if and only if the input starts with the encoding of some byte
/// string, and then returns that string; otherwise its error depends on the input alone.
#[verifier::external_body]
pub(crate) fn decode_byte_string(input: &Vec<u8>) -> (decoded: Result<
    Vec<u8>,
    parity_scale_codec::Error,
>)
    ensures
        match decoded {
            Ok(bytes) => reads_bytes(input@, bytes@),
            Err(error) => error == byte_string_error(input@) && forall|other: Seq<u8>|
                !reads_bytes(input@, other),
        },
{
    <Vec<u8> as parity_scale_codec::Decode>::decode(&mut input.as_slice())
}

impl Encode for u32 {
    open spec fn encodable(&self) -> bool {
        true
    }

    open spec fn encoding(&self) -> Seq<u8> {
        le_bytes(*self as nat, 4)
    }

    open spec fn same(&self, other: &Self) -> bool {
        *self == *other
    }

    proof fn lemma_prefix_free(a: &Self, b: &Self, s: Seq<u8>, t: Seq<u8>) {
        reveal_with_fuel(byte_range, 5);
        lemma_le_bytes_prefix_free(*a as nat, *b as nat, 4, s, t);
    }

    proof fn lemma_same_encoding(a: &Self, b: &Self) {
    }

    fn is_encodable(&self) -> (fits: bool) {
        true
    }

    fn encode_to(&self, out: &mut Vec<u8>) {
        let mut bytes = encode_u32(*self);
        out.append(&mut bytes);
    }
}

impl Encode for u64 {
    open spec fn encodable(&self) -> bool {
        true
    }

    open spec fn encoding(&self) -> Seq<u8> {
        le_bytes(*self as nat, 8)
    }

    open spec fn same(&self, other: &Self) -> bool {
        *self == *other
    }

    proof fn lemma_prefix_free(a: &Self, b: &Self, s: Seq<u8>, t: Seq<u8>) {
        reveal_with_fuel(byte_range, 9);
        lemma_le_bytes_prefix_free(*a as nat, *b as nat, 8, s, t);
    }

    proof fn lemma_same_encoding(a: &Self, b: &Self) {
    }

    fn is_encodable(&self) -> (fits: bool) {
        true
    }

    fn encode_to(&self, out: &mut Vec<u8>) {
        let mut bytes = encode_u64(*self);
        out.append(&mut bytes);
    }
}

impl Encode for bool {
    open spec fn encodable(&self) -> bool {
        true
    }

    open spec fn encoding(&self) -> Seq<u8> {
        seq![if *self { 1u8 } else { 0u8 }]
    }

    open spec fn same(&self, other: &Self) -> bool {
        *self == *other
    }

    proof fn lemma_prefix_free(a: &Self, b: &Self, s: Seq<u8>, t: Seq<u8>) {
        lemma_concat_prefix_free(a.encoding(), b.encoding(), s, t);
        assert(a.encoding()[0] == b.encoding()[0]);
    }

    proof fn lemma_same_encoding(a: &Self, b: &Self) {
    }

    fn is_encodable(&self) -> (fits: bool) {
        true
    }

    fn encode_to(&self, out: &mut Vec<u8>) {
        out.push(
            if *self {
                1u8
            } else {
                0u8
            },
        );
        assert(out@ =~= old(out)@ + self.encoding());
    }
}

impl Encode for Vec<u8> {
    open spec fn encodable(&self) -> bool {
        length_fits(self@.len())
    }

    open spec fn encoding(&self) -> Seq<u8> {
        bytes_encoding(self@)
    }

    open spec fn same(&self, other: &Self) -> bool {
        self@ == other@
    }

    proof fn lemma_prefix_free(a: &Self, b: &Self, s: Seq<u8>, t: Seq<u8>) {
        lemma_bytes_prefix_free(a@, b@, s, t);
    }

    proof fn lemma_same_encoding(a: &Self, b: &Self) {
    }

    fn is_encodable(&self) -> (fits: bool) {
        is_length_encodable(self.len())
    }

    fn encode_to(&self, out: &mut Vec<u8>) {
        let mut bytes = encode_byte_string(self);
        out.append(&mut bytes);
    }
}

/// Reads the first of several parts: encodings that agree as a whole agree in their first part and
/// in what follows it.
pub proof fn lemma_first_part<T: Encode>(
    a: &T,
    b: &T,
    rest_a: Seq<u8>,
    rest_b: Seq<u8>,
    s: Seq<u8>,
    t: Seq<u8>,
)
    requires
        a.encodable(),
        b.encodable(),
        (a.encoding() + rest_a) + s == (b.encoding() + rest_b) + t,
    ensures
        a.same(b),
        rest_a + s == rest_b + t,
{
    assert((a.encoding() + rest_a) + s =~= a.encoding() + (rest_a + s));
    assert((b.encoding() + rest_b) + t =~= b.encoding() + (rest_b + t));
    T::lemma_prefix_free(a, b, rest_a + s, rest_b + t);
}

impl Encode for Vec<Vec<u8>> {
    open spec fn encodable(&self) -> bool {
        list_encodable(self@)
    }

    open spec fn encoding(&self) -> Seq<u8> {
        list_encoding(self@)
    }

    open spec fn same(&self, other: &Self) -> bool {
        list_same(self@, other@)
    }

    proof fn lemma_prefix_free(a: &Self, b: &Self, s: Seq<u8>, t: Seq<u8>) {
        lemma_list_prefix_free(a@, b@, s, t);
    }

    proof fn lemma_same_encoding(a: &Self, b: &Self) {
        lemma_list_same_encoding(a@, b@);
    }

    fn is_encodable(&self) -> (fits: bool) {
        is_list_encodable(self)
    }

    fn encode_to(&self, out: &mut Vec<u8>) {
        encode_list_to(self, out);
    }
}

impl<T: Encode> Encode for Option<T> {
    open spec fn encodable(&self) -> bool {
        match self {
            Some(value) => value.encodable(),
            None => true,
        }
    }

    open spec fn encoding(&self) -> Seq<u8> {
        match self {
            Some(value) => seq![1u8] + value.encoding(),
            None => seq![0u8],
        }
    }

    open spec fn same(&self, other: &Self) -> bool {
        match (self, other) {
            (Some(a), Some(b)) => a.same(b),
            (None, None) => true,
            _ => false,
        }
    }

    proof fn lemma_prefix_free(a: &Self, b: &Self, s: Seq<u8>, t: Seq<u8>) {
        let left = a.encoding() + s;
        let right = b.encoding() + t;
        assert(left[0] == if a is Some { 1u8 } else { 0u8 });
        assert(right[0] == if b is Some { 1u8 } else { 0u8 });
        match (a, b) {
            (Some(x), Some(y)) => {
                assert(left.skip(1) =~= x.encoding() + s);
                assert(right.skip(1) =~= y.encoding() + t);
                T::lemma_prefix_free(x, y, s, t);
            },
            _ => {
                assert(left.skip(1) =~= s);
                assert(right.skip(1) =~= t);
            },
        }
    }

    proof fn lemma_same_encoding(a: &Self, b: &Self) {
        match (a, b) {
            (Some(x), Some(y)) => {
                T::lemma_same_encoding(x, y);
            },
            _ => {},
        }
    }

    fn is_encodable(&self) -> (fits: bool) {
        match self {
            Some(value) => value.is_encodable(),
            None => true,
        }
    }

    fn encode_to(&self, out: &mut Vec<u8>) {
        match self {
            Some(value) => {
                out.push(1u8);
                value.encode_to(out);
            },
            None => {
                out.push(0u8);
            },
        }
        assert(out@ =~= old(out)@ + self.encoding());
    }
}

impl<A: Encode, B: Encode> Encode for (A, B) {
    open spec fn encodable(&self) -> bool {
        self.0.encodable() && self.1.encodable()
    }

    open spec fn encoding(&self) -> Seq<u8> {
        self.0.encoding() + self.1.encoding()
    }

    open spec fn same(&self, other: &Self) -> bool {
        self.0.same(&other.0) && self.1.same(&other.1)
    }

    proof fn lemma_prefix_free(a: &Self, b: &Self, s: Seq<u8>, t: Seq<u8>) {
        lemma_first_part(&a.0, &b.0, a.1.encoding(), b.1.encoding(), s, t);
        B::lemma_prefix_free(&a.1, &b.1, s, t);
    }

    proof fn lemma_same_encoding(a: &Self, b: &Self) {
        A::lemma_same_encoding(&a.0, &b.0);
        B::lemma_same_encoding(&a.1, &b.1);
    }

    fn is_encodable(&self) -> (fits: bool) {
        self.0.is_encodable() && self.1.is_encodable()
    }

    fn encode_to(&self, out: &mut Vec<u8>) {
        self.0.encode_to(out);
        self.1.encode_to(out);
        assert(out@ =~= old(out)@ + self.encoding());
    }
}

} // verus!
