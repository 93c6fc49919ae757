//! The binary wire codec.
//!
//! Every value that crosses the connection boundary is encoded by the
//! [`Message`] trait: fixed-width little-endian integers, opaque 128-bit
//! identifiers as 16 raw bytes, text as an 8-byte little-endian length prefix
//! followed by UTF-8 bytes, optional values as a one-byte presence tag, and
//! each sum type as a one-byte discriminant (the variant's declaration-order
//! index) followed by its fields' encodings in declaration order.

use vstd::prelude::*;

verus! {

use vstd::bytes::{
    lemma_auto_spec_u64_to_from_le_bytes, lemma_auto_spec_u128_to_from_le_bytes,
    spec_u64_from_le_bytes, spec_u64_to_le_bytes, spec_u128_from_le_bytes, spec_u128_to_le_bytes,
    u64_from_le_bytes, u64_to_le_bytes, u128_from_le_bytes, u128_to_le_bytes,
};
use vstd::slice::{slice_subrange, slice_to_vec};
use vstd::string::StringSliceAdditionalSpecFns;
use vstd::utf8::{
    decode_utf8, decode_utf8_encode_utf8, encode_utf8, encode_utf8_decode_utf8,
    encode_utf8_valid_utf8, valid_utf8,
};

/// Whether a text value is small enough for its byte length to fit the wire
/// format's 8-byte length prefix. Every text held at run time satisfies this.
pub open spec fn text_len_ok(v: Seq<char>) -> bool {
    encode_utf8(v).len() <= u64::MAX
}

/// A value that crosses the connection boundary.
///
/// `Repr` is the mathematical shape of the value and `abs` the abstraction of
/// a concrete one; `wire` is the encoding of an abstract value and `parse` its
/// inverse. The two lemmas oblige every implementation to prove that the
/// format is unambiguous: parsing finds exactly the encoded value and
/// consumes exactly its bytes, so `decode` after `encode` returns the
/// original message.
pub trait Message: Sized {
    /// The mathematical value that the contracts speak of.
    type Repr;

    /// The abstraction of this concrete value.
    spec fn abs(&self) -> Self::Repr;

    /// The abstract values the codec covers; every run-time value of the
    /// type satisfies it.
    spec fn inv(v: Self::Repr) -> bool;

    /// The encoding of an abstract value.
    spec fn wire(v: Self::Repr) -> Seq<u8>;

    /// The value encoded at `pos` in `b`, with the position just after it.
    spec fn parse(b: Seq<u8>, pos: int) -> Option<(Self::Repr, int)>;

    /// A parsed value is covered and occupies exactly the bytes of its
    /// encoding.
    proof fn lemma_parse_sound(b: Seq<u8>, pos: int)
        requires
            0 <= pos <= b.len(),
        ensures
            Self::parse(b, pos) matches Some(r) ==> {
                &&& Self::inv(r.0)
                &&& pos <= r.1 <= b.len()
                &&& b.subrange(pos, r.1) == Self::wire(r.0)
            },
    ;

    /// Wherever an encoding sits, parsing finds exactly that value. Together
    /// with `lemma_parse_sound` this makes the format unambiguous and gives
    /// the round-trip law.
    proof fn lemma_parse_complete(v: Self::Repr, b: Seq<u8>, pos: int)
        requires
            Self::inv(v),
            0 <= pos,
            pos + Self::wire(v).len() <= b.len(),
            b.subrange(pos, pos + Self::wire(v).len() as int) == Self::wire(v),
        ensures
            Self::parse(b, pos) == Some((v, pos + Self::wire(v).len() as int)),
    ;

    /// Append this value's encoding to `buf`.
    fn encode(&self, buf: &mut Vec<u8>)
        requires
            Self::inv(self.abs()),
        ensures
            final(buf)@ == old(buf)@ + Self::wire(self.abs()),
    ;

    /// Read one value at `pos`, returning it with the position just after
    /// it, or `None` if no encoding of the type starts there.
    fn decode(bytes: &[u8], pos: usize) -> (r: Option<(Self, usize)>)
        requires
            pos <= bytes@.len(),
        ensures
            match r {
                Some(p) => {
                    &&& Self::parse(bytes@, pos as int) == Some((p.0.abs(), p.1 as int))
                    &&& pos <= p.1 <= bytes@.len()
                },
                None => Self::parse(bytes@, pos as int) is None,
            },
    ;
}

impl Message for u8 {
    type Repr = u8;

    open spec fn abs(&self) -> u8 {
        *self
    }

    open spec fn inv(v: u8) -> bool {
        true
    }

    open spec fn wire(v: u8) -> Seq<u8> {
        seq![v]
    }

    open spec fn parse(b: Seq<u8>, pos: int) -> Option<(u8, int)> {
        if pos + 1 <= b.len() {
            Some((b[pos], pos + 1))
        } else {
            None
        }
    }

    proof fn lemma_parse_sound(b: Seq<u8>, pos: int) {
        if pos + 1 <= b.len() {
            assert(b.subrange(pos, pos + 1) =~= seq![b[pos]]);
        }
    }

    proof fn lemma_parse_complete(v: u8, b: Seq<u8>, pos: int) {
        assert(b[pos] == b.subrange(pos, pos + 1)[0]);
    }

    fn encode(&self, buf: &mut Vec<u8>) {
        buf.push(*self);
        proof {
            assert(buf@ =~= old(buf)@ + seq![*self]);
        }
    }

    fn decode(bytes: &[u8], pos: usize) -> (r: Option<(Self, usize)>) {
        if pos < bytes.len() {
            Some((bytes[pos], pos + 1))
        } else {
            None
        }
    }
}

impl Message for u64 {
    type Repr = u64;

    open spec fn abs(&self) -> u64 {
        *self
    }

    open spec fn inv(v: u64) -> bool {
        true
    }

    open spec fn wire(v: u64) -> Seq<u8> {
        spec_u64_to_le_bytes(v)
    }

    open spec fn parse(b: Seq<u8>, pos: int) -> Option<(u64, int)> {
        if pos + 8 <= b.len() {
            Some((spec_u64_from_le_bytes(b.subrange(pos, pos + 8)), pos + 8))
        } else {
            None
        }
    }

    proof fn lemma_parse_sound(b: Seq<u8>, pos: int) {
        lemma_auto_spec_u64_to_from_le_bytes();
    }

    proof fn lemma_parse_complete(v: u64, b: Seq<u8>, pos: int) {
        lemma_auto_spec_u64_to_from_le_bytes();
    }

    fn encode(&self, buf: &mut Vec<u8>) {
        let bs = u64_to_le_bytes(*self);
        buf.extend_from_slice(bs.as_slice());
    }

    fn decode(bytes: &[u8], pos: usize) -> (r: Option<(Self, usize)>) {
        if bytes.len() - pos >= 8 {
            let s = slice_subrange(bytes, pos, pos + 8);
            Some((u64_from_le_bytes(s), pos + 8))
        } else {
            None
        }
    }
}

impl Message for u128 {
    type Repr = u128;

    open spec fn abs(&self) -> u128 {
        *self
    }

    open spec fn inv(v: u128) -> bool {
        true
    }

    open spec fn wire(v: u128) -> Seq<u8> {
        spec_u128_to_le_bytes(v)
    }

    open spec fn parse(b: Seq<u8>, pos: int) -> Option<(u128, int)> {
        if pos + 16 <= b.len() {
            Some((spec_u128_from_le_bytes(b.subrange(pos, pos + 16)), pos + 16))
        } else {
            None
        }
    }

    proof fn lemma_parse_sound(b: Seq<u8>, pos: int) {
        lemma_auto_spec_u128_to_from_le_bytes();
    }

    proof fn lemma_parse_complete(v: u128, b: Seq<u8>, pos: int) {
        lemma_auto_spec_u128_to_from_le_bytes();
    }

    fn encode(&self, buf: &mut Vec<u8>) {
        let bs = u128_to_le_bytes(*self);
        buf.extend_from_slice(bs.as_slice());
    }

    fn decode(bytes: &[u8], pos: usize) -> (r: Option<(Self, usize)>) {
        if bytes.len() - pos >= 16 {
            let s = slice_subrange(bytes, pos, pos + 16);
            Some((u128_from_le_bytes(s), pos + 16))
        } else {
            None
        }
    }
}

impl<T: Message> Message for Option<T> {
    type Repr = Option<T::Repr>;

    open spec fn abs(&self) -> Option<T::Repr> {
        match self {
            Some(x) => Some(x.abs()),
            None => None,
        }
    }

    open spec fn inv(v: Option<T::Repr>) -> bool {
        v matches Some(x) ==> T::inv(x)
    }

    open spec fn wire(v: Option<T::Repr>) -> Seq<u8> {
        match v {
            Some(x) => seq![0u8] + T::wire(x),
            None => seq![1u8],
        }
    }

    open spec fn parse(b: Seq<u8>, pos: int) -> Option<(Option<T::Repr>, int)> {
        if pos + 1 <= b.len() {
            if b[pos] == 0u8 {
                match T::parse(b, pos + 1) {
                    Some(r) => Some((Some(r.0), r.1)),
                    None => None,
                }
            } else if b[pos] == 1u8 {
                Some((None, pos + 1))
            } else {
                None
            }
        } else {
            None
        }
    }

    proof fn lemma_parse_sound(b: Seq<u8>, pos: int) {
        if pos + 1 <= b.len() {
            if b[pos] == 0u8 {
                T::lemma_parse_sound(b, pos + 1);
                if let Some(r) = T::parse(b, pos + 1) {
                    assert(b.subrange(pos, r.1) =~= seq![0u8] + b.subrange(pos + 1, r.1));
                }
            } else if b[pos] == 1u8 {
                assert(b.subrange(pos, pos + 1) =~= seq![1u8]);
            }
        }
    }

    proof fn lemma_parse_complete(v: Option<T::Repr>, b: Seq<u8>, pos: int) {
        let w = Self::wire(v);
        assert(w[0] == b[pos]) by {
            assert(b.subrange(pos, pos + w.len() as int)[0] == b[pos]);
        }
        match v {
            Some(x) => {
                assert(b[pos] == 0u8);
                assert(b.subrange(pos + 1, pos + w.len() as int) =~= T::wire(x)) by {
                    assert(forall|i: int|
                        0 <= i < T::wire(x).len() ==> #[trigger] b.subrange(
                            pos + 1,
                            pos + w.len() as int,
                        )[i] == b.subrange(pos, pos + w.len() as int)[i + 1]);
                }
                T::lemma_parse_complete(x, b, pos + 1);
            },
            None => {
                assert(b[pos] == 1u8);
            },
        }
    }

    fn encode(&self, buf: &mut Vec<u8>) {
        match self {
            Some(x) => {
                buf.push(0u8);
                x.encode(buf);
                proof {
                    assert(buf@ =~= old(buf)@ + (seq![0u8] + T::wire(x.abs())));
                }
            },
            None => {
                buf.push(1u8);
                proof {
                    assert(buf@ =~= old(buf)@ + seq![1u8]);
                }
            },
        }
    }

    fn decode(bytes: &[u8], pos: usize) -> (r: Option<(Self, usize)>) {
        if pos < bytes.len() {
            let tag = bytes[pos];
            if tag == 0u8 {
                match T::decode(bytes, pos + 1) {
                    Some(p) => Some((Some(p.0), p.1)),
                    None => None,
                }
            } else if tag == 1u8 {
                Some((None, pos + 1))
            } else {
                None
            }
        } else {
            None
        }
    }
}

impl Message for String {
    type Repr = Seq<char>;

    open spec fn abs(&self) -> Seq<char> {
        self@
    }

    open spec fn inv(v: Seq<char>) -> bool {
        text_len_ok(v)
    }

    open spec fn wire(v: Seq<char>) -> Seq<u8> {
        spec_u64_to_le_bytes(encode_utf8(v).len() as u64) + encode_utf8(v)
    }

    open spec fn parse(b: Seq<u8>, pos: int) -> Option<(Seq<char>, int)> {
        if pos + 8 <= b.len() {
            let n = spec_u64_from_le_bytes(b.subrange(pos, pos + 8)) as int;
            if pos + 8 + n <= b.len() && valid_utf8(b.subrange(pos + 8, pos + 8 + n)) {
                Some((decode_utf8(b.subrange(pos + 8, pos + 8 + n)), pos + 8 + n))
            } else {
                None
            }
        } else {
            None
        }
    }

    proof fn lemma_parse_sound(b: Seq<u8>, pos: int) {
        lemma_auto_spec_u64_to_from_le_bytes();
        if pos + 8 <= b.len() {
            let n = spec_u64_from_le_bytes(b.subrange(pos, pos + 8)) as int;
            let body = b.subrange(pos + 8, pos + 8 + n);
            if pos + 8 + n <= b.len() && valid_utf8(body) {
                decode_utf8_encode_utf8(body);
                assert(b.subrange(pos, pos + 8 + n) =~= b.subrange(pos, pos + 8) + body);
            }
        }
    }

    proof fn lemma_parse_complete(v: Seq<char>, b: Seq<u8>, pos: int) {
        lemma_auto_spec_u64_to_from_le_bytes();
        let w = Self::wire(v);
        let body = encode_utf8(v);
        let n = body.len() as int;
        assert(b.subrange(pos, pos + 8) =~= w.subrange(0, 8)) by {
            assert(forall|i: int|
                0 <= i < 8 ==> b.subrange(pos, pos + w.len() as int)[i] == #[trigger] b.subrange(
                    pos,
                    pos + 8,
                )[i]);
        }
        assert(w.subrange(0, 8) =~= spec_u64_to_le_bytes(n as u64));
        assert(b.subrange(pos + 8, pos + 8 + n) =~= body) by {
            assert(forall|i: int|
                0 <= i < n ==> b.subrange(pos, pos + w.len() as int)[i + 8] == #[trigger] b.subrange(
                    pos + 8,
                    pos + 8 + n,
                )[i]);
        }
        encode_utf8_valid_utf8(v);
        encode_utf8_decode_utf8(v);
    }

    fn encode(&self, buf: &mut Vec<u8>) {
        let bs = self.as_str().as_bytes();
        let n = bs.len() as u64;
        let len_bytes = u64_to_le_bytes(n);
        buf.extend_from_slice(len_bytes.as_slice());
        buf.extend_from_slice(bs);
        proof {
            assert(buf@ =~= old(buf)@ + (spec_u64_to_le_bytes(n) + encode_utf8(self@)));
        }
    }

    fn decode(bytes: &[u8], pos: usize) -> (r: Option<(Self, usize)>) {
        if bytes.len() - pos < 8 {
            return None;
        }
        let len_slice = slice_subrange(bytes, pos, pos + 8);
        let n64 = u64_from_le_bytes(len_slice);
        let rem = bytes.len() - (pos + 8);
        if n64 > rem as u64 {
            return None;
        }
        let n = n64 as usize;
        let body = slice_subrange(bytes, pos + 8, pos + 8 + n);
        let owned = slice_to_vec(body);
        match string_from_utf8(owned) {
            Some(s) => Some((s, pos + 8 + n)),
            None => None,
        }
    }
}

/// The round-trip law of the codec: for every covered value of every
/// message type, parsing the value's encoding — whatever bytes follow it —
/// yields exactly that value and consumes exactly its bytes, so a decode of
/// an encode returns the original message.
pub proof fn lemma_codec_round_trip<M: Message>(v: M::Repr, tail: Seq<u8>)
    requires
        M::inv(v),
    ensures
        M::parse(M::wire(v) + tail, 0) == Some((v, M::wire(v).len() as int)),
{
    let b = M::wire(v) + tail;
    assert(b.subrange(0, M::wire(v).len() as int) =~= M::wire(v));
    M::lemma_parse_complete(v, b, 0);
}

/// Splits knowledge about a stretch of buffer holding a concatenation into
/// knowledge about its two parts; the workhorse for parsing fields laid out
/// one after the other.
pub proof fn lemma_concat_split(b: Seq<u8>, pos: int, w1: Seq<u8>, w2: Seq<u8>)
    requires
        0 <= pos,
        pos + w1.len() + w2.len() <= b.len(),
        b.subrange(pos, pos + w1.len() + w2.len()) == w1 + w2,
    ensures
        b.subrange(pos, pos + w1.len() as int) == w1,
        b.subrange(pos + w1.len() as int, pos + w1.len() + w2.len()) == w2,
{
    let whole = b.subrange(pos, pos + w1.len() + w2.len());
    assert(b.subrange(pos, pos + w1.len() as int) =~= w1) by {
        assert(forall|i: int|
            0 <= i < w1.len() ==> #[trigger] b.subrange(pos, pos + w1.len() as int)[i]
                == whole[i]);
    }
    assert(b.subrange(pos + w1.len() as int, pos + w1.len() + w2.len()) =~= w2) by {
        assert(forall|i: int|
            0 <= i < w2.len() ==> #[trigger] b.subrange(
                pos + w1.len() as int,
                pos + w1.len() + w2.len(),
            )[i] == whole[i + w1.len()]);
    }
}

/// Relies on std's `String::from_utf8`: it succeeds exactly on valid UTF-8
/// input and returns the text those bytes encode.
#[verifier::external_body]
fn string_from_utf8(v: Vec<u8>) -> (r: Option<String>)
    ensures
        r matches Some(s) ==> valid_utf8(v@) && s@ == decode_utf8(v@),
        r is None ==> !valid_utf8(v@),
{
    String::from_utf8(v).ok()
}

} // verus!
