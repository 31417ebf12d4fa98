//! Core codec traits and the primitive carriers.
//!
//! Every wire type implements [`Encode`] and [`Decode`].  The contracts are
//! stated over deep views: `spec_enc` gives the canonical byte encoding of a
//! value, and `decode` returns exactly the values whose canonical encoding is
//! a prefix of the input.  Together they give both round-trip directions:
//! re-encoding a decoded buffer reproduces it, and decoding an encoded value
//! gives the value back.

use vstd::prelude::*;

use crate::leb::lemma_sleb_dec_enc;
use crate::leb::lemma_sleb_dec_sound;
use crate::leb::lemma_uleb_dec_enc;
use crate::leb::lemma_uleb_dec_sound;
use crate::leb::lemma_uleb_len;
use crate::leb::sleb;
use crate::leb::sleb_dec;
use crate::leb::uleb;
use crate::leb::uleb_dec;

verus! {

/// The single failure kind every decoder surfaces: end of input, literal
/// mismatch, unknown discriminator, overlong or out-of-range LEB128, invalid
/// UTF-8, or residual bytes inside a sized region.
#[derive(Debug, PartialEq)]
pub enum DecodeError {
    Error,
}

pub type DecodeResult<'a, T> = Result<(T, &'a [u8]), DecodeError>;

/// Encoding half of the codec.  `spec_enc` is the canonical byte string of a
/// value (given by its deep view); `spec_wf` restricts to values whose
/// vector and name lengths fit in 32 bits, which `encode` requires instead
/// of failing at run time.
pub trait Encode: DeepView {
    /// Canonical encoding of a value.
    spec fn spec_enc(v: Self::V) -> Seq<u8>;

    /// Encodable values: every length that the wire format carries as a
    /// 32-bit count must fit.
    spec fn spec_wf(v: Self::V) -> bool;

    /// Appends the canonical encoding of `self` to `buffer`.
    fn encode(&self, buffer: &mut Vec<u8>)
        requires
            Self::spec_wf(self.deep_view()),
        ensures
            final(buffer)@ == old(buffer)@ + Self::spec_enc(self.deep_view()),
    ;
}

/// Decoding half of the codec.
///
/// `decode` consumes a prefix of the buffer and returns the decoded value
/// and the rest.  Its contract says the consumed prefix is exactly the
/// canonical encoding of the result (soundness), and — whenever the
/// completeness guard `complete()` holds, which it does for every
/// instantiation this crate uses — that it succeeds exactly on the buffers
/// described by `dec_ok` (completeness).
pub trait Decode: Encode + core::marker::Sized {
    /// True when a decode of this type, run just before the tail `s`, stops
    /// cleanly without consuming into `s`.  This is trivially true except
    /// for greedy types, which keep decoding elements as long as they can.
    open spec fn tail_stop(s: Seq<u8>) -> bool {
        true
    }

    /// The buffers on which decoding succeeds: those that start with the
    /// canonical encoding of some well-formed value, followed by a tail the
    /// decoder stops at.
    open spec fn dec_ok(s: Seq<u8>) -> bool {
        exists|v: Self::V, e: Seq<u8>|
            Self::spec_wf(v) && s == Self::spec_enc(v) + e && Self::tail_stop(e)
    }

    /// True for types whose encodings are never empty and whose decoder
    /// never reads past its own encoding: the types fit to be elements of a
    /// greedy sequence.
    open spec fn plain() -> bool {
        true
    }

    /// Completeness guard: aggregates the facts about element types that a
    /// container's contract depends on.  True for every ground type.
    open spec fn complete() -> bool {
        true
    }

    /// For a plain type: encodings are non-empty, any tail is stopped at,
    /// and the empty buffer never decodes.
    proof fn lemma_plain(s: Seq<u8>)
        ensures
            Self::plain() ==> (forall|v: Self::V| Self::spec_enc(v).len() >= 1)
                && Self::tail_stop(s) && !Self::dec_ok(Seq::<u8>::empty()),
    ;

    /// Unambiguity: a byte string splits in at most one way into a canonical
    /// encoding and a stopped tail.  This is what makes the decoded value
    /// unique, and gives `decode(encode(v)) == v`.
    proof fn lemma_unamb(v1: Self::V, v2: Self::V, e1: Seq<u8>, e2: Seq<u8>)
        requires
            Self::complete(),
            Self::spec_wf(v1),
            Self::spec_wf(v2),
            Self::spec_enc(v1) + e1 == Self::spec_enc(v2) + e2,
            Self::tail_stop(e1),
            Self::tail_stop(e2),
        ensures
            v1 == v2,
            e1 == e2,
    ;

    /// Every canonical encoding of a well-formed value, followed by a
    /// stopped tail, is accepted by the decoder.
    proof fn lemma_covers(v: Self::V, e: Seq<u8>)
        requires
            Self::complete(),
            Self::spec_wf(v),
            Self::tail_stop(e),
        ensures
            Self::dec_ok(Self::spec_enc(v) + e),
    ;

    /// Decodes a prefix of `buffer`, returning the value and the rest.
    fn decode(buffer: &[u8]) -> (r: DecodeResult<Self>)
        ensures
            r matches Ok((v, rest)) ==> Self::spec_wf(v.deep_view()) && buffer@ == Self::spec_enc(
                v.deep_view(),
            ) + rest@ && (Self::complete() ==> Self::tail_stop(rest@)),
            Self::complete() ==> (r is Ok <==> Self::dec_ok(buffer@)),
    ;
}

/// A size-prefixed block: an unsigned LEB128 byte count, then exactly that
/// many bytes holding one `T`.  Decoding fails unless the inner value
/// consumes the whole block.
#[derive(Debug, PartialEq)]
pub struct Sized<T>(pub T);

/// A length-prefixed UTF-8 string.
#[derive(Debug, PartialEq)]
pub struct Name(pub String);

/// Zero or more `T`s. Unlike `Vec`, encoding of this type does not have a length prefix.
/// Decoding is greedy: it consumes `T`s until one fails to decode.
#[derive(Debug, PartialEq)]
pub struct Repeated<T>(pub Vec<T>);

/// The bit pattern of an IEEE-754 binary32 constant, carried as raw bits so
/// the codec preserves it exactly (no NaN canonicalisation).  Encoded as 4
/// little-endian bytes.
#[derive(Debug, PartialEq, Clone, Copy)]
pub struct F32Bits(pub u32);

/// The bit pattern of an IEEE-754 binary64 constant; 8 little-endian bytes.
#[derive(Debug, PartialEq, Clone, Copy)]
pub struct F64Bits(pub u64);

impl<T: DeepView> DeepView for Sized<T> {
    type V = T::V;

    open spec fn deep_view(&self) -> Self::V {
        self.0.deep_view()
    }
}

impl DeepView for Name {
    type V = Seq<char>;

    open spec fn deep_view(&self) -> Seq<char> {
        self.0.deep_view()
    }
}

impl<T: DeepView> DeepView for Repeated<T> {
    type V = Seq<T::V>;

    open spec fn deep_view(&self) -> Seq<T::V> {
        self.0.deep_view()
    }
}

impl DeepView for F32Bits {
    type V = u32;

    open spec fn deep_view(&self) -> u32 {
        self.0
    }
}

impl DeepView for F64Bits {
    type V = u64;

    open spec fn deep_view(&self) -> u64 {
        self.0
    }
}

/// Concatenation of the canonical encodings of a sequence of values.
pub open spec fn enc_seq<T: Encode>(vs: Seq<T::V>) -> Seq<u8>
    decreases vs.len(),
{
    if vs.len() == 0 {
        Seq::<u8>::empty()
    } else {
        T::spec_enc(vs[0]) + enc_seq::<T>(vs.drop_first())
    }
}

/// All values of the sequence are well-formed.
pub open spec fn wf_seq<T: Encode>(vs: Seq<T::V>) -> bool {
    forall|i: int| 0 <= i < vs.len() ==> T::spec_wf(#[trigger] vs[i])
}

pub proof fn lemma_enc_seq_push<T: Encode>(vs: Seq<T::V>, v: T::V)
    ensures
        enc_seq::<T>(vs.push(v)) == enc_seq::<T>(vs) + T::spec_enc(v),
    decreases vs.len(),
{
    if vs.len() == 0 {
        assert(vs.push(v).drop_first() =~= Seq::<T::V>::empty());
        assert(vs.push(v)[0] == v);
        assert(vs.push(v).len() == 1);
        assert(enc_seq::<T>(vs.push(v)) == T::spec_enc(vs.push(v)[0]) + enc_seq::<T>(
            vs.push(v).drop_first(),
        ));
        assert(enc_seq::<T>(Seq::<T::V>::empty()) =~= Seq::<u8>::empty());
        assert(enc_seq::<T>(vs.push(v)) =~= T::spec_enc(v));
        assert(enc_seq::<T>(vs) + T::spec_enc(v) =~= T::spec_enc(v));
    } else {
        assert(vs.push(v).drop_first() =~= vs.drop_first().push(v));
        lemma_enc_seq_push::<T>(vs.drop_first(), v);
        assert(enc_seq::<T>(vs.push(v)) =~= enc_seq::<T>(vs) + T::spec_enc(v));
    }
}

/// Aligning two element-wise encodings: when one sequence is no longer than
/// the other and their encodings plus tails agree, the shorter is a prefix
/// of the longer and its tail holds the remaining encodings.
pub proof fn lemma_enc_seq_align<T: Decode>(s1: Seq<T::V>, s2: Seq<T::V>, e1: Seq<u8>, e2: Seq<u8>)
    requires
        T::plain(),
        T::complete(),
        wf_seq::<T>(s1),
        wf_seq::<T>(s2),
        s1.len() <= s2.len(),
        enc_seq::<T>(s1) + e1 == enc_seq::<T>(s2) + e2,
    ensures
        s1 == s2.take(s1.len() as int),
        e1 == enc_seq::<T>(s2.skip(s1.len() as int)) + e2,
    decreases s1.len(),
{
    if s1.len() == 0 {
        assert(s1 =~= s2.take(0));
        assert(s2.skip(0) =~= s2);
        assert(e1 =~= enc_seq::<T>(s2) + e2);
    } else {
        let t1 = enc_seq::<T>(s1.drop_first()) + e1;
        let t2 = enc_seq::<T>(s2.drop_first()) + e2;
        T::lemma_plain(t1);
        T::lemma_plain(t2);
        assert(T::spec_enc(s1[0]) + t1 =~= enc_seq::<T>(s1) + e1);
        assert(T::spec_enc(s2[0]) + t2 =~= enc_seq::<T>(s2) + e2);
        T::lemma_unamb(s1[0], s2[0], t1, t2);
        assert(wf_seq::<T>(s1.drop_first()));
        assert(wf_seq::<T>(s2.drop_first()));
        lemma_enc_seq_align::<T>(s1.drop_first(), s2.drop_first(), e1, e2);
        assert(s1.drop_first() == s2.drop_first().take(s1.len() - 1));
        assert forall|i: int| 0 <= i < s1.len() implies s1[i] == s2.take(s1.len() as int)[i] by {
            if i > 0 {
                assert(s1[i] == s1.drop_first()[i - 1]);
                assert(s2.drop_first().take(s1.len() - 1)[i - 1] == s2[i]);
            }
        }
        assert(s1 =~= s2.take(s1.len() as int));
        assert(s2.drop_first().skip(s1.len() - 1) =~= s2.skip(s1.len() as int));
    }
}

impl Encode for u8 {
    open spec fn spec_enc(v: u8) -> Seq<u8> {
        seq![v]
    }

    open spec fn spec_wf(v: u8) -> bool {
        true
    }

    fn encode(&self, buffer: &mut Vec<u8>) {
        buffer.push(*self);
        assert(buffer@ =~= old(buffer)@ + Self::spec_enc(self.deep_view()));
    }
}

impl Decode for u8 {
    open spec fn dec_ok(s: Seq<u8>) -> bool {
        s.len() >= 1
    }

    #[verifier::rlimit(100)]
    proof fn lemma_plain(s: Seq<u8>) {
    }

    #[verifier::rlimit(100)]
    proof fn lemma_unamb(v1: u8, v2: u8, e1: Seq<u8>, e2: Seq<u8>) {
        let s = Self::spec_enc(v1) + e1;
        assert(s[0] == v1);
        assert((Self::spec_enc(v2) + e2)[0] == v2);
        assert(e1 =~= s.drop_first());
        assert(e2 =~= (Self::spec_enc(v2) + e2).drop_first());
    }

    #[verifier::rlimit(100)]
    proof fn lemma_covers(v: u8, e: Seq<u8>) {
    }

    fn decode(buffer: &[u8]) -> (r: DecodeResult<Self>) {
        if buffer.len() == 0 {
            Err(DecodeError::Error)
        } else {
            let x = buffer[0];
            let rest = vstd::slice::slice_subrange(buffer, 1, buffer.len());
            assert(buffer@ =~= Self::spec_enc(x) + rest@);
            Ok((x, rest))
        }
    }
}


/// Appends the canonical unsigned LEB128 encoding of `v`.
pub fn uleb64_encode(v: u64, buffer: &mut Vec<u8>)
    ensures
        final(buffer)@ == old(buffer)@ + uleb(v as nat),
    decreases v,
{
    if v < 128 {
        buffer.push(v as u8);
        assert(buffer@ =~= old(buffer)@ + uleb(v as nat));
    } else {
        buffer.push((v % 128 + 128) as u8);
        uleb64_encode(v / 128, buffer);
        assert(buffer@ =~= old(buffer)@ + uleb(v as nat));
    }
}

/// Appends the canonical signed LEB128 encoding of `v`.
pub fn sleb64_encode(v: i64, buffer: &mut Vec<u8>)
    ensures
        final(buffer)@ == old(buffer)@ + sleb(v as int),
    decreases vstd::math::abs(v as int),
{
    let r: i64 = v % 128;
    let b: i64 = if r < 0 {
        r + 128
    } else {
        r
    };
    assert(b == (v as int) % 128);
    let q: i64 = (v - b) / 128;
    assert(q == (v as int) / 128);
    if (q == 0 && b < 64) || (q == -1 && b >= 64) {
        buffer.push(b as u8);
        assert(buffer@ =~= old(buffer)@ + sleb(v as int));
    } else {
        buffer.push((b + 128) as u8);
        sleb64_encode(q, buffer);
        assert(buffer@ =~= old(buffer)@ + sleb(v as int));
    }
}

/// Decodes a canonical unsigned LEB128 prefix into a `u32`.
pub fn uleb32_decode(buffer: &[u8]) -> (r: Result<(u32, &[u8]), DecodeError>)
    ensures
        r matches Ok((v, rest)) ==> uleb_dec(buffer@, 0xFFFF_FFFF) == Some((v as nat, rest@)),
        r is Err ==> uleb_dec(buffer@, 0xFFFF_FFFF) is None,
    decreases buffer@.len(),
{
    if buffer.len() == 0 {
        return Err(DecodeError::Error);
    }
    let x = buffer[0];
    let tail = vstd::slice::slice_subrange(buffer, 1, buffer.len());
    assert(tail@ =~= buffer@.drop_first());
    if x < 128 {
        Ok((x as u32, tail))
    } else {
        match uleb32_decode(tail) {
            Ok((hi, rest)) => {
                if 1 <= hi && hi <= 0x01FF_FFFF {
                    Ok(((x - 128) as u32 + 128 * hi, rest))
                } else {
                    Err(DecodeError::Error)
                }
            },
            Err(e) => Err(e),
        }
    }
}

/// Decodes a canonical unsigned LEB128 prefix into a `u64`.
pub fn uleb64_decode(buffer: &[u8]) -> (r: Result<(u64, &[u8]), DecodeError>)
    ensures
        r matches Ok((v, rest)) ==> uleb_dec(buffer@, 0xFFFF_FFFF_FFFF_FFFF) == Some(
            (v as nat, rest@),
        ),
        r is Err ==> uleb_dec(buffer@, 0xFFFF_FFFF_FFFF_FFFF) is None,
    decreases buffer@.len(),
{
    if buffer.len() == 0 {
        return Err(DecodeError::Error);
    }
    let x = buffer[0];
    let tail = vstd::slice::slice_subrange(buffer, 1, buffer.len());
    assert(tail@ =~= buffer@.drop_first());
    if x < 128 {
        Ok((x as u64, tail))
    } else {
        match uleb64_decode(tail) {
            Ok((hi, rest)) => {
                if 1 <= hi && hi <= 0x01FF_FFFF_FFFF_FFFF {
                    Ok(((x - 128) as u64 + 128 * hi, rest))
                } else {
                    Err(DecodeError::Error)
                }
            },
            Err(e) => Err(e),
        }
    }
}

/// Decodes a canonical signed LEB128 prefix into an `i32`.
pub fn sleb32_decode(buffer: &[u8]) -> (r: Result<(i32, &[u8]), DecodeError>)
    ensures
        r matches Ok((v, rest)) ==> sleb_dec(buffer@, -0x8000_0000, 0x7FFF_FFFF) == Some(
            (v as int, rest@),
        ),
        r is Err ==> sleb_dec(buffer@, -0x8000_0000, 0x7FFF_FFFF) is None,
    decreases buffer@.len(),
{
    if buffer.len() == 0 {
        return Err(DecodeError::Error);
    }
    let x = buffer[0];
    let tail = vstd::slice::slice_subrange(buffer, 1, buffer.len());
    assert(tail@ =~= buffer@.drop_first());
    if x < 64 {
        Ok((x as i32, tail))
    } else if x < 128 {
        Ok((x as i32 - 128, tail))
    } else {
        match sleb32_decode(tail) {
            Ok((h, rest)) => {
                if -0x0100_0000 <= h && h <= 0x00FF_FFFF && !(h == 0 && x < 192) && !(h == -1 && x
                    >= 192) {
                    Ok(((x as i32 - 128) + 128 * h, rest))
                } else {
                    Err(DecodeError::Error)
                }
            },
            Err(e) => Err(e),
        }
    }
}

/// Decodes a canonical signed LEB128 prefix into an `i64`.
pub fn sleb64_decode(buffer: &[u8]) -> (r: Result<(i64, &[u8]), DecodeError>)
    ensures
        r matches Ok((v, rest)) ==> sleb_dec(
            buffer@,
            -0x8000_0000_0000_0000,
            0x7FFF_FFFF_FFFF_FFFF,
        ) == Some((v as int, rest@)),
        r is Err ==> sleb_dec(buffer@, -0x8000_0000_0000_0000, 0x7FFF_FFFF_FFFF_FFFF) is None,
    decreases buffer@.len(),
{
    if buffer.len() == 0 {
        return Err(DecodeError::Error);
    }
    let x = buffer[0];
    let tail = vstd::slice::slice_subrange(buffer, 1, buffer.len());
    assert(tail@ =~= buffer@.drop_first());
    if x < 64 {
        Ok((x as i64, tail))
    } else if x < 128 {
        Ok((x as i64 - 128, tail))
    } else {
        match sleb64_decode(tail) {
            Ok((h, rest)) => {
                if -0x0100_0000_0000_0000 <= h && h <= 0x00FF_FFFF_FFFF_FFFF && !(h == 0 && x < 192)
                    && !(h == -1 && x >= 192) {
                    Ok(((x as i64 - 128) + 128 * h, rest))
                } else {
                    Err(DecodeError::Error)
                }
            },
            Err(e) => Err(e),
        }
    }
}

/// Unsigned LEB128, 32 bits.
impl Encode for u32 {
    open spec fn spec_enc(v: u32) -> Seq<u8> {
        uleb(v as nat)
    }

    open spec fn spec_wf(v: u32) -> bool {
        true
    }

    fn encode(&self, buffer: &mut Vec<u8>) {
        uleb64_encode(*self as u64, buffer);
    }
}

/// Unsigned LEB128, 32 bits.
impl Decode for u32 {
    open spec fn dec_ok(s: Seq<u8>) -> bool {
        uleb_dec(s, 0xFFFF_FFFF) is Some
    }

    #[verifier::rlimit(100)]
    proof fn lemma_plain(s: Seq<u8>) {
        assert forall|v: u32| Self::spec_enc(v).len() >= 1 by {
            lemma_uleb_len(v as nat);
        }
    }

    #[verifier::rlimit(100)]
    proof fn lemma_unamb(v1: u32, v2: u32, e1: Seq<u8>, e2: Seq<u8>) {
        lemma_uleb_dec_enc(v1 as nat, e1, 0xFFFF_FFFF);
        lemma_uleb_dec_enc(v2 as nat, e2, 0xFFFF_FFFF);
    }

    #[verifier::rlimit(100)]
    proof fn lemma_covers(v: u32, e: Seq<u8>) {
        lemma_uleb_dec_enc(v as nat, e, 0xFFFF_FFFF);
    }

    fn decode(buffer: &[u8]) -> (r: DecodeResult<Self>) {
        proof {
            lemma_uleb_dec_sound(buffer@, 0xFFFF_FFFF);
        }
        match uleb32_decode(buffer) {
            Ok((v, rest)) => Ok((v, rest)),
            Err(e) => Err(e),
        }
    }
}

/// Unsigned LEB128, 64 bits.
impl Encode for u64 {
    open spec fn spec_enc(v: u64) -> Seq<u8> {
        uleb(v as nat)
    }

    open spec fn spec_wf(v: u64) -> bool {
        true
    }

    fn encode(&self, buffer: &mut Vec<u8>) {
        uleb64_encode(*self, buffer);
    }
}

/// Unsigned LEB128, 64 bits.
impl Decode for u64 {
    open spec fn dec_ok(s: Seq<u8>) -> bool {
        uleb_dec(s, 0xFFFF_FFFF_FFFF_FFFF) is Some
    }

    #[verifier::rlimit(100)]
    proof fn lemma_plain(s: Seq<u8>) {
        assert forall|v: u64| Self::spec_enc(v).len() >= 1 by {
            lemma_uleb_len(v as nat);
        }
    }

    #[verifier::rlimit(100)]
    proof fn lemma_unamb(v1: u64, v2: u64, e1: Seq<u8>, e2: Seq<u8>) {
        lemma_uleb_dec_enc(v1 as nat, e1, 0xFFFF_FFFF_FFFF_FFFF);
        lemma_uleb_dec_enc(v2 as nat, e2, 0xFFFF_FFFF_FFFF_FFFF);
    }

    #[verifier::rlimit(100)]
    proof fn lemma_covers(v: u64, e: Seq<u8>) {
        lemma_uleb_dec_enc(v as nat, e, 0xFFFF_FFFF_FFFF_FFFF);
    }

    fn decode(buffer: &[u8]) -> (r: DecodeResult<Self>) {
        proof {
            lemma_uleb_dec_sound(buffer@, 0xFFFF_FFFF_FFFF_FFFF);
        }
        match uleb64_decode(buffer) {
            Ok((v, rest)) => Ok((v, rest)),
            Err(e) => Err(e),
        }
    }
}

/// Signed LEB128, 32 bits.
impl Encode for i32 {
    open spec fn spec_enc(v: i32) -> Seq<u8> {
        sleb(v as int)
    }

    open spec fn spec_wf(v: i32) -> bool {
        true
    }

    fn encode(&self, buffer: &mut Vec<u8>) {
        sleb64_encode(*self as i64, buffer);
    }
}

/// Signed LEB128, 32 bits.
impl Decode for i32 {
    open spec fn dec_ok(s: Seq<u8>) -> bool {
        sleb_dec(s, -0x8000_0000, 0x7FFF_FFFF) is Some
    }

    #[verifier::rlimit(100)]
    proof fn lemma_plain(s: Seq<u8>) {
        assert forall|v: i32| Self::spec_enc(v).len() >= 1 by {
            crate::leb::lemma_sleb_len(v as int);
        }
        assert(forall|v: i32| Self::spec_enc(v).len() >= 1);
        assert(Self::tail_stop(s));
        assert(!Self::dec_ok(Seq::<u8>::empty())) by {
            assert(sleb_dec(Seq::<u8>::empty(), -0x8000_0000, 0x7FFF_FFFF) is None);
        }
    }

    #[verifier::rlimit(100)]
    proof fn lemma_unamb(v1: i32, v2: i32, e1: Seq<u8>, e2: Seq<u8>) {
        lemma_sleb_dec_enc(v1 as int, e1, -0x8000_0000, 0x7FFF_FFFF);
        lemma_sleb_dec_enc(v2 as int, e2, -0x8000_0000, 0x7FFF_FFFF);
    }

    #[verifier::rlimit(100)]
    proof fn lemma_covers(v: i32, e: Seq<u8>) {
        lemma_sleb_dec_enc(v as int, e, -0x8000_0000, 0x7FFF_FFFF);
    }

    fn decode(buffer: &[u8]) -> (r: DecodeResult<Self>) {
        proof {
            lemma_sleb_dec_sound(buffer@, -0x8000_0000, 0x7FFF_FFFF);
        }
        match sleb32_decode(buffer) {
            Ok((v, rest)) => Ok((v, rest)),
            Err(e) => Err(e),
        }
    }
}

/// Signed LEB128, 64 bits.
impl Encode for i64 {
    open spec fn spec_enc(v: i64) -> Seq<u8> {
        sleb(v as int)
    }

    open spec fn spec_wf(v: i64) -> bool {
        true
    }

    fn encode(&self, buffer: &mut Vec<u8>) {
        sleb64_encode(*self, buffer);
    }
}

/// Signed LEB128, 64 bits.
impl Decode for i64 {
    open spec fn dec_ok(s: Seq<u8>) -> bool {
        sleb_dec(s, -0x8000_0000_0000_0000, 0x7FFF_FFFF_FFFF_FFFF) is Some
    }

    #[verifier::rlimit(100)]
    proof fn lemma_plain(s: Seq<u8>) {
        assert forall|v: i64| Self::spec_enc(v).len() >= 1 by {
            crate::leb::lemma_sleb_len(v as int);
        }
        assert(forall|v: i64| Self::spec_enc(v).len() >= 1);
        assert(Self::tail_stop(s));
        assert(!Self::dec_ok(Seq::<u8>::empty())) by {
            assert(sleb_dec(Seq::<u8>::empty(), -0x8000_0000_0000_0000, 0x7FFF_FFFF_FFFF_FFFF)
                is None);
        }
    }

    #[verifier::rlimit(100)]
    proof fn lemma_unamb(v1: i64, v2: i64, e1: Seq<u8>, e2: Seq<u8>) {
        lemma_sleb_dec_enc(v1 as int, e1, -0x8000_0000_0000_0000, 0x7FFF_FFFF_FFFF_FFFF);
        lemma_sleb_dec_enc(v2 as int, e2, -0x8000_0000_0000_0000, 0x7FFF_FFFF_FFFF_FFFF);
    }

    #[verifier::rlimit(100)]
    proof fn lemma_covers(v: i64, e: Seq<u8>) {
        lemma_sleb_dec_enc(v as int, e, -0x8000_0000_0000_0000, 0x7FFF_FFFF_FFFF_FFFF);
    }

    fn decode(buffer: &[u8]) -> (r: DecodeResult<Self>) {
        proof {
            lemma_sleb_dec_sound(buffer@, -0x8000_0000_0000_0000, 0x7FFF_FFFF_FFFF_FFFF);
        }
        match sleb64_decode(buffer) {
            Ok((v, rest)) => Ok((v, rest)),
            Err(e) => Err(e),
        }
    }
}


/// The 4 little-endian bytes of a 32-bit value.
pub open spec fn le4(v: u32) -> Seq<u8> {
    seq![
        (v % 256) as u8,
        ((v / 256) % 256) as u8,
        ((v / 0x10000) % 256) as u8,
        ((v / 0x100_0000) % 256) as u8,
    ]
}

/// The 8 little-endian bytes of a 64-bit value.
pub open spec fn le8(v: u64) -> Seq<u8> {
    seq![
        (v % 256) as u8,
        ((v / 256) % 256) as u8,
        ((v / 0x10000) % 256) as u8,
        ((v / 0x100_0000) % 256) as u8,
        ((v / 0x1_0000_0000) % 256) as u8,
        ((v / 0x100_0000_0000) % 256) as u8,
        ((v / 0x1_0000_0000_0000) % 256) as u8,
        ((v / 0x100_0000_0000_0000) % 256) as u8,
    ]
}

/// One byte at the bottom of a value splits off cleanly.
proof fn lemma_byte_peel(b: int, x: int)
    requires
        0 <= b < 256,
        0 <= x,
    ensures
        (b + 256 * x) % 256 == b,
        (b + 256 * x) / 256 == x,
{
    assert((b + 256 * x) % 256 == b && (b + 256 * x) / 256 == x) by (nonlinear_arith)
        requires
            0 <= b < 256,
            0 <= x,
    ;
}

/// Little-endian bytes determine the 32-bit value.
pub proof fn lemma_le4(b0: u8, b1: u8, b2: u8, b3: u8)
    ensures
        le4((b0 + 256 * b1 + 0x10000 * b2 + 0x100_0000 * b3) as u32) == seq![b0, b1, b2, b3],
{
    let w3 = b3 as int;
    let w2 = b2 + 256 * w3;
    let w1 = b1 + 256 * w2;
    let w0 = b0 + 256 * w1;
    assert(w0 == b0 + 256 * b1 + 0x10000 * b2 + 0x100_0000 * b3);
    lemma_byte_peel(b0 as int, w1);
    lemma_byte_peel(b1 as int, w2);
    lemma_byte_peel(b2 as int, w3);
    vstd::arithmetic::div_mod::lemma_div_denominator(w0, 256, 256);
    vstd::arithmetic::div_mod::lemma_div_denominator(w0, 0x10000, 256);
    assert(w0 / 0x10000 == w2);
    assert(w0 / 0x100_0000 == w3);
    assert(le4(w0 as u32) =~= seq![b0, b1, b2, b3]);
}

/// Little-endian bytes determine the 64-bit value.
pub proof fn lemma_le8(b0: u8, b1: u8, b2: u8, b3: u8, b4: u8, b5: u8, b6: u8, b7: u8)
    ensures
        le8(
            (b0 + 256 * b1 + 0x10000 * b2 + 0x100_0000 * b3 + 0x1_0000_0000 * b4 + 0x100_0000_0000
                * b5 + 0x1_0000_0000_0000 * b6 + 0x100_0000_0000_0000 * b7) as u64,
        ) == seq![b0, b1, b2, b3, b4, b5, b6, b7],
{
    let w7 = b7 as int;
    let w6 = b6 + 256 * w7;
    let w5 = b5 + 256 * w6;
    let w4 = b4 + 256 * w5;
    let w3 = b3 + 256 * w4;
    let w2 = b2 + 256 * w3;
    let w1 = b1 + 256 * w2;
    let w0 = b0 + 256 * w1;
    assert(w0 == b0 + 256 * b1 + 0x10000 * b2 + 0x100_0000 * b3 + 0x1_0000_0000 * b4
        + 0x100_0000_0000 * b5 + 0x1_0000_0000_0000 * b6 + 0x100_0000_0000_0000 * b7);
    lemma_byte_peel(b0 as int, w1);
    lemma_byte_peel(b1 as int, w2);
    lemma_byte_peel(b2 as int, w3);
    lemma_byte_peel(b3 as int, w4);
    lemma_byte_peel(b4 as int, w5);
    lemma_byte_peel(b5 as int, w6);
    lemma_byte_peel(b6 as int, w7);
    vstd::arithmetic::div_mod::lemma_div_denominator(w0, 256, 256);
    vstd::arithmetic::div_mod::lemma_div_denominator(w0, 0x10000, 256);
    vstd::arithmetic::div_mod::lemma_div_denominator(w0, 0x100_0000, 256);
    vstd::arithmetic::div_mod::lemma_div_denominator(w0, 0x1_0000_0000, 256);
    vstd::arithmetic::div_mod::lemma_div_denominator(w0, 0x100_0000_0000, 256);
    vstd::arithmetic::div_mod::lemma_div_denominator(w0, 0x1_0000_0000_0000, 256);
    assert(w0 / 0x10000 == w2);
    assert(w0 / 0x100_0000 == w3);
    assert(w0 / 0x1_0000_0000 == w4);
    assert(w0 / 0x100_0000_0000 == w5);
    assert(w0 / 0x1_0000_0000_0000 == w6);
    assert(w0 / 0x100_0000_0000_0000 == w7);
    assert(le8(w0 as u64) =~= seq![b0, b1, b2, b3, b4, b5, b6, b7]);
}

/// A 32-bit value determines its little-endian bytes.
pub proof fn lemma_le4_rebuild(v: u32)
    ensures
        le4(v)[0] + 256 * le4(v)[1] + 0x10000 * le4(v)[2] + 0x100_0000 * le4(v)[3] == v,
{
    assert(v % 256 + 256 * ((v / 256) % 256) + 0x10000 * ((v / 0x10000) % 256) + 0x100_0000 * ((v
        / 0x100_0000) % 256) == v) by (bit_vector);
}

/// A 64-bit value determines its little-endian bytes.
pub proof fn lemma_le8_rebuild(v: u64)
    ensures
        le8(v)[0] + 256 * le8(v)[1] + 0x10000 * le8(v)[2] + 0x100_0000 * le8(v)[3] + 0x1_0000_0000
            * le8(v)[4] + 0x100_0000_0000 * le8(v)[5] + 0x1_0000_0000_0000 * le8(v)[6]
            + 0x100_0000_0000_0000 * le8(v)[7] == v,
{
    assert(v % 256 + 256 * ((v / 256) % 256) + 0x10000 * ((v / 0x10000) % 256) + 0x100_0000 * ((v
        / 0x100_0000) % 256) + 0x1_0000_0000 * ((v / 0x1_0000_0000) % 256) + 0x100_0000_0000 * ((v
        / 0x100_0000_0000) % 256) + 0x1_0000_0000_0000 * ((v / 0x1_0000_0000_0000) % 256)
        + 0x100_0000_0000_0000 * ((v / 0x100_0000_0000_0000) % 256) == v) by (bit_vector);
}

/// Raw little-endian binary32 bit pattern.
impl Encode for F32Bits {
    open spec fn spec_enc(v: u32) -> Seq<u8> {
        le4(v)
    }

    open spec fn spec_wf(v: u32) -> bool {
        true
    }

    fn encode(&self, buffer: &mut Vec<u8>) {
        let v = self.0;
        buffer.push((v % 256) as u8);
        buffer.push(((v / 256) % 256) as u8);
        buffer.push(((v / 0x10000) % 256) as u8);
        buffer.push(((v / 0x100_0000) % 256) as u8);
        assert(buffer@ =~= old(buffer)@ + le4(v));
    }
}

/// Raw little-endian binary32 bit pattern.
impl Decode for F32Bits {
    open spec fn dec_ok(s: Seq<u8>) -> bool {
        s.len() >= 4
    }

    #[verifier::rlimit(100)]
    proof fn lemma_plain(s: Seq<u8>) {
        assert forall|v: u32| Self::spec_enc(v).len() >= 1 by {
            assert(Self::spec_enc(v) == le4(v));
        }
        assert(forall|v: u32| Self::spec_enc(v).len() >= 1);
        assert(Self::tail_stop(s));
        assert(!Self::dec_ok(Seq::<u8>::empty()));
    }

    #[verifier::rlimit(100)]
    proof fn lemma_unamb(v1: u32, v2: u32, e1: Seq<u8>, e2: Seq<u8>) {
        let s = le4(v1) + e1;
        assert(le4(v1) =~= le4(v2)) by {
            assert forall|i: int| 0 <= i < 4 implies le4(v1)[i] == le4(v2)[i] by {
                assert(le4(v1)[i] == s[i]);
                assert(le4(v2)[i] == (le4(v2) + e2)[i]);
            }
        }
        assert(v1 == v2) by {
            lemma_le4_rebuild(v1);
            lemma_le4_rebuild(v2);
        }
        assert(e1 =~= s.skip(4));
        assert(e2 =~= s.skip(4));
    }

    #[verifier::rlimit(100)]
    proof fn lemma_covers(v: u32, e: Seq<u8>) {
    }

    fn decode(buffer: &[u8]) -> (r: DecodeResult<Self>) {
        if buffer.len() < 4 {
            return Err(DecodeError::Error);
        }
        let b0 = buffer[0];
        let b1 = buffer[1];
        let b2 = buffer[2];
        let b3 = buffer[3];
        let v: u32 = b0 as u32 + 256 * (b1 as u32) + 0x10000 * (b2 as u32) + 0x100_0000 * (
        b3 as u32);
        let rest = vstd::slice::slice_subrange(buffer, 4, buffer.len());
        proof {
            lemma_le4(b0, b1, b2, b3);
            assert(buffer@ =~= le4(v) + rest@);
        }
        Ok((F32Bits(v), rest))
    }
}

/// Raw little-endian binary64 bit pattern.
impl Encode for F64Bits {
    open spec fn spec_enc(v: u64) -> Seq<u8> {
        le8(v)
    }

    open spec fn spec_wf(v: u64) -> bool {
        true
    }

    fn encode(&self, buffer: &mut Vec<u8>) {
        let v = self.0;
        buffer.push((v % 256) as u8);
        buffer.push(((v / 256) % 256) as u8);
        buffer.push(((v / 0x10000) % 256) as u8);
        buffer.push(((v / 0x100_0000) % 256) as u8);
        buffer.push(((v / 0x1_0000_0000) % 256) as u8);
        buffer.push(((v / 0x100_0000_0000) % 256) as u8);
        buffer.push(((v / 0x1_0000_0000_0000) % 256) as u8);
        buffer.push(((v / 0x100_0000_0000_0000) % 256) as u8);
        assert(buffer@ =~= old(buffer)@ + le8(v));
    }
}

/// Raw little-endian binary64 bit pattern.
impl Decode for F64Bits {
    open spec fn dec_ok(s: Seq<u8>) -> bool {
        s.len() >= 8
    }

    #[verifier::rlimit(100)]
    proof fn lemma_plain(s: Seq<u8>) {
        assert forall|v: u64| Self::spec_enc(v).len() >= 1 by {
            assert(Self::spec_enc(v) == le8(v));
        }
        assert(forall|v: u64| Self::spec_enc(v).len() >= 1);
        assert(Self::tail_stop(s));
        assert(!Self::dec_ok(Seq::<u8>::empty()));
    }

    #[verifier::rlimit(100)]
    proof fn lemma_unamb(v1: u64, v2: u64, e1: Seq<u8>, e2: Seq<u8>) {
        let s = le8(v1) + e1;
        assert(le8(v1) =~= le8(v2)) by {
            assert forall|i: int| 0 <= i < 8 implies le8(v1)[i] == le8(v2)[i] by {
                assert(le8(v1)[i] == s[i]);
                assert(le8(v2)[i] == (le8(v2) + e2)[i]);
            }
        }
        assert(v1 == v2) by {
            lemma_le8_rebuild(v1);
            lemma_le8_rebuild(v2);
        }
        assert(e1 =~= s.skip(8));
        assert(e2 =~= s.skip(8));
    }

    #[verifier::rlimit(100)]
    proof fn lemma_covers(v: u64, e: Seq<u8>) {
    }

    fn decode(buffer: &[u8]) -> (r: DecodeResult<Self>) {
        if buffer.len() < 8 {
            return Err(DecodeError::Error);
        }
        let b0 = buffer[0];
        let b1 = buffer[1];
        let b2 = buffer[2];
        let b3 = buffer[3];
        let b4 = buffer[4];
        let b5 = buffer[5];
        let b6 = buffer[6];
        let b7 = buffer[7];
        let v: u64 = b0 as u64 + 256 * (b1 as u64) + 0x10000 * (b2 as u64) + 0x100_0000 * (
        b3 as u64) + 0x1_0000_0000 * (b4 as u64) + 0x100_0000_0000 * (b5 as u64)
            + 0x1_0000_0000_0000 * (b6 as u64) + 0x100_0000_0000_0000 * (b7 as u64);
        let rest = vstd::slice::slice_subrange(buffer, 8, buffer.len());
        proof {
            lemma_le8(b0, b1, b2, b3, b4, b5, b6, b7);
            assert(buffer@ =~= le8(v) + rest@);
        }
        Ok((F64Bits(v), rest))
    }
}


/// Equal concatenations with equal-length first parts split identically.
pub proof fn lemma_concat_cancel(a: Seq<u8>, b: Seq<u8>, c: Seq<u8>, d: Seq<u8>)
    requires
        a + b == c + d,
        a.len() == c.len(),
    ensures
        a == c,
        b == d,
{
    assert forall|i: int| 0 <= i < a.len() implies a[i] == c[i] by {
        assert((a + b)[i] == a[i]);
        assert((c + d)[i] == c[i]);
    }
    assert(a =~= c);
    assert((a + b).len() == a.len() + b.len());
    assert((c + d).len() == c.len() + d.len());
    assert(b.len() == d.len());
    assert forall|i: int| 0 <= i < b.len() implies b[i] == d[i] by {
        assert((a + b)[i + a.len()] == b[i]);
        assert((c + d)[i + c.len()] == d[i]);
    }
    assert(b =~= d);
}

/// A stuck element decode refutes any claimed longer element sequence: if
/// the bytes after the decoded prefix began another element, its decode
/// would have succeeded.
proof fn lemma_seq_dec_err<T: Decode>(done: Seq<T::V>, cur: Seq<u8>, w: Seq<T::V>, e: Seq<u8>)
    requires
        T::plain(),
        T::complete(),
        wf_seq::<T>(done),
        wf_seq::<T>(w),
        enc_seq::<T>(done) + cur == enc_seq::<T>(w) + e,
        done.len() < w.len(),
    ensures
        T::dec_ok(cur),
{
    lemma_enc_seq_align::<T>(done, w, cur, e);
    let k = done.len() as int;
    let suffix = w.skip(k);
    assert(suffix.len() > 0);
    assert(enc_seq::<T>(suffix) == T::spec_enc(suffix[0]) + enc_seq::<T>(suffix.drop_first()));
    T::lemma_plain(enc_seq::<T>(suffix.drop_first()) + e);
    assert(T::spec_wf(w[k]));
    assert(suffix[0] == w[k]);
    T::lemma_covers(suffix[0], enc_seq::<T>(suffix.drop_first()) + e);
    assert(cur =~= T::spec_enc(suffix[0]) + (enc_seq::<T>(suffix.drop_first()) + e));
}

/// Relies on String::from_utf8: it succeeds exactly on valid UTF-8, and
/// decodes the bytes it was given.
#[verifier::external_body]
pub(crate) fn bytes_to_string(v: Vec<u8>) -> (r: Option<String>)
    ensures
        r matches Some(s) ==> vstd::utf8::valid_utf8(v@) && s@ == vstd::utf8::decode_utf8(v@),
        r is None ==> !vstd::utf8::valid_utf8(v@),
{
    String::from_utf8(v).ok()
}

/// Length-prefixed UTF-8 string.
impl Encode for Name {
    open spec fn spec_enc(v: Seq<char>) -> Seq<u8> {
        uleb(vstd::utf8::encode_utf8(v).len()) + vstd::utf8::encode_utf8(v)
    }

    open spec fn spec_wf(v: Seq<char>) -> bool {
        vstd::utf8::encode_utf8(v).len() <= 0xFFFF_FFFF
    }

    fn encode(&self, buffer: &mut Vec<u8>) {
        let bytes = self.0.as_str().as_bytes();
        uleb64_encode(bytes.len() as u64, buffer);
        let mut tail = vstd::slice::slice_to_vec(bytes);
        buffer.append(&mut tail);
        assert(buffer@ =~= old(buffer)@ + Self::spec_enc(self.deep_view()));
    }
}

/// Length-prefixed UTF-8 string.
impl Decode for Name {
    #[verifier::rlimit(100)]
    proof fn lemma_plain(s: Seq<u8>) {
        assert forall|v: Seq<char>| Self::spec_enc(v).len() >= 1 by {
            lemma_uleb_len(vstd::utf8::encode_utf8(v).len());
        }
        if Self::dec_ok(Seq::<u8>::empty()) {
            let (v, e) = choose|v: Seq<char>, e: Seq<u8>|
                Self::spec_wf(v) && Seq::<u8>::empty() == Self::spec_enc(v) + e && Self::tail_stop(
                    e,
                );
            lemma_uleb_len(vstd::utf8::encode_utf8(v).len());
        }
    }

    #[verifier::rlimit(100)]
    proof fn lemma_unamb(v1: Seq<char>, v2: Seq<char>, e1: Seq<u8>, e2: Seq<u8>) {
        let u1 = vstd::utf8::encode_utf8(v1);
        let u2 = vstd::utf8::encode_utf8(v2);
        lemma_uleb_dec_enc(u1.len(), u1 + e1, 0xFFFF_FFFF);
        lemma_uleb_dec_enc(u2.len(), u2 + e2, 0xFFFF_FFFF);
        assert(uleb(u1.len()) + (u1 + e1) =~= Self::spec_enc(v1) + e1);
        assert(uleb(u2.len()) + (u2 + e2) =~= Self::spec_enc(v2) + e2);
        assert(u1.len() == u2.len() && u1 + e1 == u2 + e2);
        lemma_concat_cancel(u1, e1, u2, e2);
        vstd::utf8::encode_utf8_decode_utf8(v1);
        vstd::utf8::encode_utf8_decode_utf8(v2);
    }

    #[verifier::rlimit(100)]
    proof fn lemma_covers(v: Seq<char>, e: Seq<u8>) {
        assert(Self::spec_wf(v) && Self::spec_enc(v) + e == Self::spec_enc(v) + e
            && Self::tail_stop(e));
    }

    fn decode(buffer: &[u8]) -> (r: DecodeResult<Self>) {
        proof {
            lemma_uleb_dec_sound(buffer@, 0xFFFF_FFFF);
        }
        let (n, rest) = match uleb32_decode(buffer) {
            Ok(p) => p,
            Err(_) => {
                proof {
                    if Self::dec_ok(buffer@) {
                        let (v, e) = choose|v: Seq<char>, e: Seq<u8>|
                            Self::spec_wf(v) && buffer@ == Self::spec_enc(v) + e
                                && Self::tail_stop(e);
                        let u = vstd::utf8::encode_utf8(v);
                        lemma_uleb_dec_enc(u.len(), u + e, 0xFFFF_FFFF);
                        assert(uleb(u.len()) + (u + e) =~= buffer@);
                    }
                }
                return Err(DecodeError::Error);
            },
        };
        let len = n as usize;
        let ghost gwitness: (Seq<char>, Seq<u8>) = (Seq::<char>::empty(), Seq::<u8>::empty());
        proof {
            if Self::dec_ok(buffer@) {
                let (v, e) = choose|v: Seq<char>, e: Seq<u8>|
                    Self::spec_wf(v) && buffer@ == Self::spec_enc(v) + e && Self::tail_stop(e);
                let u = vstd::utf8::encode_utf8(v);
                lemma_uleb_dec_enc(u.len(), u + e, 0xFFFF_FFFF);
                assert(uleb(u.len()) + (u + e) =~= buffer@);
                assert(u.len() == n as nat && rest@ == u + e);
            }
        }
        if len > rest.len() {
            proof {
                if Self::dec_ok(buffer@) {
                    assert(false);
                }
            }
            return Err(DecodeError::Error);
        }
        let window = vstd::slice::slice_subrange(rest, 0, len);
        let tail = vstd::slice::slice_subrange(rest, len, rest.len());
        let bytes = vstd::slice::slice_to_vec(window);
        match bytes_to_string(bytes) {
            Some(string) => {
                proof {
                    vstd::utf8::decode_utf8_encode_utf8(window@);
                    assert(buffer@ =~= uleb(n as nat) + window@ + tail@);
                    assert(Self::spec_enc(string@) + tail@ =~= uleb(n as nat) + window@ + tail@);
                }
                Ok((Name(string), tail))
            },
            None => {
                proof {
                    if Self::dec_ok(buffer@) {
                        let (v, e) = choose|v: Seq<char>, e: Seq<u8>|
                            Self::spec_wf(v) && buffer@ == Self::spec_enc(v) + e && Self::tail_stop(
                                e,
                            );
                        let u = vstd::utf8::encode_utf8(v);
                        lemma_uleb_dec_enc(u.len(), u + e, 0xFFFF_FFFF);
                        assert(uleb(u.len()) + (u + e) =~= buffer@);
                        assert(window@ =~= u);
                        vstd::utf8::encode_utf8_valid_utf8(v);
                    }
                }
                Err(DecodeError::Error)
            },
        }
    }
}

/// Length-prefixed sequence: the element count as unsigned LEB128, then the
/// elements in order.
impl<T: Encode> Encode for Vec<T> {
    open spec fn spec_enc(v: Seq<T::V>) -> Seq<u8> {
        uleb(v.len()) + enc_seq::<T>(v)
    }

    open spec fn spec_wf(v: Seq<T::V>) -> bool {
        v.len() <= 0xFFFF_FFFF && wf_seq::<T>(v)
    }

    fn encode(&self, buffer: &mut Vec<u8>) {
        uleb64_encode(self.len() as u64, buffer);
        let ghost dv = self.deep_view();
        let mut i: usize = 0;
        while i < self.len()
            invariant
                i <= self.len(),
                dv == self.deep_view(),
                Self::spec_wf(dv),
                dv.len() == self.len(),
                buffer@ == old(buffer)@ + uleb(dv.len()) + enc_seq::<T>(dv.take(i as int)),
            decreases self.len() - i,
        {
            assert(dv[i as int] == self[i as int].deep_view());
            self[i].encode(buffer);
            proof {
                lemma_enc_seq_push::<T>(dv.take(i as int), dv[i as int]);
                assert(dv.take(i as int).push(dv[i as int]) =~= dv.take(i + 1));
                assert(buffer@ =~= old(buffer)@ + uleb(dv.len()) + enc_seq::<T>(dv.take(i + 1)));
            }
            i = i + 1;
        }
        assert(dv.take(dv.len() as int) =~= dv);
        assert(buffer@ =~= old(buffer)@ + Self::spec_enc(dv));
    }
}

/// Length-prefixed sequence.
impl<T: Decode> Decode for Vec<T> {
    open spec fn complete() -> bool {
        T::plain() && T::complete()
    }

    #[verifier::rlimit(100)]
    proof fn lemma_plain(s: Seq<u8>) {
        assert forall|v: Seq<T::V>| Self::spec_enc(v).len() >= 1 by {
            lemma_uleb_len(v.len());
        }
        if Self::dec_ok(Seq::<u8>::empty()) {
            let (v, e) = choose|v: Seq<T::V>, e: Seq<u8>|
                Self::spec_wf(v) && Seq::<u8>::empty() == Self::spec_enc(v) + e && Self::tail_stop(
                    e,
                );
            lemma_uleb_len(v.len());
        }
    }

    #[verifier::rlimit(100)]
    proof fn lemma_unamb(v1: Seq<T::V>, v2: Seq<T::V>, e1: Seq<u8>, e2: Seq<u8>) {
        lemma_uleb_dec_enc(v1.len(), enc_seq::<T>(v1) + e1, 0xFFFF_FFFF);
        lemma_uleb_dec_enc(v2.len(), enc_seq::<T>(v2) + e2, 0xFFFF_FFFF);
        assert(uleb(v1.len()) + (enc_seq::<T>(v1) + e1) =~= Self::spec_enc(v1) + e1);
        assert(uleb(v2.len()) + (enc_seq::<T>(v2) + e2) =~= Self::spec_enc(v2) + e2);
        assert(v1.len() == v2.len() && enc_seq::<T>(v1) + e1 == enc_seq::<T>(v2) + e2);
        lemma_enc_seq_align::<T>(v1, v2, e1, e2);
        assert(v1 =~= v2.take(v1.len() as int));
        assert(v2.take(v2.len() as int) =~= v2);
        assert(v2.skip(v1.len() as int) =~= Seq::<T::V>::empty());
        assert(e1 =~= e2);
    }

    #[verifier::rlimit(100)]
    proof fn lemma_covers(v: Seq<T::V>, e: Seq<u8>) {
        assert(Self::spec_wf(v) && Self::spec_enc(v) + e == Self::spec_enc(v) + e
            && Self::tail_stop(e));
    }

    fn decode(buffer: &[u8]) -> (r: DecodeResult<Self>) {
        proof {
            lemma_uleb_dec_sound(buffer@, 0xFFFF_FFFF);
            if Self::complete() && Self::dec_ok(buffer@) {
                let (w, e) = choose|w: Seq<T::V>, e: Seq<u8>|
                    Self::spec_wf(w) && buffer@ == Self::spec_enc(w) + e && Self::tail_stop(e);
                lemma_uleb_dec_enc(w.len(), enc_seq::<T>(w) + e, 0xFFFF_FFFF);
                assert(uleb(w.len()) + (enc_seq::<T>(w) + e) =~= buffer@);
            }
        }
        let (n, rest0) = match uleb32_decode(buffer) {
            Ok(p) => p,
            Err(_) => {
                return Err(DecodeError::Error);
            },
        };
        let mut vec: Vec<T> = Vec::with_capacity(n as usize);
        let mut cur: &[u8] = rest0;
        let mut i: u32 = 0;
        while i < n
            invariant
                i <= n,
                vec.deep_view().len() == i,
                wf_seq::<T>(vec.deep_view()),
                buffer@ == uleb(n as nat) + enc_seq::<T>(vec.deep_view()) + cur@,
                uleb_dec(buffer@, 0xFFFF_FFFF) == Some((n as nat, rest0@)),
                rest0@ == enc_seq::<T>(vec.deep_view()) + cur@,
            decreases n - i,
        {
            match T::decode(cur) {
                Ok((t, next)) => {
                    let ghost prev = vec.deep_view();
                    vec.push(t);
                    proof {
                        assert(vec.deep_view() =~= prev.push(t.deep_view()));
                        lemma_enc_seq_push::<T>(prev, t.deep_view());
                        assert(buffer@ =~= uleb(n as nat) + enc_seq::<T>(vec.deep_view())
                            + next@);
                        assert(rest0@ =~= enc_seq::<T>(vec.deep_view()) + next@);
                    }
                    cur = next;
                    i = i + 1;
                },
                Err(_) => {
                    proof {
                        if Self::complete() && Self::dec_ok(buffer@) {
                            let (w, e) = choose|w: Seq<T::V>, e: Seq<u8>|
                                Self::spec_wf(w) && buffer@ == Self::spec_enc(w) + e
                                    && Self::tail_stop(e);
                            lemma_uleb_dec_enc(w.len(), enc_seq::<T>(w) + e, 0xFFFF_FFFF);
                            assert(uleb(w.len()) + (enc_seq::<T>(w) + e) =~= buffer@);
                            assert(w.len() == n as nat && rest0@ == enc_seq::<T>(w) + e);
                            lemma_seq_dec_err::<T>(vec.deep_view(), cur@, w, e);
                        }
                    }
                    return Err(DecodeError::Error);
                },
            }
        }
        proof {
            if Self::complete() {
                assert(Self::spec_wf(vec.deep_view()) && buffer@ == Self::spec_enc(vec.deep_view())
                    + cur@ && Self::tail_stop(cur@));
            }
            assert(buffer@ =~= Self::spec_enc(vec.deep_view()) + cur@);
        }
        Ok((vec, cur))
    }
}

/// Greedy sequence: elements in order with no length prefix; decoding stops
/// at the first element that fails to decode.
impl<T: Encode> Encode for Repeated<T> {
    open spec fn spec_enc(v: Seq<T::V>) -> Seq<u8> {
        enc_seq::<T>(v)
    }

    open spec fn spec_wf(v: Seq<T::V>) -> bool {
        wf_seq::<T>(v)
    }

    fn encode(&self, buffer: &mut Vec<u8>) {
        let ghost dv = self.deep_view();
        let mut i: usize = 0;
        while i < self.0.len()
            invariant
                i <= self.0.len(),
                dv == self.deep_view(),
                Self::spec_wf(dv),
                dv.len() == self.0.len(),
                buffer@ == old(buffer)@ + enc_seq::<T>(dv.take(i as int)),
            decreases self.0.len() - i,
        {
            assert(dv[i as int] == self.0[i as int].deep_view());
            self.0[i].encode(buffer);
            proof {
                lemma_enc_seq_push::<T>(dv.take(i as int), dv[i as int]);
                assert(dv.take(i as int).push(dv[i as int]) =~= dv.take(i + 1));
                assert(buffer@ =~= old(buffer)@ + enc_seq::<T>(dv.take(i + 1)));
            }
            i = i + 1;
        }
        assert(dv.take(dv.len() as int) =~= dv);
    }
}

/// Greedy sequence.
impl<T: Decode> Decode for Repeated<T> {
    open spec fn tail_stop(s: Seq<u8>) -> bool {
        !T::dec_ok(s)
    }

    open spec fn plain() -> bool {
        false
    }

    open spec fn complete() -> bool {
        T::plain() && T::complete()
    }

    #[verifier::rlimit(100)]
    proof fn lemma_plain(s: Seq<u8>) {
    }

    #[verifier::rlimit(100)]
    proof fn lemma_unamb(v1: Seq<T::V>, v2: Seq<T::V>, e1: Seq<u8>, e2: Seq<u8>) {
        if v1.len() <= v2.len() {
            lemma_enc_seq_align::<T>(v1, v2, e1, e2);
            if v1.len() < v2.len() {
                lemma_seq_dec_err::<T>(v1, e1, v2, e2);
            }
            assert(v2.take(v2.len() as int) =~= v2);
            assert(v2.skip(v1.len() as int) =~= Seq::<T::V>::empty());
            assert(e1 =~= e2);
        } else {
            lemma_enc_seq_align::<T>(v2, v1, e2, e1);
            if v2.len() < v1.len() {
                lemma_seq_dec_err::<T>(v2, e2, v1, e1);
            }
            assert(v1.take(v1.len() as int) =~= v1);
            assert(v1.skip(v2.len() as int) =~= Seq::<T::V>::empty());
            assert(e1 =~= e2);
        }
    }

    #[verifier::rlimit(100)]
    proof fn lemma_covers(v: Seq<T::V>, e: Seq<u8>) {
        assert(Self::spec_wf(v) && Self::spec_enc(v) + e == Self::spec_enc(v) + e
            && Self::tail_stop(e));
    }

    fn decode(buffer: &[u8]) -> (r: DecodeResult<Self>) {
        let mut vec: Vec<T> = Vec::new();
        let mut cur: &[u8] = buffer;
        let mut fuel: usize = buffer.len();
        loop
            invariant
                buffer@ == enc_seq::<T>(vec.deep_view()) + cur@,
                wf_seq::<T>(vec.deep_view()),
                T::plain() && T::complete() ==> cur@.len() <= fuel,
            ensures
                buffer@ == enc_seq::<T>(vec.deep_view()) + cur@,
                wf_seq::<T>(vec.deep_view()),
                T::plain() && T::complete() ==> !T::dec_ok(cur@),
            decreases fuel,
        {
            proof {
                assert(vec.deep_view() == vec.deep_view());
            }
            if fuel == 0 {
                proof {
                    if T::plain() && T::complete() {
                        T::lemma_plain(cur@);
                        assert(cur@ =~= Seq::<u8>::empty());
                    }
                }
                break ;
            }
            match T::decode(cur) {
                Ok((t, next)) => {
                    let ghost prev = vec.deep_view();
                    vec.push(t);
                    proof {
                        assert(vec.deep_view() =~= prev.push(t.deep_view()));
                        lemma_enc_seq_push::<T>(prev, t.deep_view());
                        assert(buffer@ =~= enc_seq::<T>(vec.deep_view()) + next@);
                        if T::plain() && T::complete() {
                            T::lemma_plain(cur@);
                        }
                    }
                    cur = next;
                    fuel = fuel - 1;
                },
                Err(_) => {
                    break ;
                },
            }
        }
        proof {
            if Self::complete() {
                assert(Self::spec_wf(vec.deep_view()) && buffer@ == Self::spec_enc(vec.deep_view())
                    + cur@ && Self::tail_stop(cur@));
            }
        }
        Ok((Repeated(vec), cur))
    }
}

/// Size-prefixed block: an unsigned LEB128 byte count, then exactly that
/// many bytes holding one `T`; residual bytes in the block are an error.
impl<T: Encode> Encode for Sized<T> {
    open spec fn spec_enc(v: T::V) -> Seq<u8> {
        uleb(T::spec_enc(v).len()) + T::spec_enc(v)
    }

    open spec fn spec_wf(v: T::V) -> bool {
        T::spec_wf(v) && T::spec_enc(v).len() <= 0xFFFF_FFFF
    }

    fn encode(&self, buffer: &mut Vec<u8>) {
        let mut scratch: Vec<u8> = Vec::new();
        self.0.encode(&mut scratch);
        uleb64_encode(scratch.len() as u64, buffer);
        buffer.append(&mut scratch);
        assert(buffer@ =~= old(buffer)@ + Self::spec_enc(self.deep_view()));
    }
}

/// Size-prefixed block.
impl<T: Decode> Decode for Sized<T> {
    open spec fn complete() -> bool {
        T::complete() && T::tail_stop(Seq::<u8>::empty())
    }

    #[verifier::rlimit(100)]
    proof fn lemma_plain(s: Seq<u8>) {
        assert forall|v: T::V| Self::spec_enc(v).len() >= 1 by {
            lemma_uleb_len(T::spec_enc(v).len());
        }
        if Self::dec_ok(Seq::<u8>::empty()) {
            let (v, e) = choose|v: T::V, e: Seq<u8>|
                Self::spec_wf(v) && Seq::<u8>::empty() == Self::spec_enc(v) + e && Self::tail_stop(
                    e,
                );
            lemma_uleb_len(T::spec_enc(v).len());
        }
    }

    #[verifier::rlimit(100)]
    proof fn lemma_unamb(v1: T::V, v2: T::V, e1: Seq<u8>, e2: Seq<u8>) {
        let u1 = T::spec_enc(v1);
        let u2 = T::spec_enc(v2);
        lemma_uleb_dec_enc(u1.len(), u1 + e1, 0xFFFF_FFFF);
        lemma_uleb_dec_enc(u2.len(), u2 + e2, 0xFFFF_FFFF);
        assert(uleb(u1.len()) + (u1 + e1) =~= Self::spec_enc(v1) + e1);
        assert(uleb(u2.len()) + (u2 + e2) =~= Self::spec_enc(v2) + e2);
        assert(u1.len() == u2.len() && u1 + e1 == u2 + e2);
        lemma_concat_cancel(u1, e1, u2, e2);
        T::lemma_unamb(v1, v2, Seq::<u8>::empty(), Seq::<u8>::empty());
    }

    #[verifier::rlimit(100)]
    proof fn lemma_covers(v: T::V, e: Seq<u8>) {
        assert(Self::spec_wf(v) && Self::spec_enc(v) + e == Self::spec_enc(v) + e
            && Self::tail_stop(e));
    }

    fn decode(buffer: &[u8]) -> (r: DecodeResult<Self>) {
        proof {
            lemma_uleb_dec_sound(buffer@, 0xFFFF_FFFF);
            if Self::complete() && Self::dec_ok(buffer@) {
                let (w, e) = choose|w: T::V, e: Seq<u8>|
                    Self::spec_wf(w) && buffer@ == Self::spec_enc(w) + e && Self::tail_stop(e);
                lemma_uleb_dec_enc(T::spec_enc(w).len(), T::spec_enc(w) + e, 0xFFFF_FFFF);
                assert(uleb(T::spec_enc(w).len()) + (T::spec_enc(w) + e) =~= buffer@);
            }
        }
        let (n, rest) = match uleb32_decode(buffer) {
            Ok(p) => p,
            Err(_) => {
                return Err(DecodeError::Error);
            },
        };
        let size = n as usize;
        if size > rest.len() {
            proof {
                if Self::complete() && Self::dec_ok(buffer@) {
                    assert(false);
                }
            }
            return Err(DecodeError::Error);
        }
        let window = vstd::slice::slice_subrange(rest, 0, size);
        let tail = vstd::slice::slice_subrange(rest, size, rest.len());
        proof {
            if Self::complete() && Self::dec_ok(buffer@) {
                let (w, e) = choose|w: T::V, e: Seq<u8>|
                    Self::spec_wf(w) && buffer@ == Self::spec_enc(w) + e && Self::tail_stop(e);
                lemma_uleb_dec_enc(T::spec_enc(w).len(), T::spec_enc(w) + e, 0xFFFF_FFFF);
                assert(uleb(T::spec_enc(w).len()) + (T::spec_enc(w) + e) =~= buffer@);
                assert(rest@ == T::spec_enc(w) + e && T::spec_enc(w).len() == n as nat);
                assert(window@ =~= T::spec_enc(w));
                T::lemma_covers(w, Seq::<u8>::empty());
                assert(T::spec_enc(w) + Seq::<u8>::empty() =~= window@);
            }
        }
        match T::decode(window) {
            Ok((t, inner)) => {
                if inner.len() == 0 {
                    proof {
                        assert(window@ =~= T::spec_enc(t.deep_view()));
                        assert(buffer@ =~= uleb(n as nat) + window@ + tail@);
                        assert(Self::spec_enc(t.deep_view()) + tail@ =~= uleb(n as nat) + window@
                            + tail@);
                        if Self::complete() {
                            assert(Self::dec_ok(buffer@)) by {
                                assert(Self::spec_wf(t.deep_view()) && buffer@ == Self::spec_enc(
                                    t.deep_view(),
                                ) + tail@ && Self::tail_stop(tail@));
                            }
                        }
                    }
                    Ok((Sized(t), tail))
                } else {
                    proof {
                        if Self::complete() && Self::dec_ok(buffer@) {
                            let (w, e) = choose|w: T::V, e: Seq<u8>|
                                Self::spec_wf(w) && buffer@ == Self::spec_enc(w) + e
                                    && Self::tail_stop(e);
                            lemma_uleb_dec_enc(T::spec_enc(w).len(), T::spec_enc(w) + e,
                                0xFFFF_FFFF);
                            assert(uleb(T::spec_enc(w).len()) + (T::spec_enc(w) + e) =~= buffer@);
                            assert(window@ =~= T::spec_enc(w));
                            assert(T::spec_enc(w) + Seq::<u8>::empty() =~= window@);
                            T::lemma_unamb(w, t.deep_view(), Seq::<u8>::empty(), inner@);
                        }
                    }
                    Err(DecodeError::Error)
                }
            },
            Err(_) => {
                Err(DecodeError::Error)
            },
        }
    }
}


/// Law: a canonical encoding followed by a stopped tail splits back into
/// exactly that value and that tail.  Together with [`Decode::decode`]'s
/// contract this says decoding inverts encoding: running `decode` on
/// `spec_enc(v) + extra` must succeed, and whatever value and rest it
/// returns are `v` and `extra`.
pub proof fn lemma_decode_inverts_encode<T: Decode>(
    v: T::V,
    extra: Seq<u8>,
    v2: T::V,
    rest: Seq<u8>,
)
    requires
        T::complete(),
        T::spec_wf(v),
        T::spec_wf(v2),
        T::tail_stop(extra),
        T::tail_stop(rest),
        T::spec_enc(v) + extra == T::spec_enc(v2) + rest,
    ensures
        v2 == v,
        rest == extra,
        T::dec_ok(T::spec_enc(v) + extra),
{
    T::lemma_covers(v, extra);
    T::lemma_unamb(v, v2, extra, rest);
}

/// Law: no plain wire type decodes from the empty buffer.
pub proof fn lemma_empty_buffer_fails<T: Decode>()
    requires
        T::plain(),
    ensures
        !T::dec_ok(Seq::<u8>::empty()),
{
    T::lemma_plain(Seq::<u8>::empty());
}

} // verus!




