//! LEB128 variable-length integer encodings.
//!
//! The wire format uses 7 value bits per byte with a continuation flag in
//! bit 7.  The decoder accepts exactly the canonical (shortest) encoding of
//! each integer, so that decoding is the exact inverse of encoding and
//! re-encoding a decoded buffer reproduces it byte for byte.

use vstd::prelude::*;

verus! {

/// Canonical unsigned LEB128 encoding of `n`: low 7 bits first, continuation
/// bit set on every byte but the last.
pub open spec fn uleb(n: nat) -> Seq<u8>
    decreases n,
{
    if n < 128 {
        seq![n as u8]
    } else {
        seq![(n % 128 + 128) as u8] + uleb(n / 128)
    }
}

/// Decodes an unsigned LEB128 prefix of `s`, limited to values up to `bound`.
/// Returns the value and the remaining bytes.  Rejects non-canonical
/// (overlong) encodings and values beyond `bound`.
pub open spec fn uleb_dec(s: Seq<u8>, bound: nat) -> Option<(nat, Seq<u8>)>
    decreases s.len(),
{
    if s.len() == 0 {
        None
    } else if s[0] < 128 {
        if s[0] <= bound {
            Some((s[0] as nat, s.drop_first()))
        } else {
            None
        }
    } else {
        match uleb_dec(s.drop_first(), bound) {
            Some((hi, rest)) => {
                if 1 <= hi && hi <= (bound - 127) / 128 {
                    Some((((s[0] - 128) + 128 * hi) as nat, rest))
                } else {
                    None
                }
            },
            None => None,
        }
    }
}

/// Canonical signed LEB128 encoding of `v`: low 7 bits first; the encoding
/// ends at the first byte whose sign bit (bit 6) already gives the right sign
/// extension.
pub open spec fn sleb(v: int) -> Seq<u8>
    decreases vstd::math::abs(v),
{
    let b = v % 128;
    let q = v / 128;
    if (q == 0 && b < 64) || (q == -1 && b >= 64) {
        seq![b as u8]
    } else {
        seq![(b + 128) as u8] + sleb(q)
    }
}

/// Decodes a signed LEB128 prefix of `s`, limited to values in `[lo, hi]`.
/// Rejects non-canonical encodings and out-of-range values.
pub open spec fn sleb_dec(s: Seq<u8>, lo: int, hi: int) -> Option<(int, Seq<u8>)>
    decreases s.len(),
{
    if s.len() == 0 {
        None
    } else if s[0] < 64 {
        Some((s[0] as int, s.drop_first()))
    } else if s[0] < 128 {
        Some((s[0] - 128, s.drop_first()))
    } else {
        match sleb_dec(s.drop_first(), lo, hi) {
            Some((h, rest)) => {
                let low = s[0] - 128;
                if lo / 128 <= h && h <= (hi - 127) / 128 && !(h == 0 && low < 64) && !(h == -1
                    && low >= 64) {
                    Some((low + 128 * h, rest))
                } else {
                    None
                }
            },
            None => None,
        }
    }
}

/// An unsigned encoding is never empty.
pub proof fn lemma_uleb_len(n: nat)
    ensures
        uleb(n).len() >= 1,
        n < 128 ==> uleb(n).len() == 1,
{
}

/// A signed encoding is never empty.
pub proof fn lemma_sleb_len(v: int)
    ensures
        sleb(v).len() >= 1,
{
}

/// Decoding inverts encoding: the canonical encoding of any in-range value,
/// followed by any tail, decodes to that value and that tail.
pub proof fn lemma_uleb_dec_enc(n: nat, e: Seq<u8>, bound: nat)
    requires
        n <= bound,
        bound >= 127,
        bound % 128 == 127,
    ensures
        uleb_dec(uleb(n) + e, bound) == Some((n, e)),
    decreases n,
{
    let s = uleb(n) + e;
    if n < 128 {
        assert(s[0] == n as u8);
        assert(s.drop_first() =~= e);
    } else {
        let b = n % 128;
        let q = n / 128;
        assert(s[0] == (b + 128) as u8);
        assert(s.drop_first() =~= uleb(q) + e);
        lemma_uleb_dec_enc(q, e, bound);
        assert(1 <= q);
        assert(n == 128 * q + b);
        assert(q <= (bound - 127) / 128) by {
            assert(128 * q <= n);
            assert(128 * q <= bound - 127) by {
                if 128 * q > bound - 127 {
                    assert(128 * q >= bound - 127 + 1);
                    assert(128 * q + 127 >= bound + 1);
                }
            }
            assert(q <= (bound - 127) / 128) by (nonlinear_arith)
                requires
                    128 * q <= bound - 127,
                    q >= 0,
            ;
        }
        assert((s[0] - 128) + 128 * q == n);
    }
}

/// Decoding is sound: whatever it returns came from the canonical encoding
/// of the returned value, and the value is in range.
pub proof fn lemma_uleb_dec_sound(s: Seq<u8>, bound: nat)
    requires
        bound >= 127,
        bound % 128 == 127,
    ensures
        uleb_dec(s, bound) matches Some((n, rest)) ==> n <= bound && s == uleb(n) + rest
            && rest.len() < s.len(),
    decreases s.len(),
{
    if s.len() > 0 && s[0] >= 128 {
        lemma_uleb_dec_sound(s.drop_first(), bound);
        if let Some((hi, rest)) = uleb_dec(s.drop_first(), bound) {
            if 1 <= hi && hi <= (bound - 127) / 128 {
                let n = ((s[0] - 128) + 128 * hi) as nat;
                assert(n % 128 == (s[0] - 128)) by (nonlinear_arith)
                    requires
                        0 <= s[0] - 128 < 128,
                        n == (s[0] - 128) + 128 * hi,
                        hi >= 0,
                ;
                assert(n / 128 == hi) by (nonlinear_arith)
                    requires
                        0 <= s[0] - 128 < 128,
                        n == (s[0] - 128) + 128 * hi,
                        hi >= 0,
                ;
                assert(n >= 128) by {
                    assert(128 * hi >= 128) by (nonlinear_arith)
                        requires
                            hi >= 1,
                    ;
                }
                assert(n <= bound) by {
                    assert(128 * hi <= bound - 127) by (nonlinear_arith)
                        requires
                            hi <= (bound - 127) / 128,
                            hi >= 0,
                            (bound - 127) % 128 == 0,
                    ;
                }
                assert(uleb(n) =~= seq![s[0]] + uleb(hi as nat));
                assert(s =~= seq![s[0]] + s.drop_first());
                assert(s =~= uleb(n) + rest);
            }
        }
    } else if s.len() > 0 && s[0] < 128 && s[0] <= bound {
        let n = s[0] as nat;
        assert(s =~= uleb(n) + s.drop_first());
    }
}

/// Decoding inverts encoding, signed case.
pub proof fn lemma_sleb_dec_enc(v: int, e: Seq<u8>, lo: int, hi: int)
    requires
        lo <= v <= hi,
        lo % 128 == 0,
        lo <= -128,
        hi >= 127,
        hi % 128 == 127,
    ensures
        sleb_dec(sleb(v) + e, lo, hi) == Some((v, e)),
    decreases vstd::math::abs(v),
{
    let s = sleb(v) + e;
    let b = v % 128;
    let q = v / 128;
    if (q == 0 && b < 64) || (q == -1 && b >= 64) {
        assert(s[0] == b as u8);
        assert(s.drop_first() =~= e);
        if q == 0 {
            assert(v == b);
        } else {
            assert(v == b - 128);
        }
    } else {
        assert(s[0] == (b + 128) as u8);
        assert(s.drop_first() =~= sleb(q) + e);
        assert(v == 128 * q + b);
        assert(lo <= q <= hi) by (nonlinear_arith)
            requires
                v == 128 * q + b,
                0 <= b < 128,
                lo <= v <= hi,
                lo <= -128,
                hi >= 127,
        ;
        lemma_sleb_dec_enc(q, e, lo, hi);
        assert(lo / 128 <= q) by {
            assert(128 * q + b >= lo);
            assert(128 * q >= lo - b);
            assert(q >= lo / 128) by (nonlinear_arith)
                requires
                    128 * q >= lo - 127,
                    lo % 128 == 0,
            ;
        }
        assert(q <= (hi - 127) / 128) by {
            assert(128 * q + b <= hi);
            assert(q <= (hi - 127) / 128) by (nonlinear_arith)
                requires
                    128 * q <= hi,
                    0 <= b < 128,
                    128 * q + b <= hi,
                    hi % 128 == 127,
            ;
        }
        assert((s[0] - 128) + 128 * q == v);
    }
}

/// Decoding is sound, signed case.
pub proof fn lemma_sleb_dec_sound(s: Seq<u8>, lo: int, hi: int)
    requires
        lo % 128 == 0,
        lo <= -128,
        hi >= 127,
        hi % 128 == 127,
    ensures
        sleb_dec(s, lo, hi) matches Some((v, rest)) ==> lo <= v <= hi && s == sleb(v) + rest
            && rest.len() < s.len(),
    decreases s.len(),
{
    if s.len() == 0 {
    } else if s[0] < 64 {
        let v = s[0] as int;
        assert(v % 128 == v && v / 128 == 0);
        assert(s =~= sleb(v) + s.drop_first());
    } else if s[0] < 128 {
        let v = s[0] - 128;
        assert(v % 128 == s[0] as int && v / 128 == -1);
        assert(s =~= sleb(v) + s.drop_first());
    } else {
        lemma_sleb_dec_sound(s.drop_first(), lo, hi);
        if let Some((h, rest)) = sleb_dec(s.drop_first(), lo, hi) {
            let low = s[0] - 128;
            if lo / 128 <= h && h <= (hi - 127) / 128 && !(h == 0 && low < 64) && !(h == -1 && low
                >= 64) {
                let v = low + 128 * h;
                assert(v % 128 == low && v / 128 == h) by (nonlinear_arith)
                    requires
                        0 <= low < 128,
                        v == low + 128 * h,
                ;
                assert(lo <= v) by {
                    assert(128 * (lo / 128) == lo);
                    assert(128 * h >= 128 * (lo / 128)) by (nonlinear_arith)
                        requires
                            h >= lo / 128,
                    ;
                }
                assert(v <= hi) by {
                    assert(128 * h <= 128 * ((hi - 127) / 128)) by (nonlinear_arith)
                        requires
                            h <= (hi - 127) / 128,
                    ;
                    assert(128 * ((hi - 127) / 128) == hi - 127);
                }
                assert(sleb(v) =~= seq![s[0]] + sleb(h));
                assert(s =~= seq![s[0]] + s.drop_first());
                assert(s =~= sleb(v) + rest);
            }
        }
    }
}

} // verus!
