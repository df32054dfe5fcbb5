//! Exact integer arithmetic helpers: rational interpolation scalars,
//! fixed-point decoding of IEEE 754 single-precision bit patterns, and
//! little-endian byte packing for GPU uploads.

use vstd::prelude::*;
use vstd::arithmetic::power2::{lemma2_to64, lemma2_to64_rest, lemma_pow2_strictly_increases, pow2};
use vstd::bits::{lemma_u64_shl_is_mul, lemma_u64_shr_is_div};

verus! {

/// Number of fractional bits of the library's fixed-point coordinate format.
pub const COORD_FRAC_BITS: u32 = 16;

/// An exact rational in `[0, 1]`: `num / den`. This is the model of the
/// leading interpolation scalar of an animation buffer.
#[derive(Clone, Copy, PartialEq, Eq, Structural, Debug)]
pub struct Fraction {
    pub num: u64,
    pub den: u64,
}

impl Fraction {
    /// A valid scalar: the denominator is positive and the value is at most 1.
    pub open spec fn wf(self) -> bool {
        self.den > 0 && self.num <= self.den
    }

    /// The zero scalar, as a freshly created (zero-filled) buffer holds it.
    pub fn zero() -> (r: Fraction)
        ensures
            r.num == 0 && r.den == 1,
            r.wf(),
    {
        Fraction { num: 0, den: 1 }
    }
}

/// Sign bit of an IEEE 754 single-precision bit pattern.
pub open spec fn f32_bits_sign(bits: u32) -> bool {
    bits >> 31 == 1
}

/// Exponent field of an IEEE 754 single-precision bit pattern.
pub open spec fn f32_bits_exp(bits: u32) -> u32 {
    (bits >> 23) & 0xff
}

/// Mantissa field of an IEEE 754 single-precision bit pattern.
pub open spec fn f32_bits_man(bits: u32) -> u32 {
    bits & 0x7fffff
}

/// The magnitude of the value encoded by `bits`, multiplied by
/// `2^frac_bits` and truncated to an integer, together with the sign.
/// `None` for infinities, NaNs, and magnitudes that do not fit in 64 bits.
pub open spec fn spec_f32_decode(bits: u32, frac_bits: nat) -> Option<(bool, nat)> {
    let exp = f32_bits_exp(bits);
    let man = f32_bits_man(bits) as nat;
    let neg = f32_bits_sign(bits);
    if exp == 0xff {
        None
    } else {
        let m: nat = if exp == 0 { man } else { (man + 0x800000) as nat };
        let e: nat = if exp == 0 { 1nat } else { exp as nat };
        if e + frac_bits >= 150 {
            let s: nat = (e + frac_bits - 150) as nat;
            if s > 40 {
                None
            } else {
                Some((neg, m * pow2(s)))
            }
        } else {
            let k: nat = (150 - e - frac_bits) as nat;
            Some((neg, m / pow2(k)))
        }
    }
}

/// Decodes an IEEE 754 single-precision bit pattern into its sign and its
/// magnitude scaled by `2^frac_bits`, truncated to an integer.
pub fn f32_decode(bits: u32, frac_bits: u32) -> (r: Option<(bool, u64)>)
    requires
        frac_bits <= 16,
    ensures
        match r {
            None => spec_f32_decode(bits, frac_bits as nat) is None,
            Some(p) => spec_f32_decode(bits, frac_bits as nat) == Some((p.0, p.1 as nat)),
        },
{
    let exp: u32 = (bits >> 23) & 0xff;
    let man: u32 = bits & 0x7fffff;
    let neg: bool = (bits >> 31) == 1;
    if exp == 0xff {
        return None;
    }
    assert(bits & 0x7fffff < 0x800000) by (bit_vector);
    assert((bits >> 23) & 0xff < 0x100) by (bit_vector);
    let m: u64 = if exp == 0 { man as u64 } else { (man + 0x800000) as u64 };
    let e: u32 = if exp == 0 { 1 } else { exp };
    if e + frac_bits >= 150 {
        let s: u32 = e + frac_bits - 150;
        if s > 40 {
            return None;
        }
        proof {
            lemma2_to64();
            lemma2_to64_rest();
            if s < 40 {
                lemma_pow2_strictly_increases(s as nat, 40);
            }
            assert(m * pow2(s as nat) <= m * pow2(40)) by (nonlinear_arith)
                requires
                    pow2(s as nat) <= pow2(40),
                    m >= 0,
            ;
            assert(m * pow2(40) < 0x1000000 * 0x10000000000) by (nonlinear_arith)
                requires
                    m < 0x1000000,
                    pow2(40) == 0x10000000000,
            ;
            lemma_u64_shl_is_mul(m, s as u64);
        }
        Some((neg, m << (s as u64)))
    } else {
        let k: u32 = 150 - (e + frac_bits);
        if k >= 24 {
            proof {
                lemma2_to64();
                if k > 24 {
                    lemma_pow2_strictly_increases(24, k as nat);
                }
                assert(m < pow2(k as nat));
                vstd::arithmetic::div_mod::lemma_basic_div(m as int, pow2(k as nat) as int);
            }
            Some((neg, 0))
        } else {
            proof {
                lemma_u64_shr_is_div(m, k as u64);
            }
            Some((neg, m >> (k as u64)))
        }
    }
}

/// The value encoded by `bits`, multiplied by `2^COORD_FRAC_BITS` and
/// truncated toward zero: the library's fixed-point coordinate format.
pub open spec fn spec_f32_to_fixed(bits: u32) -> Option<i64> {
    match spec_f32_decode(bits, 16) {
        None => None,
        Some((neg, mag)) => if mag > i64::MAX {
            None
        } else {
            Some(if neg { (-(mag as int)) as i64 } else { mag as i64 })
        },
    }
}

/// Decodes an IEEE 754 single-precision bit pattern into a fixed-point
/// coordinate with `COORD_FRAC_BITS` fractional bits, truncated toward zero.
pub fn f32_bits_to_fixed(bits: u32) -> (r: Option<i64>)
    ensures
        r == spec_f32_to_fixed(bits),
{
    match f32_decode(bits, COORD_FRAC_BITS) {
        None => None,
        Some((neg, mag)) => {
            if mag > i64::MAX as u64 {
                None
            } else {
                if neg {
                    Some(-(mag as i64))
                } else {
                    Some(mag as i64)
                }
            }
        },
    }
}

/// The nonnegative whole number of units encoded by `bits`, truncated:
/// used for keyframe timestamps carried as single-precision milliseconds.
/// `None` for negative values, infinities and NaNs.
pub open spec fn spec_f32_to_whole(bits: u32) -> Option<u64> {
    match spec_f32_decode(bits, 0) {
        None => None,
        Some((neg, mag)) => if neg && mag > 0 {
            None
        } else {
            Some(mag as u64)
        },
    }
}

/// Decodes an IEEE 754 single-precision bit pattern into a nonnegative
/// whole number, truncating any fractional part. Rejects negative values.
pub fn f32_bits_to_whole(bits: u32) -> (r: Option<u64>)
    ensures
        r == spec_f32_to_whole(bits),
{
    match f32_decode(bits, 0) {
        None => None,
        Some((neg, mag)) => {
            if neg && mag > 0 {
                None
            } else {
                Some(mag)
            }
        },
    }
}

/// The least element of a sequence of integers (0 for an empty one).
pub open spec fn seq_min(s: Seq<int>) -> int
    decreases s.len(),
{
    if s.len() == 0 {
        0
    } else if s.len() == 1 {
        s[0]
    } else {
        let m = seq_min(s.drop_last());
        if s.last() < m {
            s.last()
        } else {
            m
        }
    }
}

/// The greatest element of a sequence of integers (0 for an empty one).
pub open spec fn seq_max(s: Seq<int>) -> int
    decreases s.len(),
{
    if s.len() == 0 {
        0
    } else if s.len() == 1 {
        s[0]
    } else {
        let m = seq_max(s.drop_last());
        if s.last() > m {
            s.last()
        } else {
            m
        }
    }
}

/// Every element lies between the sequence's least and greatest.
pub proof fn lemma_seq_min_max_bounds(s: Seq<int>, i: int)
    requires
        0 <= i < s.len(),
    ensures
        seq_min(s) <= s[i],
        s[i] <= seq_max(s),
    decreases s.len(),
{
    if i < s.len() - 1 {
        lemma_seq_min_max_bounds(s.drop_last(), i);
    }
}

/// The least and greatest are attained by some element.
pub proof fn lemma_seq_min_max_attained(s: Seq<int>)
    requires
        s.len() > 0,
    ensures
        exists|i: int| 0 <= i < s.len() && s[i] == seq_min(s),
        exists|j: int| 0 <= j < s.len() && s[j] == seq_max(s),
    decreases s.len(),
{
    if s.len() == 1 {
        assert(s[0] == seq_min(s));
        assert(s[0] == seq_max(s));
    } else {
        lemma_seq_min_max_attained(s.drop_last());
        if s.last() < seq_min(s.drop_last()) {
            assert(s[s.len() - 1] == seq_min(s));
        } else {
            let i = choose|i: int|
                0 <= i < s.drop_last().len() && s.drop_last()[i] == seq_min(s.drop_last());
            assert(s[i] == seq_min(s));
        }
        if s.last() > seq_max(s.drop_last()) {
            assert(s[s.len() - 1] == seq_max(s));
        } else {
            let j = choose|j: int|
                0 <= j < s.drop_last().len() && s.drop_last()[j] == seq_max(s.drop_last());
            assert(s[j] == seq_max(s));
        }
    }
}

/// The little-endian bytes of a 32-bit word, lowest byte first.
pub open spec fn spec_u32_le_bytes(x: u32) -> Seq<u8> {
    seq![
        (x & 0xff) as u8,
        ((x >> 8) & 0xff) as u8,
        ((x >> 16) & 0xff) as u8,
        ((x >> 24) & 0xff) as u8,
    ]
}

/// Appends the four little-endian bytes of `x` to `out`.
pub fn push_u32_le(out: &mut Vec<u8>, x: u32)
    ensures
        final(out)@ == old(out)@ + spec_u32_le_bytes(x),
{
    out.push((x & 0xff) as u8);
    out.push(((x >> 8) & 0xff) as u8);
    out.push(((x >> 16) & 0xff) as u8);
    out.push(((x >> 24) & 0xff) as u8);
    proof {
        assert(out@ =~= old(out)@ + spec_u32_le_bytes(x));
    }
}

/// The little-endian 16-bit word at byte offset `off`.
pub open spec fn spec_u16_le_at(b: Seq<u8>, off: int) -> u16 {
    (b[off] as u16) | ((b[off + 1] as u16) << 8)
}

/// The little-endian 32-bit word at byte offset `off`.
pub open spec fn spec_u32_le_at(b: Seq<u8>, off: int) -> u32 {
    (b[off] as u32) | ((b[off + 1] as u32) << 8) | ((b[off + 2] as u32) << 16) | ((b[off
        + 3] as u32) << 24)
}

/// The little-endian 64-bit word at byte offset `off`.
pub open spec fn spec_u64_le_at(b: Seq<u8>, off: int) -> u64 {
    (b[off] as u64) | ((b[off + 1] as u64) << 8) | ((b[off + 2] as u64) << 16) | ((b[off
        + 3] as u64) << 24) | ((b[off + 4] as u64) << 32) | ((b[off + 5] as u64) << 40) | ((b[off
        + 6] as u64) << 48) | ((b[off + 7] as u64) << 56)
}

/// Reads the little-endian 16-bit word at byte offset `off`.
pub fn u16_le_at(b: &[u8], off: usize) -> (r: u16)
    requires
        off + 2 <= b@.len(),
    ensures
        r == spec_u16_le_at(b@, off as int),
{
    let blen: usize = b.len();
    (*vstd::slice::slice_index_get(b, off) as u16) | ((*vstd::slice::slice_index_get(
        b,
        off + 1,
    ) as u16) << 8u16)
}

/// Reads the little-endian 32-bit word at byte offset `off`.
pub fn u32_le_at(b: &[u8], off: usize) -> (r: u32)
    requires
        off + 4 <= b@.len(),
    ensures
        r == spec_u32_le_at(b@, off as int),
{
    let blen: usize = b.len();
    (*vstd::slice::slice_index_get(b, off) as u32) | ((*vstd::slice::slice_index_get(
        b,
        off + 1,
    ) as u32) << 8u32) | ((*vstd::slice::slice_index_get(b, off + 2) as u32) << 16u32) | ((
    *vstd::slice::slice_index_get(b, off + 3) as u32) << 24u32)
}

/// Reads the little-endian 64-bit word at byte offset `off`.
pub fn u64_le_at(b: &[u8], off: usize) -> (r: u64)
    requires
        off + 8 <= b@.len(),
    ensures
        r == spec_u64_le_at(b@, off as int),
{
    let blen: usize = b.len();
    (*vstd::slice::slice_index_get(b, off) as u64) | ((*vstd::slice::slice_index_get(
        b,
        off + 1,
    ) as u64) << 8u64) | ((*vstd::slice::slice_index_get(b, off + 2) as u64) << 16u64) | ((
    *vstd::slice::slice_index_get(b, off + 3) as u64) << 24u64) | ((*vstd::slice::slice_index_get(
        b,
        off + 4,
    ) as u64) << 32u64) | ((*vstd::slice::slice_index_get(b, off + 5) as u64) << 40u64) | ((
    *vstd::slice::slice_index_get(b, off + 6) as u64) << 48u64) | ((*vstd::slice::slice_index_get(
        b,
        off + 7,
    ) as u64) << 56u64)
}

/// Reads a big-endian 32-bit word from four bytes.
pub open spec fn spec_u32_be(b0: u8, b1: u8, b2: u8, b3: u8) -> u32 {
    ((b0 as u32) << 24) | ((b1 as u32) << 16) | ((b2 as u32) << 8) | (b3 as u32)
}

/// Combines four bytes, highest first, into a 32-bit word.
pub fn u32_from_be(b0: u8, b1: u8, b2: u8, b3: u8) -> (r: u32)
    ensures
        r == spec_u32_be(b0, b1, b2, b3),
{
    ((b0 as u32) << 24u32) | ((b1 as u32) << 16u32) | ((b2 as u32) << 8u32) | (b3 as u32)
}

} // verus!
