//! Single-precision numbers held as their IEEE-754 bit patterns.
//!
//! The registers of a box and the constants of its scripts are single-precision
//! values. This library keeps each one as its 32-bit pattern and decides here
//! what can be read off the pattern exactly: zero, NaN, equality, magnitude
//! comparison and truncation to an integer. Rounding arithmetic is not done
//! here: the interpreter receives it from its caller.
use vstd::prelude::*;
use vstd::arithmetic::power2::{pow2, lemma2_to64, lemma_pow2_strictly_increases, lemma_pow2_pos};
use vstd::bits::{lemma_u32_shl_is_mul, lemma_u32_shr_is_div};

verus! {

/// The pattern of `0.0`.
pub const ZERO_BITS: u32 = 0;

/// The pattern of `1.0`.
pub const ONE_BITS: u32 = 0x3f80_0000;

/// The pattern of the single nearest to `1e-5`, the tolerance of `Equals`.
pub const EPSILON_BITS: u32 = 0x3727_c5ac;

/// Biased exponent field.
pub open spec fn exponent(b: u32) -> u32 {
    (b >> 23u32) & 0xffu32
}

/// Fraction field.
pub open spec fn fraction(b: u32) -> u32 {
    b & 0x7f_ffffu32
}

/// The sign bit is set.
pub open spec fn is_negative(b: u32) -> bool {
    b >= 0x8000_0000u32
}

/// The pattern with the sign bit cleared: the absolute value.
pub open spec fn magnitude(b: u32) -> u32 {
    b & 0x7fff_ffffu32
}

pub open spec fn is_nan(b: u32) -> bool {
    exponent(b) == 0xffu32 && fraction(b) != 0
}

/// `+0.0` or `-0.0`.
pub open spec fn is_zero(b: u32) -> bool {
    magnitude(b) == 0
}

/// IEEE equality: NaN equals nothing, the two zeros are equal, and otherwise
/// equal values have equal patterns.
pub open spec fn same_value(a: u32, b: u32) -> bool {
    !is_nan(a) && !is_nan(b) && (a == b || (is_zero(a) && is_zero(b)))
}

/// `|x| < 1e-5`. Patterns with a clear sign bit are ordered as the values
/// they encode, and every NaN pattern lies above that of the tolerance, so
/// comparing magnitudes as integers decides it.
pub open spec fn within_epsilon(b: u32) -> bool {
    magnitude(b) < EPSILON_BITS
}

/// The significand with its implicit leading one.
pub open spec fn significand(b: u32) -> int {
    fraction(b) as int + 0x80_0000
}

/// `|x|` truncated toward zero, for `1 <= |x| < 2^31`.
pub open spec fn truncated_magnitude(b: u32) -> int {
    if exponent(b) >= 150 {
        significand(b) * pow2((exponent(b) - 150) as nat)
    } else {
        significand(b) / (pow2((150 - exponent(b)) as nat) as int)
    }
}

/// The value truncated toward zero and saturated to `i32`; NaN gives zero.
/// This is the meaning of a float-to-`i32` cast.
pub open spec fn truncated(b: u32) -> i32 {
    if is_nan(b) {
        0
    } else if exponent(b) < 127 {
        0
    } else if exponent(b) >= 158 {
        if is_negative(b) { i32::MIN } else { i32::MAX }
    } else if is_negative(b) {
        (-truncated_magnitude(b)) as i32
    } else {
        truncated_magnitude(b) as i32
    }
}

pub fn is_zero_bits(b: u32) -> (r: bool)
    ensures
        r == is_zero(b),
{
    b & 0x7fff_ffff == 0
}

pub fn is_nan_bits(b: u32) -> (r: bool)
    ensures
        r == is_nan(b),
{
    (b >> 23) & 0xff == 0xff && b & 0x7f_ffff != 0
}

/// IEEE equality of two patterns.
pub fn same_value_bits(a: u32, b: u32) -> (r: bool)
    ensures
        r == same_value(a, b),
{
    !is_nan_bits(a) && !is_nan_bits(b) && (a == b || (is_zero_bits(a) && is_zero_bits(b)))
}

pub fn within_epsilon_bits(b: u32) -> (r: bool)
    ensures
        r == within_epsilon(b),
{
    b & 0x7fff_ffff < EPSILON_BITS
}

proof fn lemma_truncated_magnitude_bounds(b: u32)
    requires
        127 <= exponent(b) < 158,
    ensures
        1 <= truncated_magnitude(b) < 0x8000_0000,
{
    lemma2_to64();
    let e = exponent(b);
    let s = significand(b);
    assert(fraction(b) < 0x80_0000) by (bit_vector)
        requires fraction(b) == b & 0x7f_ffffu32;
    if e >= 150 {
        let k = (e - 150) as nat;
        if k < 7 {
            lemma_pow2_strictly_increases(k, 7);
        }
        lemma_pow2_pos(k);
        assert(s * pow2(k) <= s * 128) by (nonlinear_arith)
            requires pow2(k) <= 128, s >= 0;
        assert(s * pow2(k) >= 1) by (nonlinear_arith)
            requires pow2(k) >= 1, s >= 1;
    } else {
        let k = (150 - e) as nat;
        if k < 23 {
            lemma_pow2_strictly_increases(k, 23);
        }
        lemma_pow2_pos(k);
        assert(s / (pow2(k) as int) >= 1) by (nonlinear_arith)
            requires 1 <= pow2(k) <= 0x80_0000, s >= 0x80_0000;
        assert(s / (pow2(k) as int) <= s) by (nonlinear_arith)
            requires pow2(k) >= 1, s >= 0;
    }
}

/// Truncation toward zero with saturation, as a float-to-`i32` cast does it.
pub fn truncate_bits(b: u32) -> (r: i32)
    ensures
        r == truncated(b),
{
    if is_nan_bits(b) {
        return 0;
    }
    let e: u32 = (b >> 23) & 0xff;
    let negative = b >= 0x8000_0000;
    if e < 127 {
        0
    } else if e >= 158 {
        if negative { i32::MIN } else { i32::MAX }
    } else {
        proof {
            lemma_truncated_magnitude_bounds(b);
            lemma2_to64();
        }
        let s: u32 = (b & 0x7f_ffff) | 0x80_0000;
        assert(s == significand(b)) by (bit_vector)
            requires s == (b & 0x7f_ffffu32) | 0x80_0000u32;
        let m: u32 = if e >= 150 {
            let k: u32 = e - 150;
            proof {
                lemma_u32_shl_is_mul(s, k);
            }
            s << k
        } else {
            let k: u32 = 150 - e;
            proof {
                lemma_u32_shr_is_div(s, k);
            }
            s >> k
        };
        assert(m as int == truncated_magnitude(b));
        if negative {
            -(m as i32)
        } else {
            m as i32
        }
    }
}

} // verus!
