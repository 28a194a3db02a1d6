//! Multiplication of two binary64 patterns.

use vstd::prelude::*;
use vstd::arithmetic::power2::lemma2_to64;
use crate::encoding::{
    compose, exp_field, full_mantissa, mant_field, inf_bits, is_inf_bits, is_zero_bits, sign_of, signed_zero,
    subnormal_adjust, unbiased, Float, CANONICAL_NAN, IMPLICIT_BIT, SIGN_BIT,
};
use crate::rounding::{lead_shift, lemma_pow2_constants, norm_adjust, norm_value, normalize_product, round_half_even, round_ne};
use crate::special::nan_result;

verus! {

/// The product of two values that are neither NaN nor infinite, with the
/// sign `sign`, rounded to nearest with ties to even. A zero operand gives
/// a zero. Otherwise the exact significand product `p` is scaled to
/// `n = p * 2^k` in `[2^105, 2^106)`, so that the exact product is
/// `n * 2^(w - 105)` with `w` its exponent. At `w >= 1024` the result
/// overflows to infinity; below -1075 it is less than half the smallest
/// subnormal and becomes zero; from -1075 to -1023 it is rounded to a
/// multiple of the smallest subnormal; above that, to 53 significant bits.
/// A rounding that reaches the next power of two raises the exponent by one
/// (at exponent 1023 this composes to infinity, and a subnormal becomes the
/// smallest normal).
pub open spec fn finite_product(sign: bool, a: u64, b: u64) -> u64 {
    let p = full_mantissa(a) * full_mantissa(b);
    let w = unbiased(a) + unbiased(b) + subnormal_adjust(a) + subnormal_adjust(b) + norm_adjust(p);
    let n = norm_value(p);
    if is_zero_bits(a) || is_zero_bits(b) {
        signed_zero(sign)
    } else if w >= 1024 {
        inf_bits(sign)
    } else if w < -1075 {
        signed_zero(sign)
    } else if w <= -1023 {
        let kept = round_ne(n, (53 + (-1022 - w)) as nat);
        if kept >= IMPLICIT_BIT {
            compose(sign, -1022, kept as u64)
        } else {
            compose(sign, -1023, kept as u64)
        }
    } else {
        let kept = round_ne(n, 53);
        if kept >= 2 * IMPLICIT_BIT {
            compose(sign, w + 1, kept as u64)
        } else {
            compose(sign, w, kept as u64)
        }
    }
}

/// The pattern that `multiply` returns for the operands `a` and `b`.
pub open spec fn product_bits(a: u64, b: u64) -> u64 {
    let sign = sign_of(a) != sign_of(b);
    match nan_result(a, b) {
        Some(n) => n,
        None => if is_inf_bits(a) || is_inf_bits(b) {
            if is_zero_bits(a) || is_zero_bits(b) {
                CANONICAL_NAN
            } else {
                inf_bits(sign)
            }
        } else {
            finite_product(sign, a, b)
        },
    }
}

impl Float {
    /// The product `self * other`, bit for bit.
    pub fn multiply(&self, other: &Float) -> (r: Float)
        ensures
            r.bits == product_bits(self.bits, other.bits),
    {
        if let Some(nan) = self.nan_logic(other) {
            return nan;
        }
        let sign = self.get_sign() ^ other.get_sign();
        if self.is_infinity() || other.is_infinity() {
            if self.is_zero() || other.is_zero() {
                return Float::nan();
            }
            return Float::infinity(sign);
        }
        if self.is_zero() || other.is_zero() {
            return Float::from_bits(if sign { SIGN_BIT } else { 0 });
        }
        let fa: (u64, i16) = self.get_full_mantissa();
        let fb: (u64, i16) = other.get_full_mantissa();
        let mut exponent: i32 = self.get_exponent() as i32 + other.get_exponent() as i32
            + fa.1 as i32 + fb.1 as i32;
        let ma: u128 = fa.0 as u128;
        let mb: u128 = fb.0 as u128;
        assert(0 < ma * mb < crate::rounding::TWO_106) by (nonlinear_arith)
            requires
                0 < ma < 2 * IMPLICIT_BIT,
                0 < mb < 2 * IMPLICIT_BIT,
        ;
        let product: u128 = ma * mb;
        let normalized: (u128, i32) = normalize_product(product);
        exponent = exponent + normalized.1;
        if exponent >= 1024 {
            return Float::infinity(sign);
        }
        if exponent <= -1023 {
            if exponent < -1075 {
                return Float::from_bits(if sign { SIGN_BIT } else { 0 });
            }
            let shift: u32 = (53 + (-1022 - exponent)) as u32;
            let kept: u64 = round_half_even(normalized.0, shift);
            if kept >= IMPLICIT_BIT {
                return Float::from_parts(sign, -1022, kept);
            }
            return Float::from_parts(sign, -1023, kept);
        }
        let kept: u64 = round_half_even(normalized.0, 53);
        if kept >= 2 * IMPLICIT_BIT {
            Float::from_parts(sign, (exponent + 1) as i16, kept)
        } else {
            Float::from_parts(sign, exponent as i16, kept)
        }
    }
}

/// The product of the two operands of a rounding tie: significands
/// `2^52 + 2^26` and `2^52 + 2^26 + 2^25`, both with exponent 0. Their exact
/// product `2^104 + 2^79 + 2^77 + 2^52 + 2^51` lies halfway between two
/// representable values, and the odd candidate is rounded up to the even one.
pub fn mult_tie_test() -> (r: Float)
    ensures
        r.bits == product_bits(compose(false, 0, 0x400_0000), compose(false, 0, 0x600_0000)),
        r.bits == 0x3FF0_0000_0A00_0002,
{
    let mantissa1: u64 = 0x400_0000;
    let mantissa2: u64 = 0x600_0000;
    let a = Float::from_parts(false, 0, mantissa1);
    let b = Float::from_parts(false, 0, mantissa2);
    proof {
        lemma_tie_product();
    }
    a.multiply(&b)
}

proof fn lemma_tie_product()
    ensures
        product_bits(compose(false, 0, 0x400_0000), compose(false, 0, 0x600_0000))
            == 0x3FF0_0000_0A00_0002,
{
    let a = compose(false, 0, 0x400_0000);
    let b = compose(false, 0, 0x600_0000);
    assert(a == 0x3FF0_0000_0400_0000 && b == 0x3FF0_0000_0600_0000) by (bit_vector)
        requires
            a == compose(false, 0, 0x400_0000),
            b == compose(false, 0, 0x600_0000),
    ;
    assert(exp_field(a) == 0x3FF && mant_field(a) == 0x400_0000 && exp_field(b) == 0x3FF
        && mant_field(b) == 0x600_0000 && !sign_of(a) && !sign_of(b)) by (bit_vector)
        requires
            a == 0x3FF0_0000_0400_0000,
            b == 0x3FF0_0000_0600_0000,
    ;
    assert(full_mantissa(a) == 0x10_0000_0400_0000);
    assert(full_mantissa(b) == 0x10_0000_0600_0000);
    let p: nat = full_mantissa(a) * full_mantissa(b);
    assert(p == 0x100_0000_A000_0018_0000_0000_0000) by (nonlinear_arith)
        requires
            p == full_mantissa(a) * full_mantissa(b),
            full_mantissa(a) == 0x10_0000_0400_0000,
            full_mantissa(b) == 0x10_0000_0600_0000,
    ;
    lemma_pow2_constants();
    lemma2_to64();
    assert(lead_shift(2 * p) == 0);
    assert(lead_shift(p) == 1);
    assert(norm_value(p) == 2 * p);
    assert(norm_adjust(p) == 0);
    let n: nat = 2 * p;
    assert(n / 0x20_0000_0000_0000 == 0x10_0000_0A00_0001);
    assert(n % 0x20_0000_0000_0000 == 0x10_0000_0000_0000);
    assert(round_ne(n, 53) == 0x10_0000_0A00_0002);
    let c = compose(false, 0, 0x10_0000_0A00_0002);
    assert(c == 0x3FF0_0000_0A00_0002) by (bit_vector)
        requires
            c == compose(false, 0, 0x10_0000_0A00_0002),
    ;
}

} // verus!
