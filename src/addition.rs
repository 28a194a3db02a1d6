//! Addition: special operands and the alignment of significands. Rounding
//! and composition of a finite sum are not provided; a sum of two finite
//! nonzero operands is the canonical NaN.

use vstd::prelude::*;
use vstd::arithmetic::power2::pow2;
use vstd::bits::lemma_u64_shr_is_div;
use crate::encoding::{
    full_mantissa, is_inf_bits, is_zero_bits, lemma_fields, sign_of, subnormal_adjust, unbiased,
    Float, CANONICAL_NAN,
};
use crate::special::nan_result;

verus! {

/// The pattern that `add` returns for the operands `a` and `b`.
pub open spec fn sum_bits(a: u64, b: u64) -> u64 {
    match nan_result(a, b) {
        Some(n) => n,
        None => if is_zero_bits(a) {
            b
        } else if is_zero_bits(b) {
            a
        } else if is_inf_bits(a) {
            if is_inf_bits(b) && sign_of(a) != sign_of(b) {
                CANONICAL_NAN
            } else {
                a
            }
        } else if is_inf_bits(b) {
            b
        } else {
            CANONICAL_NAN
        },
    }
}

/// The operand with the larger exponent first; on equal exponents `b` first.
pub open spec fn by_exponent(a: u64, b: u64) -> (u64, u64) {
    if unbiased(a) > unbiased(b) {
        (a, b)
    } else {
        (b, a)
    }
}

/// The exponent that a significand from [`full_mantissa`] goes with.
pub open spec fn effective_exponent(x: u64) -> int {
    unbiased(x) + subnormal_adjust(x)
}

/// The significand of the operand with the larger exponent, and that of
/// the other shifted right by the difference of their exponents (zero when
/// the difference is 64 or more).
pub open spec fn aligned(a: u64, b: u64) -> (nat, nat) {
    let hi = by_exponent(a, b).0;
    let lo = by_exponent(a, b).1;
    let d = effective_exponent(hi) - effective_exponent(lo);
    (full_mantissa(hi), if d >= 64 {
        0
    } else {
        full_mantissa(lo) / pow2(d as nat)
    })
}

impl Float {
    /// The sum `self + other` where it is decided by a special operand: a
    /// NaN by the NaN policy, a zero gives the other operand, an infinity
    /// dominates a finite operand, and opposite infinities give the
    /// canonical NaN. Two finite nonzero operands give the canonical NaN.
    pub fn add(&self, other: &Float) -> (r: Float)
        ensures
            r.bits == sum_bits(self.bits, other.bits),
    {
        if let Some(nan) = self.nan_logic(other) {
            return nan;
        }
        if self.is_zero() {
            return other.copy();
        }
        if other.is_zero() {
            return self.copy();
        }
        if self.is_infinity() {
            if other.is_infinity() && self.get_sign() != other.get_sign() {
                return Float::nan();
            }
            return self.copy();
        }
        if other.is_infinity() {
            return other.copy();
        }
        Float::nan()
    }

    /// The significands of the two operands of an addition, aligned to the
    /// larger exponent.
    pub fn align_mantissas(&self, other: &Float) -> (r: (u64, u64))
        ensures
            r.0 == aligned(self.bits, other.bits).0,
            r.1 == aligned(self.bits, other.bits).1,
    {
        proof {
            lemma_fields(self.bits);
            lemma_fields(other.bits);
        }
        let larger_first = self.get_exponent() > other.get_exponent();
        let hi = if larger_first { self.copy() } else { other.copy() };
        let lo = if larger_first { other.copy() } else { self.copy() };
        let fh: (u64, i16) = hi.get_full_mantissa();
        let fl: (u64, i16) = lo.get_full_mantissa();
        let exp_hi: i16 = hi.get_exponent() + fh.1;
        let exp_lo: i16 = lo.get_exponent() + fl.1;
        let diff: i16 = exp_hi - exp_lo;
        let shifted: u64 = if diff >= 64 {
            0
        } else {
            proof {
                lemma_u64_shr_is_div(fl.0, diff as u64);
            }
            fl.0 >> (diff as u64)
        };
        (fh.0, shifted)
    }
}

} // verus!
