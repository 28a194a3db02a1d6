//! Properties of the encoding and of multiplication, stated over the
//! models of the other modules and proved from them.

use vstd::prelude::*;
use crate::encoding::{
    compose, full_mantissa, is_finite_bits, is_nan_bits, is_quiet_nan_bits,
    is_signaling_bits, is_zero_bits, lemma_compose, lemma_fields, mant_field, sign_of,
    signed_zero, subnormal_adjust, unbiased, MANTISSA_MASK, IMPLICIT_BIT, QUIET_BIT, SIGN_BIT,
};
use crate::multiply::{finite_product, product_bits};
use crate::rounding::{norm_adjust, norm_value, round_ne};
use crate::special::lemma_quieted;

verus! {

/// A zero of either sign has the sign bit and nothing else.
proof fn lemma_signed_zero(sign: bool)
    ensures
        compose(sign, -1023, 0) == signed_zero(sign),
        sign_of(signed_zero(sign)) == sign,
{
    let s: u64 = if sign { 1 } else { 0 };
    assert(((s << 63u64) | (0u64 << 52u64) | (0u64 & MANTISSA_MASK)) == (if s == 1 {
        SIGN_BIT
    } else {
        0u64
    }) && ((((if s == 1 { SIGN_BIT } else { 0u64 }) >> 63u64) & 1 == 1) == (s == 1))) by (bit_vector)
        requires
            s <= 1,
    ;
}

/// Every outcome of the finite path carries the sign it is given.
proof fn lemma_finite_product_sign(sign: bool, a: u64, b: u64)
    ensures
        sign_of(finite_product(sign, a, b)) == sign,
{
    let p = full_mantissa(a) * full_mantissa(b);
    let w = unbiased(a) + unbiased(b) + subnormal_adjust(a) + subnormal_adjust(b) + norm_adjust(p);
    let n = norm_value(p);
    let low = round_ne(n, (53 + (-1022 - w)) as nat) as u64;
    let high = round_ne(n, 53) as u64;
    lemma_compose(sign, 1024, 0);
    lemma_signed_zero(sign);
    lemma_compose(sign, -1022, low);
    lemma_compose(sign, -1023, low);
    lemma_compose(sign, w + 1, high);
    lemma_compose(sign, w, high);
}

/// Round trip: for an exponent in `[-1023, 1024]` and a mantissa below
/// 2^52, decomposing the composed pattern gives back the sign, the exponent
/// and the mantissa.
pub proof fn law_round_trip(sign: bool, exponent: int, mantissa: u64)
    requires
        -1023 <= exponent <= 1024,
        mantissa < IMPLICIT_BIT,
    ensures
        sign_of(compose(sign, exponent, mantissa)) == sign,
        unbiased(compose(sign, exponent, mantissa)) == exponent,
        mant_field(compose(sign, exponent, mantissa)) == mantissa,
{
    lemma_compose(sign, exponent, mantissa);
    assert(mantissa & 0xF_FFFF_FFFF_FFFF == mantissa) by (bit_vector)
        requires
            mantissa < 0x10_0000_0000_0000,
    ;
}

/// NaN precedence in multiplication: when an operand is a NaN the product
/// is a quiet NaN; a signaling first operand wins; a signaling second
/// operand wins over a first operand that is not signaling; a quiet first
/// operand wins over a second that is not signaling; a non-NaN first
/// operand gives the second, quieted.
pub proof fn law_nan_precedence(a: u64, b: u64)
    requires
        is_nan_bits(a) || is_nan_bits(b),
    ensures
        is_quiet_nan_bits(product_bits(a, b)),
        is_signaling_bits(a) ==> product_bits(a, b) == a | QUIET_BIT,
        is_signaling_bits(b) && !is_signaling_bits(a) ==> product_bits(a, b) == b | QUIET_BIT,
        is_quiet_nan_bits(a) && !is_signaling_bits(b) ==> product_bits(a, b) == a,
        !is_nan_bits(a) ==> product_bits(a, b) == b | QUIET_BIT,
{
    lemma_fields(a);
    lemma_fields(b);
    if is_nan_bits(a) {
        lemma_quieted(a);
    }
    if is_nan_bits(b) {
        lemma_quieted(b);
    }
}

/// Sign rule: the product of two finite nonzero values has the sign
/// `sign(a) XOR sign(b)`.
pub proof fn law_sign_rule(a: u64, b: u64)
    requires
        is_finite_bits(a),
        is_finite_bits(b),
        !is_zero_bits(a),
        !is_zero_bits(b),
    ensures
        sign_of(product_bits(a, b)) == (sign_of(a) != sign_of(b)),
{
    lemma_finite_product_sign(sign_of(a) != sign_of(b), a, b);
}

/// Zero absorption: a zero times a finite value, in either order, is the
/// zero whose sign is the XOR of the operands' signs. Zeros times zeros are
/// included.
pub proof fn law_zero_absorption(a: u64, z: u64)
    requires
        is_finite_bits(a),
        is_zero_bits(z),
    ensures
        product_bits(a, z) == signed_zero(sign_of(a) != sign_of(z)),
        product_bits(z, a) == signed_zero(sign_of(z) != sign_of(a)),
{
    lemma_fields(a);
    lemma_fields(z);
}

} // verus!
