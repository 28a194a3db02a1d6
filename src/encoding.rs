//! Decomposition of a 64-bit pattern into sign, exponent and mantissa,
//! composition back, and the classification of patterns.

use vstd::prelude::*;

verus! {

/// The low 52 bits: the stored mantissa field.
pub const MANTISSA_MASK: u64 = 0xF_FFFF_FFFF_FFFF;

/// Bit 52: the implicit leading bit of a normal significand.
pub const IMPLICIT_BIT: u64 = 0x10_0000_0000_0000;

/// Bit 51: set in a quiet NaN, clear in a signaling one.
pub const QUIET_BIT: u64 = 0x8_0000_0000_0000;

/// Bit 63: the sign bit.
pub const SIGN_BIT: u64 = 0x8000_0000_0000_0000;

/// The NaN that an invalid operation produces.
pub const CANONICAL_NAN: u64 = 0x7FF8_0000_0000_0000;

/// A binary64 value, held as its raw bit pattern.
#[derive(Debug)]
pub struct Float {
    pub bits: u64,
}

/// The sign bit: `true` for negative.
pub open spec fn sign_of(bits: u64) -> bool {
    (bits >> 63u64) & 1 == 1
}

/// The 11-bit biased exponent field.
pub open spec fn exp_field(bits: u64) -> u64 {
    (bits >> 52u64) & 0x7FF
}

/// The 52-bit mantissa field, without the implicit bit.
pub open spec fn mant_field(bits: u64) -> u64 {
    bits & MANTISSA_MASK
}

/// The exponent with the bias of 1023 removed: in `[-1023, 1024]`.
pub open spec fn unbiased(bits: u64) -> int {
    exp_field(bits) - 1023
}

/// The pattern with the given sign, exponent and mantissa. The biased
/// exponent is taken modulo 2^11 and the mantissa modulo 2^52: out-of-range
/// parts are truncated, not rejected.
pub open spec fn compose(sign: bool, exponent: int, mantissa: u64) -> u64 {
    let s: u64 = if sign { 1 } else { 0 };
    let e: u64 = ((exponent + 1023) % 2048) as u64;
    (s << 63u64) | (e << 52u64) | (mantissa & MANTISSA_MASK)
}

/// A zero of the given sign.
pub open spec fn signed_zero(sign: bool) -> u64 {
    if sign { SIGN_BIT } else { 0 }
}

/// An infinity of the given sign.
pub open spec fn inf_bits(sign: bool) -> u64 {
    compose(sign, 1024, 0)
}

pub open spec fn is_zero_bits(bits: u64) -> bool {
    exp_field(bits) == 0 && mant_field(bits) == 0
}

pub open spec fn is_inf_bits(bits: u64) -> bool {
    exp_field(bits) == 0x7FF && mant_field(bits) == 0
}

pub open spec fn is_nan_bits(bits: u64) -> bool {
    exp_field(bits) == 0x7FF && mant_field(bits) != 0
}

/// Neither infinite nor NaN.
pub open spec fn is_finite_bits(bits: u64) -> bool {
    exp_field(bits) != 0x7FF
}

/// A NaN whose quiet bit (bit 51) is clear.
pub open spec fn is_signaling_bits(bits: u64) -> bool {
    is_nan_bits(bits) && (mant_field(bits) >> 51u64) == 0
}

/// A NaN whose quiet bit (bit 51) is set.
pub open spec fn is_quiet_nan_bits(bits: u64) -> bool {
    is_nan_bits(bits) && (mant_field(bits) >> 51u64) == 1
}

/// The significand with the implicit bit restored for a normal value; the
/// raw mantissa field for a zero or subnormal.
pub open spec fn full_mantissa(bits: u64) -> nat {
    if exp_field(bits) == 0 {
        mant_field(bits) as nat
    } else {
        (mant_field(bits) + IMPLICIT_BIT) as nat
    }
}

/// A zero or subnormal has the effective exponent -1022, one above the
/// stored -1023.
pub open spec fn subnormal_adjust(bits: u64) -> int {
    if exp_field(bits) == 0 {
        1
    } else {
        0
    }
}

/// The field extractors are in range, and setting the implicit bit adds it.
pub proof fn lemma_fields(bits: u64)
    ensures
        exp_field(bits) < 2048,
        mant_field(bits) < IMPLICIT_BIT,
        mant_field(bits) | IMPLICIT_BIT == mant_field(bits) + IMPLICIT_BIT,
        (mant_field(bits) >> 51u64) <= 1,
{
    assert(((bits >> 52u64) & 0x7FF) < 2048 && (bits & 0xF_FFFF_FFFF_FFFF) < 0x10_0000_0000_0000
        && (bits & 0xF_FFFF_FFFF_FFFF) | 0x10_0000_0000_0000 == (bits & 0xF_FFFF_FFFF_FFFF)
        + 0x10_0000_0000_0000 && ((bits & 0xF_FFFF_FFFF_FFFF) >> 51u64) <= 1) by (bit_vector);
}

/// Reading the fields back from a composed pattern gives its parts.
pub proof fn lemma_compose_fields(s: u64, e: u64, m: u64)
    requires
        s <= 1,
        e < 2048,
    ensures
        ({
            let x = (s << 63u64) | (e << 52u64) | (m & MANTISSA_MASK);
            &&& sign_of(x) == (s == 1)
            &&& exp_field(x) == e
            &&& mant_field(x) == m & MANTISSA_MASK
        }),
{
    assert(((((s << 63u64) | (e << 52u64) | (m & 0xF_FFFF_FFFF_FFFF)) >> 63u64) & 1 == 1) == (s
        == 1) && ((((s << 63u64) | (e << 52u64) | (m & 0xF_FFFF_FFFF_FFFF)) >> 52u64) & 0x7FF)
        == e && (((s << 63u64) | (e << 52u64) | (m & 0xF_FFFF_FFFF_FFFF)) & 0xF_FFFF_FFFF_FFFF)
        == m & 0xF_FFFF_FFFF_FFFF) by (bit_vector)
        requires
            s <= 1,
            e < 2048,
    ;
}

/// The parts of `compose(sign, exponent, mantissa)`, whatever the inputs.
pub proof fn lemma_compose(sign: bool, exponent: int, mantissa: u64)
    ensures
        sign_of(compose(sign, exponent, mantissa)) == sign,
        exp_field(compose(sign, exponent, mantissa)) == (exponent + 1023) % 2048,
        mant_field(compose(sign, exponent, mantissa)) == mantissa & MANTISSA_MASK,
{
    let s: u64 = if sign { 1 } else { 0 };
    let e: u64 = ((exponent + 1023) % 2048) as u64;
    lemma_compose_fields(s, e, mantissa);
}

impl Float {
    /// The value with the given bit pattern.
    pub fn from_bits(bits: u64) -> (r: Float)
        ensures
            r.bits == bits,
    {
        Float { bits }
    }

    /// The sign bit: `true` for negative.
    pub fn get_sign(&self) -> (r: bool)
        ensures
            r == sign_of(self.bits),
    {
        (self.bits >> 63) & 1 == 1
    }

    /// The exponent field minus the bias 1023.
    pub fn get_exponent(&self) -> (r: i16)
        ensures
            r == unbiased(self.bits),
    {
        proof {
            lemma_fields(self.bits);
        }
        let exp_bits: i16 = ((self.bits >> 52) & 0x7FF) as i16;
        exp_bits - 1023
    }

    /// The 52-bit mantissa field.
    pub fn get_mantissa(&self) -> (r: u64)
        ensures
            r == mant_field(self.bits),
    {
        self.bits & MANTISSA_MASK
    }

    /// Flips the sign bit in place.
    pub fn negate(&mut self)
        ensures
            final(self).bits == old(self).bits ^ SIGN_BIT,
    {
        self.bits = self.bits ^ SIGN_BIT;
    }

    /// Unsigned comparison of the encodings. For two non-NaN values of the
    /// same sign this is the order of their magnitudes.
    pub fn less_than(&self, other: &Float) -> (r: bool)
        requires
            sign_of(self.bits) == sign_of(other.bits),
            !is_nan_bits(self.bits),
            !is_nan_bits(other.bits),
        ensures
            r == (self.bits < other.bits),
    {
        self.bits < other.bits
    }

    /// Unsigned comparison of the encodings. For two non-NaN values of the
    /// same sign this is the order of their magnitudes.
    pub fn greater_than(&self, other: &Float) -> (r: bool)
        requires
            sign_of(self.bits) == sign_of(other.bits),
            !is_nan_bits(self.bits),
            !is_nan_bits(other.bits),
        ensures
            r == (self.bits > other.bits),
    {
        self.bits > other.bits
    }

    /// Whether the two encodings are identical.
    pub fn equals(&self, other: &Float) -> (r: bool)
        ensures
            r == (self.bits == other.bits),
    {
        self.bits == other.bits
    }

    /// The pattern with the given parts: see [`compose`]. Out-of-range
    /// exponents and mantissas are truncated.
    pub fn from_parts(sign: bool, exponent: i16, mantissa: u64) -> (r: Float)
        ensures
            r.bits == compose(sign, exponent as int, mantissa),
    {
        let s: u64 = if sign { 1 } else { 0 };
        // 32768 is a multiple of 2048, so the shift into the naturals keeps the residue.
        let shifted: i32 = exponent as i32 + 1023 + 32768;
        let biased: u64 = (shifted as u64) % 2048;
        proof {
            vstd::arithmetic::div_mod::lemma_mod_multiples_vanish(16, exponent + 1023, 2048);
        }
        Float { bits: (s << 63) | (biased << 52) | (mantissa & MANTISSA_MASK) }
    }

    pub fn is_zero(&self) -> (r: bool)
        ensures
            r == is_zero_bits(self.bits),
    {
        self.get_exponent() == -1023 && self.get_mantissa() == 0
    }

    pub fn is_nan(&self) -> (r: bool)
        ensures
            r == is_nan_bits(self.bits),
    {
        self.get_exponent() == 1024 && self.get_mantissa() != 0
    }

    pub fn is_infinity(&self) -> (r: bool)
        ensures
            r == is_inf_bits(self.bits),
    {
        self.get_exponent() == 1024 && self.get_mantissa() == 0
    }

    /// A copy of this value.
    pub fn copy(&self) -> (r: Float)
        ensures
            r.bits == self.bits,
    {
        Float { bits: self.bits }
    }

    /// The significand and the exponent correction of this value: the
    /// mantissa field with the implicit bit set and no correction for a
    /// normal or special exponent; the raw field and a correction of 1 for a
    /// zero or subnormal.
    pub fn get_full_mantissa(&self) -> (r: (u64, i16))
        ensures
            r.0 == full_mantissa(self.bits),
            r.1 == subnormal_adjust(self.bits),
            r.0 < 2 * IMPLICIT_BIT,
    {
        proof {
            lemma_fields(self.bits);
        }
        let exp_bits: u64 = (self.bits >> 52) & 0x7FF;
        if exp_bits != 0 {
            (self.get_mantissa() | IMPLICIT_BIT, 0)
        } else {
            (self.get_mantissa(), 1)
        }
    }
}

} // verus!
