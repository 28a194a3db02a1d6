//! NaN payload selection and the constructors of special values.

use vstd::prelude::*;
use crate::encoding::{
    inf_bits, is_nan_bits, is_quiet_nan_bits, is_signaling_bits, lemma_fields, mant_field, sign_of,
    Float, CANONICAL_NAN, QUIET_BIT,
};

verus! {

/// The NaN that an operation on `a` and `b` returns, or `None` when neither
/// is a NaN. A signaling `b` wins over an `a` that is not itself signaling;
/// otherwise a NaN `a` wins; otherwise `b`. The quiet bit of the chosen
/// payload is always set.
pub open spec fn nan_result(a: u64, b: u64) -> Option<u64> {
    if !is_nan_bits(a) && !is_nan_bits(b) {
        None
    } else if is_signaling_bits(b) && !is_signaling_bits(a) {
        Some(b | QUIET_BIT)
    } else if is_nan_bits(a) {
        Some(a | QUIET_BIT)
    } else {
        Some(b | QUIET_BIT)
    }
}

/// Setting the quiet bit of a NaN keeps its sign and the rest of its payload,
/// and makes it a quiet NaN.
pub proof fn lemma_quieted(x: u64)
    by (bit_vector)
    requires
        is_nan_bits(x),
    ensures
        is_quiet_nan_bits(x | QUIET_BIT),
        sign_of(x | QUIET_BIT) == sign_of(x),
        mant_field(x | QUIET_BIT) == mant_field(x) | QUIET_BIT,
        is_quiet_nan_bits(x) ==> x | QUIET_BIT == x,
{
}

impl Float {
    /// The quiet NaN `0x7FF8_0000_0000_0000`.
    pub fn nan() -> (r: Float)
        ensures
            r.bits == CANONICAL_NAN,
    {
        Float::from_bits(0x7FF8_0000_0000_0000)
    }

    /// The infinity of the given sign.
    pub fn infinity(sign: bool) -> (r: Float)
        ensures
            r.bits == inf_bits(sign),
    {
        Float::from_parts(sign, 1024, 0)
    }

    /// The NaN that an arithmetic operation on `self` and `other` returns,
    /// or `None` when neither operand is a NaN.
    pub fn nan_logic(&self, other: &Float) -> (r: Option<Float>)
        ensures
            r is None <==> nan_result(self.bits, other.bits) is None,
            r is Some ==> nan_result(self.bits, other.bits) == Some(r->0.bits),
    {
        proof {
            lemma_fields(self.bits);
            lemma_fields(other.bits);
        }
        let self_is_nan = self.is_nan();
        let other_is_nan = other.is_nan();
        if self_is_nan || other_is_nan {
            let other_signaling = other_is_nan && (other.get_mantissa() >> 51) == 0;
            let self_signaling = self_is_nan && (self.get_mantissa() >> 51) == 0;
            let chosen: u64 = if other_signaling && !self_signaling {
                other.bits
            } else if self_is_nan {
                self.bits
            } else {
                other.bits
            };
            return Some(Float::from_bits(chosen | QUIET_BIT));
        }
        None
    }
}

} // verus!
