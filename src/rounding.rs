//! Renormalization of an exact significand product and round-to-nearest-even.

use vstd::prelude::*;
use vstd::arithmetic::power2::{lemma2_to64, lemma2_to64_rest, lemma_pow2_adds, lemma_pow2_strictly_increases, lemma_pow2_unfold, pow2};
use vstd::arithmetic::div_mod::lemma_div_is_ordered_by_denominator;

verus! {

/// 2^105: the leading bit of a normalized product.
pub const TWO_105: u128 = 0x200_0000_0000_0000_0000_0000_0000;

/// 2^106: every product of two 53-bit significands lies below it.
pub const TWO_106: u128 = 0x400_0000_0000_0000_0000_0000_0000;

/// The number of doublings that bring a nonzero `p` to at least 2^105,
/// that is 105 minus the index of its leading bit.
pub open spec fn lead_shift(p: nat) -> nat
    decreases (if p < TWO_105 { TWO_105 - p } else { 0 }),
{
    if p == 0 || p >= TWO_105 {
        0
    } else {
        1 + lead_shift(2 * p)
    }
}

/// The product shifted up, exactly, until its leading bit is at index 105.
pub open spec fn norm_value(p: nat) -> nat {
    p * pow2(lead_shift(p))
}

/// The change to the working exponent that goes with [`norm_value`]: a
/// product of two significands in `[2^52, 2^53)` that reaches 2^105 raises
/// the exponent by one.
pub open spec fn norm_adjust(p: nat) -> int {
    1 - lead_shift(p)
}

/// `p / 2^s` rounded to the nearest integer, ties to the even one.
pub open spec fn round_ne(p: nat, s: nat) -> nat {
    let unit = pow2(s);
    let kept = p / unit;
    let rest = p % unit;
    let half = unit / 2;
    if rest > half || (rest == half && kept % 2 == 1) {
        kept + 1
    } else {
        kept
    }
}

pub proof fn lemma_pow2_constants()
    ensures
        pow2(53) == 0x20_0000_0000_0000,
        pow2(105) == TWO_105,
{
    lemma2_to64();
    lemma2_to64_rest();
    lemma_pow2_adds(64, 41);
}

/// A left shift of one is a power of two.
pub proof fn lemma_one_shl(s: u32)
    requires
        s < 128,
    ensures
        (1u128 << s) == pow2(s as nat),
    decreases s,
{
    if s == 0 {
        lemma2_to64();
        assert(1u128 << 0u32 == 1u128) by (bit_vector);
    } else {
        lemma_one_shl((s - 1) as u32);
        lemma_pow2_unfold(s as nat);
        let t: u32 = (s - 1) as u32;
        assert((1u128 << s) == (1u128 << t) * 2) by (bit_vector)
            requires
                0 < s < 128,
                t == s - 1,
        ;
    }
}

/// Shifts an exact nonzero product of two significands up to canonical
/// position, with its leading bit at index 105, and returns it with the
/// change to the working exponent. No bit is lost.
pub fn normalize_product(p: u128) -> (r: (u128, i32))
    requires
        0 < p < TWO_106,
    ensures
        r.0 == norm_value(p as nat),
        r.1 == norm_adjust(p as nat),
        TWO_105 <= r.0 < TWO_106,
        -104 <= r.1 <= 1,
{
    proof {
        lemma_pow2_constants();
        lemma2_to64();
    }
    let mut n: u128 = p;
    let mut k: u32 = 0;
    while n < TWO_105
        invariant
            0 < p < TWO_106,
            0 < n < TWO_106,
            k <= 105,
            n == p * pow2(k as nat),
            pow2(k as nat) <= n,
            lead_shift(p as nat) == k + lead_shift(n as nat),
            pow2(105) == TWO_105,
        decreases TWO_106 - n,
    {
        proof {
            if k > 105 {
                lemma_pow2_strictly_increases(105, k as nat);
            }
            let k1: nat = (k + 1) as nat;
            lemma_pow2_unfold(k1);
            let pk = pow2(k as nat);
            let pk1 = pow2(k1);
            assert(p * pk1 == 2 * (p * pk)) by (nonlinear_arith)
                requires
                    pk1 == 2 * pk,
            ;
        }
        n = n * 2;
        k = k + 1;
    }
    (n, 1 - (k as i32))
}

/// `p / 2^shift` rounded to nearest, ties to even.
pub fn round_half_even(p: u128, shift: u32) -> (r: u64)
    requires
        p < TWO_106,
        53 <= shift <= 106,
    ensures
        r == round_ne(p as nat, shift as nat),
        r <= 0x20_0000_0000_0000,
{
    proof {
        lemma_one_shl(shift);
        lemma_pow2_constants();
        if shift > 53 {
            lemma_pow2_strictly_increases(53, shift as nat);
        }
        lemma_div_is_ordered_by_denominator(p as int, 0x20_0000_0000_0000, pow2(shift as nat) as int);
    }
    let unit: u128 = 1u128 << shift;
    let kept: u128 = p / unit;
    let rest: u128 = p % unit;
    let half: u128 = unit / 2;
    assert(kept < 0x20_0000_0000_0000) by (nonlinear_arith)
        requires
            kept <= p / 0x20_0000_0000_0000,
            p < TWO_106,
    ;
    if rest > half || (rest == half && kept % 2 == 1) {
        (kept + 1) as u64
    } else {
        kept as u64
    }
}

} // verus!
