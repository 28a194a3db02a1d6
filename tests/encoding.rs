use softfloat64::Float;

#[test]
fn from_bits_keeps_pattern() {
    assert_eq!(Float::from_bits(0x1234_5678_9ABC_DEF0).bits, 0x1234_5678_9ABC_DEF0);
}

#[test]
fn decompose_one() {
    let one = Float::from_bits(0x3FF0_0000_0000_0000);
    assert!(!one.get_sign());
    assert_eq!(one.get_exponent(), 0);
    assert_eq!(one.get_mantissa(), 0);
}

#[test]
fn decompose_negative_subnormal() {
    let x = Float::from_bits(0x8000_0000_0000_0005);
    assert!(x.get_sign());
    assert_eq!(x.get_exponent(), -1023);
    assert_eq!(x.get_mantissa(), 5);
}

#[test]
fn compose_round_trip_over_range() {
    let exponents: [i16; 6] = [-1023, -1022, -1, 0, 1023, 1024];
    let mantissas: [u64; 4] = [0, 1, 0x8_0000_0000_0000, 0xF_FFFF_FFFF_FFFF];
    for sign in [false, true] {
        for e in exponents {
            for m in mantissas {
                let x = Float::from_parts(sign, e, m);
                assert_eq!(x.get_sign(), sign);
                assert_eq!(x.get_exponent(), e);
                assert_eq!(x.get_mantissa(), m);
            }
        }
    }
}

#[test]
fn compose_truncates_out_of_range_parts() {
    // exponent 1025 wraps to biased 0; the mantissa keeps its low 52 bits
    let x = Float::from_parts(false, 1025, 0x30_0000_0000_0001);
    assert_eq!(x.bits, 1);
    let y = Float::from_parts(true, -1024, 2);
    assert_eq!(y.bits, 0xFFF0_0000_0000_0002);
}

#[test]
fn compose_one_and_minus_two() {
    assert_eq!(Float::from_parts(false, 0, 0).bits, 0x3FF0_0000_0000_0000);
    assert_eq!(Float::from_parts(true, 1, 0).bits, 0xC000_0000_0000_0000);
}

#[test]
fn negate_flips_only_sign() {
    let mut x = Float::from_bits(0x3FF0_0000_0000_0001);
    x.negate();
    assert_eq!(x.bits, 0xBFF0_0000_0000_0001);
    x.negate();
    assert_eq!(x.bits, 0x3FF0_0000_0000_0001);
}

#[test]
fn raw_comparisons_same_sign() {
    let one = Float::from_bits(0x3FF0_0000_0000_0000);
    let two = Float::from_bits(0x4000_0000_0000_0000);
    assert!(one.less_than(&two));
    assert!(!two.less_than(&one));
    assert!(two.greater_than(&one));
    assert!(!one.greater_than(&one));
    assert!(one.equals(&one.copy()));
    assert!(!one.equals(&two));
}

#[test]
fn classification() {
    let pos_zero = Float::from_bits(0);
    let neg_zero = Float::from_bits(0x8000_0000_0000_0000);
    let sub = Float::from_bits(1);
    let inf = Float::from_bits(0x7FF0_0000_0000_0000);
    let nan = Float::from_bits(0x7FF0_0000_0000_0001);
    assert!(pos_zero.is_zero() && neg_zero.is_zero());
    assert!(!sub.is_zero() && !sub.is_nan() && !sub.is_infinity());
    assert!(inf.is_infinity() && !inf.is_nan() && !inf.is_zero());
    assert!(nan.is_nan() && !nan.is_infinity());
}

#[test]
fn special_constructors() {
    assert_eq!(Float::nan().bits, 0x7FF8_0000_0000_0000);
    assert_eq!(Float::infinity(false).bits, 0x7FF0_0000_0000_0000);
    assert_eq!(Float::infinity(true).bits, 0xFFF0_0000_0000_0000);
}

#[test]
fn full_mantissa_normal_and_subnormal() {
    assert_eq!(
        Float::from_bits(0x3FF0_0000_0000_0003).get_full_mantissa(),
        (0x10_0000_0000_0003, 0)
    );
    assert_eq!(Float::from_bits(0x0000_0000_0000_0003).get_full_mantissa(), (3, 1));
    assert_eq!(Float::from_bits(0).get_full_mantissa(), (0, 1));
}
