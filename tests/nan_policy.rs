use softfloat64::Float;

const SNAN_X: u64 = 0x7FF0_0000_0000_0123;
const QNAN_Y: u64 = 0x7FF8_0000_0000_0456;
const SNAN_Z: u64 = 0xFFF0_0000_0000_0789;
const QNAN_W: u64 = 0xFFF8_0000_0000_0ABC;
const ONE: u64 = 0x3FF0_0000_0000_0000;

fn mul(a: u64, b: u64) -> u64 {
    Float::from_bits(a).multiply(&Float::from_bits(b)).bits
}

#[test]
fn signaling_first_quiet_second() {
    assert_eq!(mul(SNAN_X, QNAN_Y), 0x7FF8_0000_0000_0123);
}

#[test]
fn quiet_first_signaling_second() {
    assert_eq!(mul(QNAN_Y, SNAN_X), 0x7FF8_0000_0000_0123);
}

#[test]
fn two_signaling_favor_first() {
    assert_eq!(mul(SNAN_X, SNAN_Z), 0x7FF8_0000_0000_0123);
    assert_eq!(mul(SNAN_Z, SNAN_X), 0xFFF8_0000_0000_0789);
}

#[test]
fn two_quiet_favor_first() {
    assert_eq!(mul(QNAN_Y, QNAN_W), QNAN_Y);
    assert_eq!(mul(QNAN_W, QNAN_Y), QNAN_W);
}

#[test]
fn nan_with_number_in_either_order() {
    assert_eq!(mul(SNAN_X, ONE), 0x7FF8_0000_0000_0123);
    assert_eq!(mul(ONE, SNAN_X), 0x7FF8_0000_0000_0123);
    assert_eq!(mul(QNAN_W, 0), QNAN_W);
    assert_eq!(mul(0x7FF0_0000_0000_0000, QNAN_Y), QNAN_Y);
}

#[test]
fn nan_result_always_quiet() {
    let nans = [SNAN_X, QNAN_Y, SNAN_Z, QNAN_W, 0x7FF0_0000_0000_0001];
    let others = [0, ONE, 0x7FF0_0000_0000_0000, 1, SNAN_X, QNAN_W];
    for &n in nans.iter() {
        for &o in others.iter() {
            for r in [mul(n, o), mul(o, n)] {
                let f = Float::from_bits(r);
                assert!(f.is_nan());
                assert_eq!((f.get_mantissa() >> 51) & 1, 1);
            }
        }
    }
}

#[test]
fn nan_logic_none_without_nan() {
    assert!(Float::from_bits(ONE).nan_logic(&Float::from_bits(0)).is_none());
    let r = Float::from_bits(ONE).nan_logic(&Float::from_bits(SNAN_Z));
    assert_eq!(r.map(|f| f.bits), Some(0xFFF8_0000_0000_0789));
}
