use stellar::lang::Number;

fn number(x: f64) -> Number {
    Number::from_bits(x.to_bits())
}

fn float(n: Number) -> f64 {
    f64::from_bits(n.to_bits())
}

fn samples() -> Vec<f64> {
    vec![
        0.0,
        -0.0,
        1.0,
        -1.0,
        0.5,
        -0.5,
        2.0,
        1e-320,
        -1e-320,
        f64::MIN_POSITIVE,
        -f64::MIN_POSITIVE,
        f64::EPSILON,
        1e300,
        -1e300,
        f64::MAX,
        f64::MIN,
        f64::INFINITY,
        f64::NEG_INFINITY,
        f64::NAN,
        -f64::NAN,
        f64::from_bits(0x7ff0_0000_0000_0001),
        f64::from_bits(0xffff_ffff_ffff_ffff),
        f64::from_bits(1),
        f64::from_bits(0x8000_0000_0000_0001),
        3.141592653589793,
        0.1 + 0.2,
        0.3,
    ]
}

#[test]
fn bits_round_trip() {
    for bits in [0u64, 1, 0x8000_0000_0000_0000, u64::MAX, 0x3ff0_0000_0000_0000] {
        assert_eq!(Number::from_bits(bits).to_bits(), bits);
        assert_eq!(Number::from_bits(bits).bits, bits);
    }
    assert_eq!(number(1.0).to_bits(), 0x3ff0_0000_0000_0000);
}

#[test]
fn equality_is_that_of_doubles() {
    for a in samples() {
        for b in samples() {
            assert_eq!(number(a).equals(&number(b)), a == b, "{a:?} == {b:?}");
        }
    }
}

#[test]
fn order_is_that_of_doubles() {
    for a in samples() {
        for b in samples() {
            assert_eq!(number(a).less_than(&number(b)), a < b, "{a:?} < {b:?}");
        }
    }
}

#[test]
fn zero_and_sign_are_those_of_doubles() {
    for a in samples() {
        assert_eq!(number(a).is_zero(), a == 0.0, "{a:?} == 0.0");
        assert_eq!(number(a).is_positive(), a > 0.0, "{a:?} > 0.0");
        assert_eq!(number(a).is_nan(), a.is_nan(), "{a:?} is NaN");
    }
}

#[test]
fn negation_is_that_of_doubles() {
    for a in samples() {
        assert_eq!(number(a).negate().to_bits(), (-a).to_bits(), "-{a:?}");
        assert_eq!(number(a).negate().negate(), number(a));
    }
    assert_eq!(float(number(0.0).negate()).to_bits(), (-0.0f64).to_bits());
    assert_eq!(float(number(2.5).negate()), -2.5);
}

#[test]
fn both_zeros_are_zero_and_equal() {
    assert!(number(0.0).is_zero());
    assert!(number(-0.0).is_zero());
    assert!(number(0.0).equals(&number(-0.0)));
    assert!(!number(-0.0).less_than(&number(0.0)));
    assert!(!number(0.0).is_positive());
    assert!(!number(-0.0).is_positive());
}

#[test]
fn nan_compares_with_nothing() {
    let nan = number(f64::NAN);
    assert!(nan.is_nan());
    assert!(!nan.equals(&nan));
    assert!(!nan.less_than(&number(1.0)));
    assert!(!number(1.0).less_than(&nan));
    assert!(!nan.is_positive());
    assert!(!nan.is_zero());
}
