use mhoverlap::Scalar;

fn sample_values() -> Vec<f32> {
    vec![
        0.0,
        -0.0,
        f32::MIN_POSITIVE,
        -f32::MIN_POSITIVE,
        f32::from_bits(1),
        f32::from_bits(0x8000_0001),
        0.01,
        0.1,
        0.14142136,
        1.0,
        -1.0,
        1.5,
        5.0,
        -5.0,
        f32::MAX,
        f32::MIN,
        f32::INFINITY,
        f32::NEG_INFINITY,
        f32::NAN,
        f32::from_bits(0xFFC0_0000),
        f32::from_bits(0x7F80_0001),
    ]
}

#[test]
fn less_than_agrees_with_float_comparison() {
    let values = sample_values();
    for &a in &values {
        for &b in &values {
            let got = Scalar(a.to_bits()).less_than(Scalar(b.to_bits()));
            assert_eq!(got, a < b, "{a:?} < {b:?}");
        }
    }
}

#[test]
fn is_nan_agrees_with_float_classification() {
    for a in sample_values() {
        assert_eq!(Scalar(a.to_bits()).is_nan(), a.is_nan(), "{a:?}");
    }
}

#[test]
fn is_positive_agrees_with_float_comparison() {
    for a in sample_values() {
        assert_eq!(Scalar(a.to_bits()).is_positive(), a > 0.0, "{a:?}");
    }
}

#[test]
fn equal_numbers_are_not_less() {
    let five = Scalar(5.0f32.to_bits());
    assert!(!five.less_than(five));
    let plus_zero = Scalar(0.0f32.to_bits());
    let minus_zero = Scalar((-0.0f32).to_bits());
    assert!(!plus_zero.less_than(minus_zero));
    assert!(!minus_zero.less_than(plus_zero));
}

#[test]
fn neighbouring_patterns_are_ordered() {
    let one = 1.0f32;
    let next = f32::from_bits(one.to_bits() + 1);
    assert!(Scalar(one.to_bits()).less_than(Scalar(next.to_bits())));
    assert!(!Scalar(next.to_bits()).less_than(Scalar(one.to_bits())));
    let minus_one = -1.0f32;
    let below = f32::from_bits(minus_one.to_bits() + 1);
    assert!(Scalar(below.to_bits()).less_than(Scalar(minus_one.to_bits())));
}

#[test]
fn nan_is_less_than_nothing_and_nothing_is_less_than_nan() {
    let nan = Scalar(f32::NAN.to_bits());
    let one = Scalar(1.0f32.to_bits());
    assert!(!nan.less_than(one));
    assert!(!one.less_than(nan));
    assert!(!nan.less_than(nan));
}
