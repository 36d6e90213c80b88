use rayst::scalar::{Scalar, INFINITY_BITS, ONE_BITS, SIGN_BIT};

fn s(x: f64) -> Scalar {
    Scalar::from_bits(x.to_bits())
}

fn f(x: Scalar) -> f64 {
    f64::from_bits(x.to_bits())
}

fn samples() -> Vec<f64> {
    vec![
        0.0,
        -0.0,
        1.0,
        -1.0,
        0.5,
        -0.5,
        1e-8,
        -1e-8,
        0.001,
        0.999,
        2.0,
        1e300,
        -1e300,
        f64::MIN_POSITIVE,
        -f64::MIN_POSITIVE,
        5e-324,
        -5e-324,
        f64::MAX,
        f64::MIN,
        f64::INFINITY,
        f64::NEG_INFINITY,
        f64::NAN,
        -f64::NAN,
        f64::from_bits(0x7ff0_0000_0000_0001),
        f64::from_bits(0xffff_ffff_ffff_ffff),
        std::f64::consts::PI,
        -std::f64::consts::E,
    ]
}

#[test]
fn scalar_constants_are_the_patterns_of_their_values() {
    assert_eq!(Scalar::zero().to_bits(), 0.0f64.to_bits());
    assert_eq!(Scalar::infinity().to_bits(), f64::INFINITY.to_bits());
    assert_eq!(Scalar::neg_infinity().to_bits(), f64::NEG_INFINITY.to_bits());
    assert_eq!(ONE_BITS, 1.0f64.to_bits());
    assert_eq!(INFINITY_BITS, f64::INFINITY.to_bits());
    assert_eq!(SIGN_BIT, (-0.0f64).to_bits());
    assert_eq!(Scalar::from_bits(42).to_bits(), 42);
    assert_eq!(Scalar::from_bits(42).bits, 42);
}

#[test]
fn scalar_order_is_the_order_of_the_values() {
    for &a in &samples() {
        assert_eq!(s(a).is_nan(), a.is_nan(), "is_nan {a}");
        for &b in &samples() {
            assert_eq!(s(a).lt(s(b)), a < b, "{a} < {b}");
            assert_eq!(s(a).le(s(b)), a <= b, "{a} <= {b}");
        }
    }
}

#[test]
fn scalar_min_and_max_ignore_nan() {
    for &a in &samples() {
        for &b in &samples() {
            let lo = f(s(a).min(s(b)));
            let hi = f(s(a).max(s(b)));
            let (want_lo, want_hi) = (a.min(b), a.max(b));
            if want_lo.is_nan() {
                assert!(lo.is_nan());
                assert!(hi.is_nan());
            } else {
                // equal for all numbers; the two zeros compare equal
                assert!(lo == want_lo, "min {a} {b}");
                assert!(hi == want_hi, "max {a} {b}");
            }
        }
    }
    assert_eq!(s(3.0).min(s(f64::NAN)).to_bits(), 3.0f64.to_bits());
    assert_eq!(s(f64::NAN).min(s(3.0)).to_bits(), 3.0f64.to_bits());
    assert_eq!(s(3.0).max(s(f64::NAN)).to_bits(), 3.0f64.to_bits());
    assert_eq!(s(f64::NAN).max(s(3.0)).to_bits(), 3.0f64.to_bits());
    assert_eq!(s(1.0).min(s(2.0)).to_bits(), 1.0f64.to_bits());
    assert_eq!(s(1.0).max(s(2.0)).to_bits(), 2.0f64.to_bits());
    assert_eq!(s(-0.0).min(s(0.0)).to_bits(), (-0.0f64).to_bits());
    assert_eq!(s(0.0).min(s(-0.0)).to_bits(), 0.0f64.to_bits());
}

#[test]
fn scalar_neg_and_abs_touch_the_sign_only() {
    for &a in &samples() {
        assert_eq!(s(a).neg().to_bits(), (-a).to_bits(), "neg {a}");
        assert_eq!(s(a).abs().to_bits(), a.abs().to_bits(), "abs {a}");
        assert_eq!(s(a).neg().neg().to_bits(), a.to_bits());
    }
}

#[test]
fn scalar_clamp_holds_a_value_between_its_limits() {
    for &a in &samples() {
        let got = f(s(a).clamp(s(0.0), s(0.999)));
        let want = a.clamp(0.0, 0.999);
        if want.is_nan() {
            assert!(got.is_nan());
        } else {
            assert!(got == want, "clamp {a}");
        }
    }
    assert_eq!(s(7.0).clamp(s(0.0), s(1.0)).to_bits(), 1.0f64.to_bits());
    assert_eq!(s(-7.0).clamp(s(0.0), s(1.0)).to_bits(), 0.0f64.to_bits());
    assert_eq!(s(0.25).clamp(s(0.0), s(1.0)).to_bits(), 0.25f64.to_bits());
}
