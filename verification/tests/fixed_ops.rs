//! Checks of the fixed-point scalar operations and trigonometry.

use euler_fit::fixed::{fxabs, fxadd, fxcbrt, fxdiv, fxhypot, fxmul, fxsqrt, FX_ONE};
use euler_fit::trig::{fxatan2, fxcos, fxsin, FX_HALF_PI, FX_PI};

const S: f64 = 281474976710656.0;

fn fx(v: f64) -> i128 {
    (v * S) as i128
}

fn unfx(x: i128) -> f64 {
    x as f64 / S
}

#[test]
fn mul_and_div_roundtrip() {
    let a = fx(3.5);
    let b = fx(-2.25);
    let p = fxmul(a, b);
    assert!((unfx(p) + 7.875).abs() < 1e-12);
    let q = fxdiv(p, b);
    assert!((unfx(q) - 3.5).abs() < 1e-12);
}

#[test]
fn mul_truncates_toward_zero() {
    // 1/3 of one unit: positive and negative results agree in magnitude.
    let third = fxdiv(FX_ONE, fx(3.0));
    let neg_third = fxdiv(-FX_ONE, fx(3.0));
    assert_eq!(third, -neg_third);
}

#[test]
fn sqrt_of_four_is_exactly_two() {
    assert_eq!(fxsqrt(fx(4.0)), fx(2.0));
}

#[test]
fn hypot_three_four_is_exactly_five() {
    assert_eq!(fxhypot(fx(3.0), fx(4.0)), fx(5.0));
    assert_eq!(fxhypot(fx(-3.0), fx(4.0)), fx(5.0));
}

#[test]
fn cbrt_of_eight_is_two() {
    let r = fxcbrt(fx(8.0));
    assert!((unfx(r) - 2.0).abs() < 1e-9);
}

#[test]
fn abs_is_magnitude() {
    assert_eq!(fxabs(fx(-1.5)), fx(1.5));
    assert_eq!(fxabs(fx(1.5)), fx(1.5));
}

#[test]
fn sine_values() {
    assert_eq!(fxsin(0), 0);
    assert!((unfx(fxsin(FX_HALF_PI)) - 1.0).abs() < 1e-12);
    assert!(unfx(fxsin(FX_PI)).abs() < 1e-12);
    assert!((unfx(fxsin(fx(0.5))) - 0.5f64.sin()).abs() < 1e-12);
    assert!((unfx(fxsin(fx(-2.5))) - (-2.5f64).sin()).abs() < 1e-12);
    assert!((unfx(fxsin(fx(7.1))) - 7.1f64.sin()).abs() < 1e-12);
}

#[test]
fn cosine_values() {
    assert!((unfx(fxcos(0)) - 1.0).abs() < 1e-12);
    assert!(unfx(fxcos(FX_HALF_PI)).abs() < 1e-12);
    assert!((unfx(fxcos(fx(1.2))) - 1.2f64.cos()).abs() < 1e-12);
}

#[test]
fn arctangent_values() {
    assert_eq!(fxatan2(0, FX_ONE), 0);
    assert_eq!(fxatan2(0, 0), 0);
    assert!((unfx(fxatan2(FX_ONE, FX_ONE)) - std::f64::consts::FRAC_PI_4).abs() < 1e-12);
    assert!((unfx(fxatan2(FX_ONE, 0)) - std::f64::consts::FRAC_PI_2).abs() < 1e-12);
    // full quadrant coverage against the reference arctangent
    let cases = [
        (1.0, 2.0),
        (-1.0, 2.0),
        (1.0, -2.0),
        (-1.0, -2.0),
        (0.3, 0.1),
        (-0.3, 0.1),
        (5.0, -0.01),
    ];
    for (y, x) in cases {
        let got = unfx(fxatan2(fx(y), fx(x)));
        let want = f64::atan2(y, x);
        assert!((got - want).abs() < 1e-11, "atan2({y},{x}): {got} vs {want}");
    }
    // y == 0, x < 0 gives +pi
    assert!((unfx(fxatan2(0, fx(-1.0))) - std::f64::consts::PI).abs() < 1e-12);
}

#[test]
fn addition_saturates_symmetrically() {
    let big = euler_fit::fixed::FX_LIMIT;
    assert_eq!(fxadd(big, big), big);
    assert_eq!(fxadd(-big, -big), -big);
}
