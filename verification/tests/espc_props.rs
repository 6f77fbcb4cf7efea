//! Checks of the forward/inverse energy-integral approximations: the
//! round trip `inverse(forward(x)) ≈ x`, continuity near the documented
//! breakpoints, and oddness.

use euler_fit::flatten::{espc_int_approx, espc_int_inv_approx};

const S: f64 = 281474976710656.0;

fn fx(v: f64) -> i128 {
    (v * S) as i128
}

fn unfx(x: i128) -> f64 {
    x as f64 / S
}

fn roundtrip_err(x: f64) -> f64 {
    let xi = fx(x);
    let back = espc_int_inv_approx(espc_int_approx(xi));
    (unfx(back) - unfx(xi)).abs()
}

#[test]
fn roundtrip_identity_over_the_whole_range() {
    // x sweeps [-5, 5]; relative error within 1e-9 away from zero.
    let mut x = -5.0f64;
    while x <= 5.0 {
        if x.abs() >= 1e-3 {
            let err = roundtrip_err(x);
            assert!(
                err <= 1e-9 * x.abs(),
                "roundtrip at {x}: error {err} above 1e-9 relative"
            );
        }
        x += 1e-3;
    }
}

#[test]
fn roundtrip_exact_at_zero_and_one() {
    assert_eq!(espc_int_inv_approx(espc_int_approx(0)), 0);
    // at exactly one the middle piece's signed square root vanishes
    let one = fx(1.0);
    assert_eq!(espc_int_inv_approx(espc_int_approx(one)), one);
}

#[test]
fn roundtrip_near_breakpoints() {
    for b in [0.8f64, 1.25, 2.1] {
        for d in [-1e-3, -1e-6, 0.0, 1e-6, 1e-3] {
            for sign in [-1.0, 1.0] {
                let x = sign * (b + d);
                let err = roundtrip_err(x);
                assert!(
                    err <= 1e-9 * x.abs(),
                    "roundtrip at breakpoint {x}: error {err}"
                );
            }
        }
    }
}

#[test]
fn forward_is_odd_and_monotonic() {
    let mut prev = f64::NEG_INFINITY;
    let mut x = -4.0f64;
    while x <= 4.0 {
        let xi = fx(x);
        assert_eq!(espc_int_approx(xi), -espc_int_approx(-xi));
        let v = unfx(espc_int_approx(xi));
        assert!(v >= prev, "forward approximation not monotonic at {x}");
        prev = v;
        x += 0.01;
    }
}

#[test]
fn forward_is_monotonic_at_adjacent_points_near_breakpoints() {
    // representable neighbors around each breakpoint and around zero
    for b in [0.0f64, 0.8, 1.25, 2.1, -0.8, -1.25, -2.1] {
        let center = fx(b);
        let mut prev = espc_int_approx(center - 4);
        for k in -3i128..=4 {
            let v = espc_int_approx(center + k);
            assert!(
                v >= prev,
                "forward approximation decreased between neighbors of {b}"
            );
            prev = v;
        }
    }
}

#[test]
fn inverse_matches_reference_values() {
    // arcsine piece: asin(x * 1.0976991822760038) / 1.0976991822760038
    let k = 1.0976991822760038f64;
    let got = unfx(espc_int_inv_approx(fx(0.5)));
    let want = (0.5 * k).asin() / k;
    assert!((got - want).abs() < 1e-10);
    // quadratic-formula piece at 3.0
    let got = unfx(espc_int_inv_approx(fx(3.0)));
    let (u, v, w) = (0.156f64 * 0.156 - 0.16145779359520596 / 0.5, 2.0, -0.156);
    let want = (u + v * 3.0).sqrt() - w;
    assert!((got - want).abs() < 1e-10);
}

#[test]
fn forward_matches_reference_values() {
    // sine piece: sin(1.0976991822760038 * 0.5) / 1.0976991822760038
    let got = unfx(espc_int_approx(fx(0.5)));
    let k = 1.0976991822760038f64;
    let want = (k * 0.5).sin() / k;
    assert!((got - want).abs() < 1e-12);
    // quadratic piece at 3.0: 0.5 * 9 - 0.156 * 3 + 0.16145779359520596
    let got = unfx(espc_int_approx(fx(3.0)));
    let want = 0.5 * 9.0 - 0.156 * 3.0 + 0.16145779359520596;
    assert!((got - want).abs() < 1e-10);
}
