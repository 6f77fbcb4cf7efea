//! Checks of the cubic-to-spiral fitter: domain contiguity, tolerance
//! monotonicity, the degenerate (straight-line) case, error reporting,
//! and the concrete gentle-curve scenario.

use euler_fit::euler::EulerSeg;
use euler_fit::fit::CubicToEulerIter;
use euler_fit::fixed::FX_ONE;
use euler_fit::geom::{CubicBez, Point};
use euler_fit::euler::CubicParams;
use euler_fit::FitError;

const S: f64 = 281474976710656.0;

fn fx(v: f64) -> i128 {
    (v * S) as i128
}

fn pt(x: f64, y: f64) -> Point {
    Point::new(fx(x), fx(y))
}

fn cubic(p: [(f64, f64); 4]) -> CubicBez {
    CubicBez::new(
        pt(p[0].0, p[0].1),
        pt(p[1].0, p[1].1),
        pt(p[2].0, p[2].1),
        pt(p[3].0, p[3].1),
    )
}

fn collect(c: CubicBez, tol: i128) -> Vec<EulerSeg> {
    let mut it = CubicToEulerIter::new(c, tol).unwrap();
    let mut out = Vec::new();
    loop {
        match it.next().unwrap() {
            Some(seg) => out.push(seg),
            None => return out,
        }
    }
}

#[test]
fn gentle_curve_fits_in_one_segment_with_exact_endpoints() {
    let c = cubic([(100.0, 100.0), (300.0, 150.0), (500.0, 150.0), (700.0, 150.0)]);
    let segs = collect(c, fx(1.0));
    assert_eq!(segs.len(), 1);
    assert_eq!(segs[0].p0, pt(100.0, 100.0));
    assert_eq!(segs[0].p1, pt(700.0, 150.0));
}

#[test]
fn segments_are_contiguous_and_span_the_curve() {
    let curves = [
        [(100.0, 100.0), (300.0, 150.0), (500.0, 150.0), (700.0, 150.0)],
        [(0.0, 0.0), (100.0, 300.0), (300.0, -200.0), (400.0, 50.0)],
        [(50.0, 50.0), (400.0, 60.0), (-100.0, 70.0), (250.0, 80.0)],
        [(0.0, 0.0), (0.0, 200.0), (200.0, 200.0), (200.0, 0.0)],
    ];
    for p in curves {
        let c = cubic(p);
        let segs = collect(c, fx(0.5));
        assert!(!segs.is_empty());
        assert_eq!(segs[0].p0, c.p0, "first segment starts at p0");
        assert_eq!(segs[segs.len() - 1].p1, c.p3, "last segment ends at p3");
        for w in segs.windows(2) {
            assert_eq!(w[0].p1, w[1].p0, "consecutive segments share endpoints");
        }
    }
}

#[test]
fn decreasing_tolerance_never_decreases_segment_count() {
    let curves = [
        [(0.0, 0.0), (100.0, 300.0), (300.0, -200.0), (400.0, 50.0)],
        [(0.0, 0.0), (0.0, 200.0), (200.0, 200.0), (200.0, 0.0)],
        [(100.0, 100.0), (300.0, 150.0), (500.0, 150.0), (700.0, 150.0)],
    ];
    for p in curves {
        let c = cubic(p);
        let mut prev = 0usize;
        for tol in [16.0, 4.0, 1.0, 0.25, 0.0625, 0.015625] {
            let n = collect(c, fx(tol)).len();
            assert!(
                n >= prev,
                "count dropped from {prev} to {n} when tolerance shrank to {tol}"
            );
            prev = n;
        }
    }
}

#[test]
fn straight_line_yields_single_zero_curvature_segment() {
    // Collinear, evenly spaced control points.
    let c = cubic([(100.0, 100.0), (150.0, 125.0), (200.0, 150.0), (250.0, 175.0)]);
    let segs = collect(c, fx(0.001));
    assert_eq!(segs.len(), 1);
    let es = &segs[0];
    assert_eq!(es.params.k0, 0);
    assert_eq!(es.params.k1, 0);
    assert_eq!(es.params.th0, 0);
    assert_eq!(es.params.th1, 0);
    assert_eq!(es.params.ch, FX_ONE);
    assert_eq!(es.p0, c.p0);
    assert_eq!(es.p1, c.p3);
}

#[test]
fn non_positive_tolerance_is_invalid() {
    let c = cubic([(0.0, 0.0), (1.0, 1.0), (2.0, 1.0), (3.0, 0.0)]);
    assert!(matches!(
        CubicToEulerIter::new(c, 0),
        Err(FitError::InvalidArgument)
    ));
    assert!(matches!(
        CubicToEulerIter::new(c, fx(-1.0)),
        Err(FitError::InvalidArgument)
    ));
}

#[test]
fn degenerate_chord_is_reported() {
    // All control points coincide: no chord anywhere.
    let c = cubic([(5.0, 5.0), (5.0, 5.0), (5.0, 5.0), (5.0, 5.0)]);
    let mut it = CubicToEulerIter::new(c, fx(1.0)).unwrap();
    assert_eq!(it.next().unwrap_err(), FitError::InvalidArgument);
    // the sequence has ended
    assert!(it.next().unwrap().is_none());
}

#[test]
fn benign_fits_have_no_forced_acceptances() {
    let curves = [
        [(100.0, 100.0), (300.0, 150.0), (500.0, 150.0), (700.0, 150.0)],
        [(0.0, 0.0), (100.0, 300.0), (300.0, -200.0), (400.0, 50.0)],
        [(0.0, 0.0), (0.0, 200.0), (200.0, 200.0), (200.0, 0.0)],
    ];
    for p in curves {
        let c = cubic(p);
        let mut it = CubicToEulerIter::new(c, fx(0.25)).unwrap();
        while it.next().unwrap().is_some() {}
        assert_eq!(
            it.forced_count, 0,
            "no acceptance should be forced on a benign curve"
        );
    }
}

#[test]
fn next_keeps_returning_none_after_completion() {
    let c = cubic([(100.0, 100.0), (300.0, 150.0), (500.0, 150.0), (700.0, 150.0)]);
    let mut it = CubicToEulerIter::new(c, fx(1.0)).unwrap();
    while it.next().unwrap().is_some() {}
    for _ in 0..3 {
        assert!(it.next().unwrap().is_none());
    }
}

#[test]
fn segment_evaluates_exactly_to_start_at_zero() {
    let c = cubic([(0.0, 0.0), (100.0, 300.0), (300.0, -200.0), (400.0, 50.0)]);
    for es in collect(c, fx(0.5)) {
        assert_eq!(es.eval(0), es.p0);
    }
}

#[test]
fn cubic_params_reject_degenerate_chord() {
    let c = cubic([(5.0, 5.0), (6.0, 5.0), (6.0, 6.0), (5.0, 5.0)]);
    assert_eq!(
        CubicParams::from_cubic(c).unwrap_err(),
        FitError::InvalidArgument
    );
    let ok = cubic([(0.0, 0.0), (1.0, 1.0), (2.0, 1.0), (3.0, 0.0)]);
    assert!(CubicParams::from_cubic(ok).is_ok());
}
