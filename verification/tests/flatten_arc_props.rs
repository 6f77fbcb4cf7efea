//! Checks of the arc converter and the offset-curve flattener: structural
//! contiguity of arcs, the straight-line case, midpoint accuracy of the
//! fit, offset-symmetry of the flattening, and the tolerance-correlated
//! vertex count of the concrete scenario.

use euler_fit::arc::{euler_to_arcs, ArcEl};
use euler_fit::euler::EulerSeg;
use euler_fit::fit::CubicToEulerIter;
use euler_fit::flatten::flatten_offset;
use euler_fit::geom::{eval_cubic_and_deriv, CubicBez, Point};

const S: f64 = 281474976710656.0;

fn fx(v: f64) -> i128 {
    (v * S) as i128
}

fn unfx(x: i128) -> f64 {
    x as f64 / S
}

fn pt(x: f64, y: f64) -> Point {
    Point::new(fx(x), fx(y))
}

fn cubic(p: [(f64, f64); 4]) -> CubicBez {
    CubicBez::new(
        pt(p[0].0, p[0].1),
        pt(p[1].0, p[1].1),
        pt(p[2].0, p[2].1),
        pt(p[3].0, p[3].1),
    )
}

fn collect(c: CubicBez, tol: i128) -> Vec<EulerSeg> {
    let mut it = CubicToEulerIter::new(c, tol).unwrap();
    let mut out = Vec::new();
    loop {
        match it.next().unwrap() {
            Some(seg) => out.push(seg),
            None => return out,
        }
    }
}

fn el_from(el: &ArcEl) -> Point {
    match el {
        ArcEl::Arc(a) => a.from,
        ArcEl::Line(f, _) => *f,
    }
}

fn el_to(el: &ArcEl) -> Point {
    match el {
        ArcEl::Arc(a) => a.to,
        ArcEl::Line(_, t) => *t,
    }
}

#[test]
fn arcs_are_contiguous_and_span_the_segment() {
    let c = cubic([(0.0, 0.0), (100.0, 300.0), (300.0, -200.0), (400.0, 50.0)]);
    for es in collect(c, fx(1.0)) {
        let arcs = euler_to_arcs(&es, fx(0.1));
        assert!(!arcs.is_empty());
        assert_eq!(el_from(&arcs[0]), es.p0);
        assert_eq!(el_to(&arcs[arcs.len() - 1]), es.p1);
        for w in arcs.windows(2) {
            assert_eq!(el_to(&w[0]), el_from(&w[1]));
        }
    }
}

#[test]
fn straight_segment_converts_to_lines() {
    let c = cubic([(100.0, 100.0), (150.0, 125.0), (200.0, 150.0), (250.0, 175.0)]);
    let segs = collect(c, fx(0.01));
    assert_eq!(segs.len(), 1);
    for el in euler_to_arcs(&segs[0], fx(0.1)) {
        assert!(matches!(el, ArcEl::Line(_, _)), "expected a line, got {el:?}");
    }
}

#[test]
fn curved_segment_arcs_have_finite_radius_and_consistent_sweep() {
    let c = cubic([(0.0, 0.0), (0.0, 200.0), (200.0, 200.0), (200.0, 0.0)]);
    for es in collect(c, fx(0.5)) {
        for el in euler_to_arcs(&es, fx(0.5)) {
            if let ArcEl::Arc(a) = el {
                assert!(a.radius != 0);
                assert_eq!(a.x_rotation, 0);
                assert!(!a.large_arc);
            }
        }
    }
}

#[test]
fn fit_is_accurate_at_segment_midpoints() {
    // distance between the true cubic at each domain midpoint and the
    // fitted spiral at its midpoint parameter, against the tolerance
    let curves = [
        [(0.0, 0.0), (100.0, 300.0), (300.0, -200.0), (400.0, 50.0)],
        [(100.0, 100.0), (300.0, 150.0), (500.0, 150.0), (700.0, 150.0)],
        [(0.0, 0.0), (0.0, 200.0), (200.0, 200.0), (200.0, 0.0)],
        [(50.0, 0.0), (250.0, 10.0), (-50.0, 20.0), (150.0, 30.0)],
    ];
    for p in curves {
        let c = cubic(p);
        let tol = 0.25f64;
        let mut it = CubicToEulerIter::new(c, fx(tol)).unwrap();
        loop {
            let t0 = it.last_t;
            let seg = match it.next().unwrap() {
                Some(seg) => seg,
                None => break,
            };
            let t1 = it.last_t;
            let tmid = (t0 + t1) / 2;
            let (true_p, _) = eval_cubic_and_deriv(&c, tmid);
            // minimum distance from the true midpoint to a dense
            // polyline along the spiral, so that the parameterization
            // difference between the cubic and the spiral does not
            // enter the measure
            let spiral: Vec<(f64, f64)> = (0..=64u32)
                .map(|k| {
                    let q = seg.eval(fx(k as f64 / 64.0));
                    (unfx(q.x), unfx(q.y))
                })
                .collect();
            let dist = min_dist_to_polyline((unfx(true_p.x), unfx(true_p.y)), &spiral);
            assert!(
                dist <= 6.0 * tol,
                "midpoint deviation {dist} above {} for curve {p:?}",
                6.0 * tol
            );
        }
    }
}

fn flatten(c: CubicBez, offset: f64, fit_tol: f64, flat_tol: f64) -> Vec<Point> {
    let mut it = CubicToEulerIter::new(c, fx(fit_tol)).unwrap();
    flatten_offset(&mut it, fx(offset), fx(flat_tol)).unwrap()
}

#[test]
fn flatten_vertex_count_tracks_tolerance() {
    let c = cubic([(100.0, 100.0), (300.0, 150.0), (500.0, 150.0), (700.0, 150.0)]);
    let fine = flatten(c, 100.0, 1.0, 0.01).len();
    let coarse = flatten(c, 100.0, 1.0, 0.16).len();
    assert!(fine > coarse, "finer tolerance must add vertices: {fine} vs {coarse}");
    assert!(coarse >= 2);
    // regression bounds, loose enough to survive small numeric drift
    assert!(10 <= fine && fine <= 200, "vertex count {fine} out of band");
}

fn min_dist_to_polyline(p: (f64, f64), poly: &[(f64, f64)]) -> f64 {
    let mut best = f64::INFINITY;
    for w in poly.windows(2) {
        let (ax, ay) = w[0];
        let (bx, by) = w[1];
        let (vx, vy) = (bx - ax, by - ay);
        let (wx, wy) = (p.0 - ax, p.1 - ay);
        let len2 = vx * vx + vy * vy;
        let t = if len2 > 0.0 { ((wx * vx + wy * vy) / len2).clamp(0.0, 1.0) } else { 0.0 };
        let (cx, cy) = (ax + t * vx, ay + t * vy);
        let d = ((p.0 - cx).powi(2) + (p.1 - cy).powi(2)).sqrt();
        if d < best {
            best = d;
        }
    }
    best
}

#[test]
fn offset_flattening_is_mirror_symmetric() {
    // A cubic symmetric about its midpoint (300, 100): reflecting the
    // polyline at offset +d through the midpoint approximates the
    // polyline at offset -d, and the other way round.
    let c = cubic([(100.0, 100.0), (200.0, 300.0), (400.0, -100.0), (500.0, 100.0)]);
    let d = 40.0;
    let plus: Vec<(f64, f64)> =
        flatten(c, d, 0.1, 0.1).iter().map(|p| (unfx(p.x), unfx(p.y))).collect();
    let minus: Vec<(f64, f64)> =
        flatten(c, -d, 0.1, 0.1).iter().map(|p| (unfx(p.x), unfx(p.y))).collect();
    assert!(plus.len() >= 2 && minus.len() >= 2);
    for &(x, y) in &plus {
        let mirrored = (600.0 - x, 200.0 - y);
        let dist = min_dist_to_polyline(mirrored, &minus);
        assert!(dist <= 1.5, "mirrored vertex {mirrored:?} is {dist} from the other polyline");
    }
    for &(x, y) in &minus {
        let mirrored = (600.0 - x, 200.0 - y);
        let dist = min_dist_to_polyline(mirrored, &plus);
        assert!(dist <= 1.5, "mirrored vertex {mirrored:?} is {dist} from the other polyline");
    }
}

#[test]
fn arc_validation_accepts_fitted_arcs_and_rejects_impossible_ones() {
    let c = cubic([(0.0, 0.0), (0.0, 200.0), (200.0, 200.0), (200.0, 0.0)]);
    for es in collect(c, fx(0.5)) {
        for el in euler_to_arcs(&es, fx(0.5)) {
            if let ArcEl::Arc(a) = el {
                assert!(a.validate().is_ok(), "fitted arc should be realizable");
            }
        }
    }
    // endpoints four units apart cannot lie on a circle of radius one
    let bad = euler_fit::arc::ArcSeg {
        from: pt(0.0, 0.0),
        to: pt(4.0, 0.0),
        radius: fx(1.0),
        x_rotation: 0,
        large_arc: false,
        sweep: false,
    };
    assert!(matches!(
        bad.validate(),
        Err(euler_fit::FitError::GeometricInconsistency)
    ));
}

#[test]
fn flatten_at_offset_zero_approximates_the_curve_itself() {
    // a == 0 for every segment at offset zero; the polyline must still
    // reach each segment's end and follow the curve
    let c = cubic([(0.0, 0.0), (100.0, 300.0), (300.0, -200.0), (400.0, 50.0)]);
    let segs = collect(c, fx(0.5));
    let pts = flatten(c, 0.0, 0.5, 0.1);
    assert!(
        pts.len() >= segs.len() + 1,
        "every segment must contribute at least one vertex: {} for {} segments",
        pts.len(),
        segs.len()
    );
    // first vertex is the start of the curve, last is near its end
    assert_eq!(pts[0], segs[0].eval_with_offset(0, 0));
    let last = pts[pts.len() - 1];
    let (ex, ey) = (unfx(c.p3.x), unfx(c.p3.y));
    let derr = ((unfx(last.x) - ex).powi(2) + (unfx(last.y) - ey).powi(2)).sqrt();
    assert!(derr < 1.0, "last vertex {derr} away from the curve end");
    // every vertex lies near the curve
    let dense: Vec<(f64, f64)> = (0..=256u32)
        .map(|k| {
            let (p, _) = eval_cubic_and_deriv(&c, fx(k as f64 / 256.0));
            (unfx(p.x), unfx(p.y))
        })
        .collect();
    for p in &pts {
        let d = min_dist_to_polyline((unfx(p.x), unfx(p.y)), &dense);
        assert!(d <= 3.0, "vertex {d} away from the curve at offset zero");
    }
}

#[test]
fn flatten_straight_segment_offsets_onto_the_parallel_line() {
    // a straight segment has zero curvature slope, so a == 0 at any
    // offset; the vertices must lie on the parallel line at distance d
    let c = cubic([(100.0, 100.0), (150.0, 125.0), (200.0, 150.0), (250.0, 175.0)]);
    let d = 20.0;
    let pts = flatten(c, d, 0.01, 0.1);
    assert!(pts.len() >= 2);
    // distance from each vertex to the carrier line of the curve
    let (ax, ay) = (100.0f64, 100.0);
    let (ux, uy) = {
        let len = (150.0f64 * 150.0 + 75.0 * 75.0).sqrt();
        (150.0 / len, 75.0 / len)
    };
    for p in &pts {
        let (px, py) = (unfx(p.x) - ax, unfx(p.y) - ay);
        let cross = (px * uy - py * ux).abs();
        assert!(
            (cross - d).abs() < 0.05,
            "vertex at distance {cross} from the line, wanted {d}"
        );
    }
    // the last vertex sits at the offset of the segment end
    let segs = collect(c, fx(0.01));
    assert_eq!(pts[pts.len() - 1], segs[0].eval_with_offset(fx(1.0), fx(d)));
}

#[test]
fn flatten_segments_matches_iterator_flattening() {
    let c = cubic([(0.0, 0.0), (100.0, 300.0), (300.0, -200.0), (400.0, 50.0)]);
    let segs = collect(c, fx(0.5));
    let direct = euler_fit::flatten::flatten_offset_segments(&segs, fx(30.0), fx(0.1));
    let via_iter = flatten(c, 30.0, 0.5, 0.1);
    assert_eq!(direct, via_iter);
}

#[test]
fn flatten_propagates_degenerate_chord() {
    let c = cubic([(5.0, 5.0), (5.0, 5.0), (5.0, 5.0), (5.0, 5.0)]);
    let mut it = CubicToEulerIter::new(c, fx(1.0)).unwrap();
    assert!(flatten_offset(&mut it, fx(10.0), fx(0.1)).is_err());
}

#[test]
fn arc_count_tracks_tolerance() {
    let c = cubic([(0.0, 0.0), (0.0, 200.0), (200.0, 200.0), (200.0, 0.0)]);
    let segs = collect(c, fx(4.0));
    let mut fine = 0usize;
    let mut coarse = 0usize;
    for es in &segs {
        fine += euler_to_arcs(es, fx(0.01)).len();
        coarse += euler_to_arcs(es, fx(1.0)).len();
    }
    assert!(fine > coarse, "finer tolerance must add arcs: {fine} vs {coarse}");
}

#[test]
fn offset_arcs_span_the_offset_curve() {
    let c = cubic([(0.0, 0.0), (0.0, 200.0), (200.0, 200.0), (200.0, 0.0)]);
    for es in collect(c, fx(1.0)) {
        let d = fx(25.0);
        let arcs = euler_fit::arc::espc_to_arcs(&es, d, fx(0.5));
        assert!(!arcs.is_empty());
        assert_eq!(el_from(&arcs[0]), es.eval_with_offset(0, d));
        // the chain ends exactly at the offset evaluation at one
        assert_eq!(
            el_to(&arcs[arcs.len() - 1]),
            es.eval_with_offset(fx(1.0), d)
        );
        for w in arcs.windows(2) {
            assert_eq!(el_to(&w[0]), el_from(&w[1]));
        }
    }
}

fn extreme_segment() -> EulerSeg {
    // enormous curvature slope over a long chord: the closed-form
    // subdivision estimates exceed the cap at a tiny tolerance
    EulerSeg {
        p0: pt(0.0, 0.0),
        p1: pt(1000.0, 0.0),
        params: euler_fit::euler::EulerParams {
            th0: 0,
            th1: 0,
            k0: 0,
            k1: fx(1000000.0),
            ch: fx(1.0),
        },
    }
}

#[test]
fn subdivision_caps_are_reported() {
    let es = extreme_segment();
    let tiny = 1i128;
    assert!(euler_fit::arc::euler_arcs_capped(&es, tiny));
    assert_eq!(euler_to_arcs(&es, tiny).len(), 65536);
    assert!(euler_fit::arc::espc_arcs_capped(&es, fx(10.0), tiny));
    assert_eq!(euler_fit::arc::espc_to_arcs(&es, fx(10.0), tiny).len(), 65536);
    assert!(euler_fit::flatten::flatten_count_saturated(&es, fx(10.0), tiny));
    let pts = euler_fit::flatten::flatten_offset_segments(&vec![es], fx(10.0), tiny);
    assert_eq!(pts.len(), 65536 + 1);
    // ordinary inputs stay under the caps
    let c = cubic([(0.0, 0.0), (0.0, 200.0), (200.0, 200.0), (200.0, 0.0)]);
    for seg in collect(c, fx(0.5)) {
        assert!(!euler_fit::arc::euler_arcs_capped(&seg, fx(0.5)));
        assert!(!euler_fit::arc::espc_arcs_capped(&seg, fx(25.0), fx(0.5)));
        assert!(!euler_fit::flatten::flatten_count_saturated(&seg, fx(25.0), fx(0.5)));
    }
}

#[test]
fn to_cubic_spans_the_segment() {
    let c = cubic([(0.0, 0.0), (100.0, 300.0), (300.0, -200.0), (400.0, 50.0)]);
    for es in collect(c, fx(0.5)) {
        let back = es.to_cubic();
        assert_eq!(back.p0, es.p0);
        assert_eq!(back.p3, es.p1);
    }
}

#[test]
fn offset_evaluation_is_displaced_by_the_offset() {
    let c = cubic([(100.0, 100.0), (300.0, 150.0), (500.0, 150.0), (700.0, 150.0)]);
    let segs = collect(c, fx(1.0));
    let es = &segs[0];
    let d = 50.0;
    let on = es.eval(fx(0.25));
    let off = es.eval_with_offset(fx(0.25), fx(d));
    let dist = ((unfx(on.x) - unfx(off.x)).powi(2) + (unfx(on.y) - unfx(off.y)).powi(2)).sqrt();
    // the offset point is not on the curve: the displacement is d to
    // within the parameterization difference of the two evaluations
    assert!((dist - d).abs() < 0.35 * d, "offset displacement {dist} too far from {d}");
}
