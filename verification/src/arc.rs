//! Conversion of an Euler-spiral segment into circular arcs.
//!
//! The subdivision count comes from a closed-form cube-root estimate in
//! the normalized arc length, the curvature-derivative magnitude, the
//! tolerance, and (for the offset case) the offset distance; there is no
//! iterative refinement.  Each arc's radius is the reciprocal of the
//! local curvature sampled at the arc's parameter midpoint, and its sweep
//! direction is that curvature's sign.  Zero local curvature (a straight
//! piece) yields a line element rather than an arc of unbounded radius.

use crate::euler::EulerSeg;
use crate::euler::es_eval_v;
use crate::euler::es_eval_with_offset_v;
use crate::euler::euler_seg_wf;
use crate::fixed::FX_HALF;
use crate::fixed::FX_ONE;
use crate::fixed::fx_ok;
use crate::fixed::fxabs;
use crate::fixed::fxabs_v;
use crate::fixed::fxadd;
use crate::fixed::fxadd_v;
use crate::fixed::fxcbrt;
use crate::fixed::fxcbrt_v;
use crate::fixed::fxdiv;
use crate::fixed::fxdiv_v;
use crate::fixed::fxmul;
use crate::fixed::fxmul_v;
use crate::fixed::fxsub;
use crate::fixed::fxsub_v;
use crate::geom::Point;
use crate::geom::len2_v;
use crate::geom::point_wf;
use vstd::prelude::*;

verus! {

/// 1/120, the leading factor of the subdivision estimate.
pub const ARC_ONE_120TH: i128 = 2345624805922;

/// Largest admitted subdivision count for one segment: a resource bound
/// so that one extreme tolerance cannot demand an unbounded number of
/// arcs.
pub const ARC_MAX_SUBDIV: u64 = 65536;

/// A circular arc between two points: radius magnitude, axis rotation
/// (always zero here), large-arc flag (always false here), and sweep
/// direction.
#[derive(Clone, Copy, PartialEq, Eq, Structural, Debug)]
pub struct ArcSeg {
    /// Start point.
    pub from: Point,
    /// End point.
    pub to: Point,
    /// Signed radius: the local arc length over the local curvature.
    pub radius: i128,
    /// Rotation of the arc's axes; always zero for a circular arc.
    pub x_rotation: i128,
    /// Whether the arc is the larger of the two candidates; always false.
    pub large_arc: bool,
    /// Sweep direction: true when the local curvature is negative.
    pub sweep: bool,
}

/// One rendering element of an arc approximation: a circular arc, or a
/// straight line where the local curvature vanishes.
#[derive(Clone, Copy, PartialEq, Eq, Structural, Debug)]
pub enum ArcEl {
    /// A circular arc.
    Arc(ArcSeg),
    /// A straight line between two points, for zero local curvature.
    Line(Point, Point),
}

impl ArcSeg {
    /// Whether this arc's defining triple is geometrically consistent:
    /// a circle of the given radius passes through both endpoints, that
    /// is, the chord between them does not exceed the diameter.  An
    /// inconsistent arc is a recoverable, per-element condition — the
    /// caller skips the one element and keeps the rest of the sequence.
    pub fn validate(&self) -> (r: Result<(), crate::FitError>)
        requires
            point_wf(self.from),
            point_wf(self.to),
            fx_ok(self.radius),
        ensures
            r is Ok <==> len2_v(
                fxsub_v(self.from.x as int, self.to.x as int),
                fxsub_v(self.from.y as int, self.to.y as int),
            ) <= fxadd_v(fxabs_v(self.radius as int), fxabs_v(self.radius as int)),
            r is Err ==> r == Result::<(), crate::FitError>::Err(
                crate::FitError::GeometricInconsistency,
            ),
    {
        let chord = self.from.distance(&self.to);
        let diameter = fxadd(fxabs(self.radius), fxabs(self.radius));
        if chord <= diameter {
            Ok(())
        } else {
            Err(crate::FitError::GeometricInconsistency)
        }
    }
}

/// Start point of an element.
pub open spec fn arc_el_from(el: ArcEl) -> Point {
    match el {
        ArcEl::Arc(a) => a.from,
        ArcEl::Line(f, _) => f,
    }
}

/// End point of an element.
pub open spec fn arc_el_to(el: ArcEl) -> Point {
    match el {
        ArcEl::Arc(a) => a.to,
        ArcEl::Line(_, t) => t,
    }
}

/// Normalized arc length of a segment: chord length over the chord
/// scaling factor.
pub open spec fn arclen_v(es: EulerSeg) -> int {
    fxdiv_v(
        len2_v(
            fxsub_v(es.p0.x as int, es.p1.x as int),
            fxsub_v(es.p0.y as int, es.p1.y as int),
        ),
        es.params.ch as int,
    )
}

/// Clamp a nonnegative fixed-point count, rounded up, into `[1, cap]`.
pub open spec fn ceil_clamp_v(x: int, cap: int) -> int {
    let n = if x <= 0 {
        0
    } else {
        (x + FX_ONE - 1) / (FX_ONE as int)
    };
    if n < 1 {
        1
    } else if n > cap {
        cap
    } else {
        n
    }
}

/// Rounded-up count before the cap, at least one.
pub open spec fn ceil1_v(x: int) -> int {
    let n = if x <= 0 {
        0
    } else {
        (x + FX_ONE - 1) / (FX_ONE as int)
    };
    if n < 1 {
        1
    } else {
        n
    }
}

/// Cube-root subdivision estimate of the plain arc approximation:
/// `cbrt((1/120) · arclen / tol · |k1|)`.
pub open spec fn euler_arc_est_v(es: EulerSeg, tol: int) -> int {
    fxcbrt_v(
        fxabs_v(
            fxmul_v(
                fxdiv_v(fxmul_v(ARC_ONE_120TH as int, arclen_v(es)), tol),
                fxabs_v(es.params.k1 as int),
            ),
        ),
    )
}

/// Subdivision count of the plain arc approximation: the cube-root
/// estimate, rounded up, at least one, capped.
#[verifier::opaque]
pub open spec fn euler_arc_n_v(es: EulerSeg, tol: int) -> int {
    ceil_clamp_v(euler_arc_est_v(es, tol), ARC_MAX_SUBDIV as int)
}

/// Cube-root subdivision estimate of the offset arc approximation:
/// `cbrt((1/120) / tol · |k1| · (arclen + |d|))`.
pub open spec fn espc_arc_est_v(es: EulerSeg, d: int, tol: int) -> int {
    fxcbrt_v(
        fxabs_v(
            fxmul_v(
                fxmul_v(fxdiv_v(ARC_ONE_120TH as int, tol), fxabs_v(es.params.k1 as int)),
                fxadd_v(arclen_v(es), fxabs_v(d)),
            ),
        ),
    )
}

/// Subdivision count of the offset arc approximation: the cube-root
/// estimate, rounded up, at least one, capped.
#[verifier::opaque]
pub open spec fn espc_arc_n_v(es: EulerSeg, d: int, tol: int) -> int {
    ceil_clamp_v(espc_arc_est_v(es, d, tol), ARC_MAX_SUBDIV as int)
}

/// Local curvature at the midpoint of the `i`-th of `n` arcs.
pub open spec fn arc_k_v(es: EulerSeg, n: int, i: int) -> int {
    let dt = fxdiv_v(FX_ONE as int, n * FX_ONE);
    let t0 = fxmul_v(i * FX_ONE, dt);
    let t = fxsub_v(fxadd_v(t0, fxmul_v(FX_HALF as int, dt)), FX_HALF as int);
    fxadd_v(es.params.k0 as int, fxmul_v(t, es.params.k1 as int))
}

/// End point of the `i`-th of `n` arcs in the plain approximation.
pub open spec fn euler_arc_to_v(es: EulerSeg, n: int, i: int) -> (int, int) {
    if i + 1 == n {
        (es.p1.x as int, es.p1.y as int)
    } else {
        let dt = fxdiv_v(FX_ONE as int, n * FX_ONE);
        let t0 = fxmul_v(i * FX_ONE, dt);
        es_eval_v(es, fxadd_v(t0, dt))
    }
}

/// Start point of the `i`-th of `n` arcs in the plain approximation.
pub open spec fn euler_arc_from_v(es: EulerSeg, n: int, i: int) -> (int, int) {
    if i == 0 {
        (es.p0.x as int, es.p0.y as int)
    } else {
        euler_arc_to_v(es, n, i - 1)
    }
}

/// What the `i`-th element of the plain arc approximation is: a line
/// where the local curvature vanishes, else an arc whose radius is the
/// normalized arc length over that curvature and whose sweep is the
/// curvature's sign.
pub open spec fn euler_arc_el_ok(es: EulerSeg, n: int, i: int, el: ArcEl) -> bool {
    let k = arc_k_v(es, n, i);
    let from = euler_arc_from_v(es, n, i);
    let to = euler_arc_to_v(es, n, i);
    &&& arc_el_from(el).x == from.0 && arc_el_from(el).y == from.1
    &&& arc_el_to(el).x == to.0 && arc_el_to(el).y == to.1
    &&& match el {
        ArcEl::Arc(a) => {
            &&& k != 0
            &&& a.radius == fxdiv_v(arclen_v(es), k)
            &&& a.x_rotation == 0
            &&& a.large_arc == false
            &&& a.sweep == (k < 0)
        },
        ArcEl::Line(_, _) => k == 0,
    }
}

/// End point of the `i`-th of `n` arcs in the offset approximation; the
/// last arc's end is evaluated at exactly one so the chain reaches the
/// segment's end.
pub open spec fn espc_arc_to_v(es: EulerSeg, d: int, n: int, i: int) -> (int, int) {
    if i + 1 == n {
        es_eval_with_offset_v(es, FX_ONE as int, d)
    } else {
        let dt = fxdiv_v(FX_ONE as int, n * FX_ONE);
        let t0 = fxmul_v(i * FX_ONE, dt);
        es_eval_with_offset_v(es, fxadd_v(t0, dt), d)
    }
}

/// Start point of the `i`-th of `n` arcs in the offset approximation.
pub open spec fn espc_arc_from_v(es: EulerSeg, d: int, n: int, i: int) -> (int, int) {
    if i == 0 {
        es_eval_with_offset_v(es, 0, d)
    } else {
        espc_arc_to_v(es, d, n, i - 1)
    }
}

/// What the `i`-th element of the offset arc approximation is: a line
/// where the local curvature vanishes, else an arc whose radius is the
/// curvature-adjusted local arc length over that curvature.
pub open spec fn espc_arc_el_ok(es: EulerSeg, d: int, n: int, i: int, el: ArcEl) -> bool {
    let k = arc_k_v(es, n, i);
    let from = espc_arc_from_v(es, d, n, i);
    let to = espc_arc_to_v(es, d, n, i);
    &&& arc_el_from(el).x == from.0 && arc_el_from(el).y == from.1
    &&& arc_el_to(el).x == to.0 && arc_el_to(el).y == to.1
    &&& match el {
        ArcEl::Arc(a) => {
            &&& k != 0
            &&& a.radius == fxdiv_v(fxadd_v(arclen_v(es), fxmul_v(d, k)), k)
            &&& a.x_rotation == 0
            &&& a.large_arc == false
            &&& a.sweep == (k < 0)
        },
        ArcEl::Line(_, _) => k == 0,
    }
}

/// Convert one Euler-spiral segment into circular arcs within the given
/// tolerance.  The element count is the closed-form estimate; each
/// element's endpoints, radius and sweep are pinned by `euler_arc_el_ok`.
pub fn euler_to_arcs(es: &EulerSeg, tol: i128) -> (r: Vec<ArcEl>)
    requires
        euler_seg_wf(*es),
        fx_ok(tol),
        tol > 0,
    ensures
        r@.len() == euler_arc_n_v(*es, tol as int),
        forall|i: int|
            0 <= i < r@.len() ==> #[trigger] euler_arc_el_ok(
                *es,
                euler_arc_n_v(*es, tol as int),
                i,
                r@[i],
            ),
{
    proof {
        reveal(euler_arc_n_v);
    }
    let arclen = fxdiv(es.p0.distance(&es.p1), es.params.ch);
    let est = fxmul(fxdiv(fxmul(ARC_ONE_120TH, arclen), tol), fxabs(es.params.k1));
    let n = ceil_clamp(fxcbrt(fxabs(est)), ARC_MAX_SUBDIV);
    let ghost nv = euler_arc_n_v(*es, tol as int);
    let n_fx = (n as i128) * FX_ONE;
    let dt = fxdiv(FX_ONE, n_fx);
    let mut out: Vec<ArcEl> = Vec::new();
    let mut p0 = es.p0;
    let mut i: u64 = 0;
    while i < n
        invariant
            euler_seg_wf(*es),
            fx_ok(tol),
            tol > 0,
            0 <= i <= n,
            n == nv,
            nv == euler_arc_n_v(*es, tol as int),
            1 <= n <= ARC_MAX_SUBDIV,
            fx_ok(arclen),
            arclen == arclen_v(*es),
            dt == fxdiv_v(FX_ONE as int, n * FX_ONE),
            out@.len() == i,
            point_wf(p0),
            (p0.x as int, p0.y as int) == euler_arc_from_v(*es, nv, i as int),
            forall|j: int| 0 <= j < i ==> #[trigger] euler_arc_el_ok(*es, nv, j, out@[j]),
        decreases n - i,
    {
        let i_fx = (i as i128) * FX_ONE;
        let t0 = fxmul(i_fx, dt);
        let t1 = fxadd(t0, dt);
        let p1 = if i + 1 == n {
            es.p1
        } else {
            es.eval(t1)
        };
        let t = fxsub(fxadd(t0, fxmul(FX_HALF, dt)), FX_HALF);
        let k = fxadd(es.params.k0, fxmul(t, es.params.k1));
        let el = if k == 0 {
            ArcEl::Line(p0, p1)
        } else {
            let r = fxdiv(arclen, k);
            ArcEl::Arc(
                ArcSeg {
                    from: p0,
                    to: p1,
                    radius: r,
                    x_rotation: 0,
                    large_arc: false,
                    sweep: k < 0,
                },
            )
        };
        out.push(el);
        p0 = p1;
        i = i + 1;
    }
    out
}

/// Convert the parallel curve of one Euler-spiral segment, at signed
/// offset `d`, into circular arcs within the given tolerance.
pub fn espc_to_arcs(es: &EulerSeg, d: i128, tol: i128) -> (r: Vec<ArcEl>)
    requires
        euler_seg_wf(*es),
        fx_ok(d),
        fx_ok(tol),
        tol > 0,
    ensures
        r@.len() == espc_arc_n_v(*es, d as int, tol as int),
        forall|i: int|
            0 <= i < r@.len() ==> #[trigger] espc_arc_el_ok(
                *es,
                d as int,
                espc_arc_n_v(*es, d as int, tol as int),
                i,
                r@[i],
            ),
{
    proof {
        reveal(espc_arc_n_v);
    }
    let arclen = fxdiv(es.p0.distance(&es.p1), es.params.ch);
    let est = fxmul(
        fxmul(fxdiv(ARC_ONE_120TH, tol), fxabs(es.params.k1)),
        fxadd(arclen, fxabs(d)),
    );
    let n = ceil_clamp(fxcbrt(fxabs(est)), ARC_MAX_SUBDIV);
    let ghost nv = espc_arc_n_v(*es, d as int, tol as int);
    let n_fx = (n as i128) * FX_ONE;
    let dt = fxdiv(FX_ONE, n_fx);
    let mut out: Vec<ArcEl> = Vec::new();
    let mut p0 = es.eval_with_offset(0, d);
    let mut i: u64 = 0;
    while i < n
        invariant
            euler_seg_wf(*es),
            fx_ok(d),
            fx_ok(tol),
            tol > 0,
            0 <= i <= n,
            n == nv,
            nv == espc_arc_n_v(*es, d as int, tol as int),
            1 <= n <= ARC_MAX_SUBDIV,
            fx_ok(arclen),
            arclen == arclen_v(*es),
            dt == fxdiv_v(FX_ONE as int, n * FX_ONE),
            out@.len() == i,
            point_wf(p0),
            (p0.x as int, p0.y as int) == espc_arc_from_v(*es, d as int, nv, i as int),
            forall|j: int|
                0 <= j < i ==> #[trigger] espc_arc_el_ok(*es, d as int, nv, j, out@[j]),
        decreases n - i,
    {
        let i_fx = (i as i128) * FX_ONE;
        let t0 = fxmul(i_fx, dt);
        let t1 = fxadd(t0, dt);
        let p1 = if i + 1 == n {
            es.eval_with_offset(FX_ONE, d)
        } else {
            es.eval_with_offset(t1, d)
        };
        let t = fxsub(fxadd(t0, fxmul(FX_HALF, dt)), FX_HALF);
        let k = fxadd(es.params.k0, fxmul(t, es.params.k1));
        let el = if k == 0 {
            ArcEl::Line(p0, p1)
        } else {
            let arclen_offset = fxadd(arclen, fxmul(d, k));
            let r = fxdiv(arclen_offset, k);
            ArcEl::Arc(
                ArcSeg {
                    from: p0,
                    to: p1,
                    radius: r,
                    x_rotation: 0,
                    large_arc: false,
                    sweep: k < 0,
                },
            )
        };
        out.push(el);
        p0 = p1;
        i = i + 1;
    }
    out
}

/// Whether the rounded-up count before the cap reaches `cap`.
pub(crate) fn ceil_reaches(x: i128, cap: u64) -> (r: bool)
    requires
        fx_ok(x),
        2 <= cap,
    ensures
        r == (ceil1_v(x as int) >= cap),
{
    if x <= 0 {
        false
    } else {
        let num = (x as u128) + (FX_ONE - 1) as u128;
        let q = num / (FX_ONE as u128);
        proof {
            vstd::arithmetic::div_mod::lemma_div_is_ordered(
                FX_ONE as int,
                num as int,
                FX_ONE as int,
            );
            vstd::arithmetic::div_mod::lemma_div_by_self(FX_ONE as int);
        }
        q >= cap as u128
    }
}

/// Report whether the plain arc conversion's subdivision estimate has
/// reached the cap: `euler_to_arcs` then emits exactly the cap, the
/// estimate (which itself saturates at the cap) may have been
/// truncated, and the tolerance may not be met.  A caller that must
/// honor the tolerance checks this and reports it.
pub fn euler_arcs_capped(es: &EulerSeg, tol: i128) -> (r: bool)
    requires
        euler_seg_wf(*es),
        fx_ok(tol),
        tol > 0,
    ensures
        r == (ceil1_v(euler_arc_est_v(*es, tol as int)) >= ARC_MAX_SUBDIV),
        r ==> euler_arc_n_v(*es, tol as int) == ARC_MAX_SUBDIV,
        !r ==> euler_arc_n_v(*es, tol as int) == ceil1_v(euler_arc_est_v(*es, tol as int)),
{
    proof {
        reveal(euler_arc_n_v);
    }
    let arclen = fxdiv(es.p0.distance(&es.p1), es.params.ch);
    let est = fxcbrt(
        fxabs(fxmul(fxdiv(fxmul(ARC_ONE_120TH, arclen), tol), fxabs(es.params.k1))),
    );
    ceil_reaches(est, ARC_MAX_SUBDIV)
}

/// Report whether the offset arc conversion's subdivision estimate has
/// reached the cap, as [`euler_arcs_capped`] does for the plain one.
pub fn espc_arcs_capped(es: &EulerSeg, d: i128, tol: i128) -> (r: bool)
    requires
        euler_seg_wf(*es),
        fx_ok(d),
        fx_ok(tol),
        tol > 0,
    ensures
        r == (ceil1_v(espc_arc_est_v(*es, d as int, tol as int)) >= ARC_MAX_SUBDIV),
        r ==> espc_arc_n_v(*es, d as int, tol as int) == ARC_MAX_SUBDIV,
        !r ==> espc_arc_n_v(*es, d as int, tol as int) == ceil1_v(
            espc_arc_est_v(*es, d as int, tol as int),
        ),
{
    proof {
        reveal(espc_arc_n_v);
    }
    let arclen = fxdiv(es.p0.distance(&es.p1), es.params.ch);
    let est = fxcbrt(
        fxabs(
            fxmul(
                fxmul(fxdiv(ARC_ONE_120TH, tol), fxabs(es.params.k1)),
                fxadd(arclen, fxabs(d)),
            ),
        ),
    );
    ceil_reaches(est, ARC_MAX_SUBDIV)
}

/// Clamp a nonnegative fixed-point count, rounded up, into `[1, cap]`.
pub(crate) fn ceil_clamp(x: i128, cap: u64) -> (n: u64)
    requires
        fx_ok(x),
        1 <= cap,
    ensures
        n == ceil_clamp_v(x as int, cap as int),
        1 <= n <= cap,
{
    if x <= 0 {
        1
    } else {
        let num = (x as u128) + (FX_ONE - 1) as u128;
        let q = num / (FX_ONE as u128);
        if q < 1 {
            1
        } else if q > cap as u128 {
            cap
        } else {
            q as u64
        }
    }
}

/// Consecutive elements of an arc approximation are contiguous: each
/// element begins where the previous one ends.
pub proof fn lemma_arcs_contiguous(es: EulerSeg, n: int, i: int, a: ArcEl, b: ArcEl)
    requires
        0 <= i,
        euler_arc_el_ok(es, n, i, a),
        euler_arc_el_ok(es, n, i + 1, b),
    ensures
        arc_el_to(a) == arc_el_from(b),
{
    assert(arc_el_to(a).x == arc_el_from(b).x);
    assert(arc_el_to(a).y == arc_el_from(b).y);
}

/// A segment of identically zero curvature converts to straight lines:
/// with `k0 == 0` and `k1 == 0` every emitted element is a line, never an
/// arc of unbounded radius.
pub proof fn lemma_straight_segment_gives_lines(es: EulerSeg, n: int, i: int, el: ArcEl)
    requires
        es.params.k0 == 0,
        es.params.k1 == 0,
        euler_arc_el_ok(es, n, i, el),
    ensures
        el is Line,
{
    let dt = fxdiv_v(FX_ONE as int, n * FX_ONE);
    let t0 = fxmul_v(i * FX_ONE, dt);
    let t = fxsub_v(fxadd_v(t0, fxmul_v(FX_HALF as int, dt)), FX_HALF as int);
    assert(t * 0 == 0) by (nonlinear_arith);
    assert(fxmul_v(t, 0) == 0) by {
        vstd::arithmetic::div_mod::lemma_div_of0(crate::fixed::FX_SCALE as int);
    }
    assert(arc_k_v(es, n, i) == 0);
}

} // verus!
