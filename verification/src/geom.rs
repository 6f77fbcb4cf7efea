//! Points, vectors and cubic Bézier curves over fixed-point scalars.

use crate::fixed::FX_LIMIT;
use crate::fixed::FX_ONE;
use crate::fixed::FX_SCALE;
use crate::fixed::FX_THREE;
use crate::fixed::fx_ok;
use crate::fixed::fxadd;
use crate::fixed::fxadd_v;
use crate::fixed::fxhypot;
use crate::fixed::fxmul;
use crate::fixed::fxmul_v;
use crate::fixed::fxsub;
use crate::fixed::fxsub_v;
use crate::fixed::hypot_v;
use crate::fixed::sat_v;
use vstd::math::abs;
use vstd::prelude::*;

verus! {

/// A 2D displacement.
#[derive(Clone, Copy, PartialEq, Eq, Structural, Debug)]
pub struct Vec2 {
    pub x: i128,
    pub y: i128,
}

/// A 2D position.
#[derive(Clone, Copy, PartialEq, Eq, Structural, Debug)]
pub struct Point {
    pub x: i128,
    pub y: i128,
}

/// A cubic Bézier curve given by its four control points.
#[derive(Clone, Copy, PartialEq, Eq, Structural, Debug)]
pub struct CubicBez {
    pub p0: Point,
    pub p1: Point,
    pub p2: Point,
    pub p3: Point,
}

/// Well-formedness of a displacement: both coordinates in range.
pub open spec fn vec2_wf(v: Vec2) -> bool {
    fx_ok(v.x) && fx_ok(v.y)
}

/// Well-formedness of a position: both coordinates in range.
pub open spec fn point_wf(p: Point) -> bool {
    fx_ok(p.x) && fx_ok(p.y)
}

/// Well-formedness of a curve: all four control points in range.
pub open spec fn cubic_wf(c: CubicBez) -> bool {
    point_wf(c.p0) && point_wf(c.p1) && point_wf(c.p2) && point_wf(c.p3)
}

/// Dot product of two displacements, componentwise fixed-point.
pub open spec fn dot2_v(ax: int, ay: int, bx: int, by: int) -> int {
    fxadd_v(fxmul_v(ax, bx), fxmul_v(ay, by))
}

/// Cross product `a × b` of two displacements.
pub open spec fn cross2_v(ax: int, ay: int, bx: int, by: int) -> int {
    fxsub_v(fxmul_v(ax, by), fxmul_v(ay, bx))
}

/// Euclidean length of a displacement.
#[verifier::opaque]
pub open spec fn len2_v(x: int, y: int) -> int {
    sat_v(hypot_v(abs(x) as int, abs(y) as int))
}

/// Dot product of two displacements.
pub fn fxdot2(ax: i128, ay: i128, bx: i128, by: i128) -> (r: i128)
    requires
        fx_ok(ax),
        fx_ok(ay),
        fx_ok(bx),
        fx_ok(by),
    ensures
        fx_ok(r),
        r == dot2_v(ax as int, ay as int, bx as int, by as int),
{
    fxadd(fxmul(ax, bx), fxmul(ay, by))
}

/// Cross product `a × b` of two displacements.
pub fn fxcross2(ax: i128, ay: i128, bx: i128, by: i128) -> (r: i128)
    requires
        fx_ok(ax),
        fx_ok(ay),
        fx_ok(bx),
        fx_ok(by),
    ensures
        fx_ok(r),
        r == cross2_v(ax as int, ay as int, bx as int, by as int),
{
    fxsub(fxmul(ax, by), fxmul(ay, bx))
}

impl Vec2 {
    /// Build a displacement from its coordinates.
    pub fn new(x: i128, y: i128) -> (r: Vec2)
        ensures
            r.x == x,
            r.y == y,
    {
        Vec2 { x, y }
    }

    /// Componentwise difference `self - o`.
    pub fn minus(&self, o: &Vec2) -> (r: Vec2)
        requires
            vec2_wf(*self),
            vec2_wf(*o),
        ensures
            vec2_wf(r),
            r.x == fxsub_v(self.x as int, o.x as int),
            r.y == fxsub_v(self.y as int, o.y as int),
    {
        Vec2 { x: fxsub(self.x, o.x), y: fxsub(self.y, o.y) }
    }

    /// Euclidean length.
    pub fn length(&self) -> (r: i128)
        requires
            vec2_wf(*self),
        ensures
            fx_ok(r),
            r >= 0,
            r == len2_v(self.x as int, self.y as int),
    {
        proof {
            reveal(len2_v);
        }
        fxhypot(self.x, self.y)
    }

    /// Squared Euclidean length, in fixed point.
    pub fn length_squared(&self) -> (r: i128)
        requires
            vec2_wf(*self),
        ensures
            fx_ok(r),
            r == dot2_v(self.x as int, self.y as int, self.x as int, self.y as int),
    {
        fxdot2(self.x, self.y, self.x, self.y)
    }

    /// Reinterpret as a position.
    pub fn to_point(&self) -> (r: Point)
        ensures
            r.x == self.x,
            r.y == self.y,
    {
        Point { x: self.x, y: self.y }
    }
}

impl Point {
    /// Build a position from its coordinates.
    pub fn new(x: i128, y: i128) -> (r: Point)
        ensures
            r.x == x,
            r.y == y,
    {
        Point { x, y }
    }

    /// Reinterpret as a displacement.
    pub fn to_vec2(&self) -> (r: Vec2)
        ensures
            r.x == self.x,
            r.y == self.y,
    {
        Vec2 { x: self.x, y: self.y }
    }

    /// Displacement `self - o`.
    pub fn minus(&self, o: &Point) -> (r: Vec2)
        requires
            point_wf(*self),
            point_wf(*o),
        ensures
            vec2_wf(r),
            r.x == fxsub_v(self.x as int, o.x as int),
            r.y == fxsub_v(self.y as int, o.y as int),
    {
        Vec2 { x: fxsub(self.x, o.x), y: fxsub(self.y, o.y) }
    }

    /// Euclidean distance to another position.
    pub fn distance(&self, o: &Point) -> (r: i128)
        requires
            point_wf(*self),
            point_wf(*o),
        ensures
            fx_ok(r),
            r >= 0,
            r == len2_v(
                fxsub_v(self.x as int, o.x as int),
                fxsub_v(self.y as int, o.y as int),
            ),
    {
        proof {
            reveal(len2_v);
        }
        let d = self.minus(o);
        fxhypot(d.x, d.y)
    }
}

impl CubicBez {
    /// Build a curve from its four control points.
    pub fn new(p0: Point, p1: Point, p2: Point, p3: Point) -> (r: CubicBez)
        ensures
            r.p0 == p0,
            r.p1 == p1,
            r.p2 == p2,
            r.p3 == p3,
    {
        CubicBez { p0, p1, p2, p3 }
    }
}

/// Position of a cubic Bézier at parameter `t`, fieldwise: the `x`
/// coordinate (`which` 0), `y` coordinate (1), derivative `x` (2) and
/// derivative `y` (3).  The derivative carries a factor 1/3.
#[verifier::opaque]
pub open spec fn cubic_eval_v(c: CubicBez, t: int, which: int) -> int {
    let m = fxsub_v(FX_ONE as int, t);
    let mm = fxmul_v(m, m);
    let mt = fxmul_v(m, t);
    let tt = fxmul_v(t, t);
    if which == 0 {
        fxadd_v(
            fxmul_v(c.p0.x as int, fxmul_v(mm, m)),
            fxmul_v(
                fxadd_v(
                    fxadd_v(
                        fxmul_v(c.p1.x as int, fxmul_v(FX_THREE as int, mm)),
                        fxmul_v(c.p2.x as int, fxmul_v(FX_THREE as int, mt)),
                    ),
                    fxmul_v(c.p3.x as int, tt),
                ),
                t,
            ),
        )
    } else if which == 1 {
        fxadd_v(
            fxmul_v(c.p0.y as int, fxmul_v(mm, m)),
            fxmul_v(
                fxadd_v(
                    fxadd_v(
                        fxmul_v(c.p1.y as int, fxmul_v(FX_THREE as int, mm)),
                        fxmul_v(c.p2.y as int, fxmul_v(FX_THREE as int, mt)),
                    ),
                    fxmul_v(c.p3.y as int, tt),
                ),
                t,
            ),
        )
    } else if which == 2 {
        fxadd_v(
            fxadd_v(
                fxmul_v(fxsub_v(c.p1.x as int, c.p0.x as int), mm),
                fxmul_v(fxsub_v(c.p2.x as int, c.p1.x as int), fxadd_v(mt, mt)),
            ),
            fxmul_v(fxsub_v(c.p3.x as int, c.p2.x as int), tt),
        )
    } else {
        fxadd_v(
            fxadd_v(
                fxmul_v(fxsub_v(c.p1.y as int, c.p0.y as int), mm),
                fxmul_v(fxsub_v(c.p2.y as int, c.p1.y as int), fxadd_v(mt, mt)),
            ),
            fxmul_v(fxsub_v(c.p3.y as int, c.p2.y as int), tt),
        )
    }
}

/// Multiplying a well-formed scalar by one is exact.
proof fn lemma_fxmul_one(a: int)
    requires
        -FX_LIMIT <= a <= FX_LIMIT,
    ensures
        fxmul_v(a, FX_ONE as int) == a,
        fxmul_v(FX_ONE as int, a) == a,
{
    let s = FX_SCALE as int;
    vstd::arithmetic::mul::lemma_mul_is_commutative(a, s);
    if a >= 0 {
        vstd::arithmetic::div_mod::lemma_div_multiples_vanish(a, s);
    } else {
        vstd::arithmetic::div_mod::lemma_div_multiples_vanish(-a, s);
        assert((-a) * s == -(a * s)) by (nonlinear_arith);
        assert((-a) * s == -(s * a)) by (nonlinear_arith);
    }
}

/// At parameter zero the curve evaluates exactly to its first control
/// point, and its scaled derivative to the first control-net leg.
pub proof fn lemma_cubic_eval_at_zero(c: CubicBez)
    requires
        cubic_wf(c),
    ensures
        cubic_eval_v(c, 0, 0) == c.p0.x,
        cubic_eval_v(c, 0, 1) == c.p0.y,
        cubic_eval_v(c, 0, 2) == fxsub_v(c.p1.x as int, c.p0.x as int),
        cubic_eval_v(c, 0, 3) == fxsub_v(c.p1.y as int, c.p0.y as int),
{
    reveal(cubic_eval_v);
    let s = FX_SCALE as int;
    let one = FX_ONE as int;
    assert(fxsub_v(one, 0) == one);
    assert(fxmul_v(one, one) == one) by {
        lemma_fxmul_one(one);
    }
    assert(fxmul_v(one, 0) == 0) by {
        vstd::arithmetic::div_mod::lemma_div_of0(s);
    }
    assert(fxmul_v(0, 0) == 0) by {
        vstd::arithmetic::div_mod::lemma_div_of0(s);
    }
    assert forall|a: int| -FX_LIMIT <= a <= FX_LIMIT implies #[trigger] fxmul_v(a, one)
        == a && fxmul_v(a, 0) == 0 by {
        lemma_fxmul_one(a);
        assert(a * 0 == 0) by (nonlinear_arith);
        vstd::arithmetic::div_mod::lemma_div_of0(s);
    }
}

/// At parameter one the curve evaluates exactly to its last control
/// point, and its scaled derivative to the last control-net leg.
pub proof fn lemma_cubic_eval_at_one(c: CubicBez)
    requires
        cubic_wf(c),
    ensures
        cubic_eval_v(c, FX_ONE as int, 0) == c.p3.x,
        cubic_eval_v(c, FX_ONE as int, 1) == c.p3.y,
        cubic_eval_v(c, FX_ONE as int, 2) == fxsub_v(c.p3.x as int, c.p2.x as int),
        cubic_eval_v(c, FX_ONE as int, 3) == fxsub_v(c.p3.y as int, c.p2.y as int),
{
    reveal(cubic_eval_v);
    let s = FX_SCALE as int;
    let one = FX_ONE as int;
    assert(fxsub_v(one, one) == 0);
    assert(fxmul_v(one, one) == one) by {
        lemma_fxmul_one(one);
    }
    assert(fxmul_v(0, one) == 0) by {
        vstd::arithmetic::div_mod::lemma_div_of0(s);
    }
    assert(fxmul_v(0, 0) == 0) by {
        vstd::arithmetic::div_mod::lemma_div_of0(s);
    }
    assert(fxmul_v(FX_THREE as int, 0) == 0) by {
        assert((FX_THREE as int) * 0 == 0) by (nonlinear_arith);
        vstd::arithmetic::div_mod::lemma_div_of0(s);
    }
    assert forall|a: int| -FX_LIMIT <= a <= FX_LIMIT implies #[trigger] fxmul_v(a, one)
        == a && fxmul_v(a, 0) == 0 by {
        lemma_fxmul_one(a);
        assert(a * 0 == 0) by (nonlinear_arith);
        vstd::arithmetic::div_mod::lemma_div_of0(s);
    }
}

/// Evaluate a cubic Bézier's position and scaled derivative at `t`.
///
/// The returned derivative is one third of the true derivative, as the
/// boundary-tangent construction expects.
pub fn eval_cubic_and_deriv(c: &CubicBez, t: i128) -> (r: (Vec2, Vec2))
    requires
        cubic_wf(*c),
        fx_ok(t),
    ensures
        vec2_wf(r.0),
        vec2_wf(r.1),
        r.0.x == cubic_eval_v(*c, t as int, 0),
        r.0.y == cubic_eval_v(*c, t as int, 1),
        r.1.x == cubic_eval_v(*c, t as int, 2),
        r.1.y == cubic_eval_v(*c, t as int, 3),
{
    proof {
        reveal(cubic_eval_v);
    }
    let m = fxsub(FX_ONE, t);
    let mm = fxmul(m, m);
    let mt = fxmul(m, t);
    let tt = fxmul(t, t);
    let mmm = fxmul(mm, m);
    let w1 = fxmul(FX_THREE, mm);
    let w2 = fxmul(FX_THREE, mt);
    let px = fxadd(
        fxmul(c.p0.x, mmm),
        fxmul(
            fxadd(fxadd(fxmul(c.p1.x, w1), fxmul(c.p2.x, w2)), fxmul(c.p3.x, tt)),
            t,
        ),
    );
    let py = fxadd(
        fxmul(c.p0.y, mmm),
        fxmul(
            fxadd(fxadd(fxmul(c.p1.y, w1), fxmul(c.p2.y, w2)), fxmul(c.p3.y, tt)),
            t,
        ),
    );
    let mt2 = fxadd(mt, mt);
    let qx = fxadd(
        fxadd(
            fxmul(fxsub(c.p1.x, c.p0.x), mm),
            fxmul(fxsub(c.p2.x, c.p1.x), mt2),
        ),
        fxmul(fxsub(c.p3.x, c.p2.x), tt),
    );
    let qy = fxadd(
        fxadd(
            fxmul(fxsub(c.p1.y, c.p0.y), mm),
            fxmul(fxsub(c.p2.y, c.p1.y), mt2),
        ),
        fxmul(fxsub(c.p3.y, c.p2.y), tt),
    );
    (Vec2 { x: px, y: py }, Vec2 { x: qx, y: qy })
}

} // verus!
