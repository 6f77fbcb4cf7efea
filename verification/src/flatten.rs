//! Flattening of the Euler-spiral parallel curve to a polyline.
//!
//! Per segment, two scalar coefficients derived from the curvature
//! coefficients and the normalized offset define a reparameterization
//! whose energy integral — a closed-form piecewise approximation of
//! `∫ sqrt(|k·(k·offset + 1)|)` — is evaluated and inverted without
//! iteration.  Vertices are placed at parameters obtained by inverse
//! mapping equally spaced energy values, which equalizes the estimated
//! error per output edge.  The forward approximation is a four-piece
//! function (a sine for small arguments, a signed square-root term in a
//! middle range, two quadratic pieces beyond); the inverse mirrors that
//! structure with an arcsine, a cube-root inverse, and quadratic-formula
//! inverses.

use crate::FitError;
use crate::euler::EulerSeg;
use crate::euler::es_eval_with_offset_v;
use crate::euler::euler_seg_wf;
use crate::fit::CubicToEulerIter;
use crate::fixed::FX_HALF;
use crate::fixed::FX_ONE;
use crate::fixed::FX_SCALE;
use crate::fixed::fx_ok;
use crate::fixed::fxabs;
use crate::fixed::fxabs_v;
use crate::fixed::fxadd;
use crate::fixed::fxadd_v;
use crate::fixed::fxcbrt;
use crate::fixed::fxcbrt_v;
use crate::fixed::fxdiv;
use crate::fixed::fxdiv_v;
use crate::fixed::fxmul;
use crate::fixed::fxmul_v;
use crate::fixed::fxsqrt;
use crate::fixed::fxsqrt_v;
use crate::fixed::fxsub;
use crate::fixed::fxsub_v;
use crate::geom::Point;
use crate::geom::point_wf;
use crate::trig::fxatan2;
use crate::trig::fxatan2_v;
use crate::trig::fxsin;
use crate::trig::fxsin_v;
use vstd::prelude::*;

verus! {

/// First breakpoint of the forward approximation: 0.8.
pub const ESPC_BREAK1: i128 = 225179981368524;

/// Second breakpoint of the forward approximation: 1.25.
pub const ESPC_BREAK2: i128 = 351843720888320;

/// Third breakpoint of the forward approximation: 2.1.
pub const ESPC_BREAK3: i128 = 591097451092377;

/// Frequency of the sine piece: 1.0976991822760038.
pub const ESPC_SIN_SCALE: i128 = 308974851766444;

/// Reciprocal of the sine-piece frequency.
pub const ESPC_INV_SIN_SCALE: i128 = 256422689617967;

/// `sqrt(8)/3`, the factor of the middle signed-square-root piece.
pub const ESPC_SQRT8_3: i128 = 265377153021907;

/// π/4, the constant of the middle piece.
pub const ESPC_FRAC_PI_4: i128 = 221069929750888;

/// First quadratic piece: 0.6406·y² − 0.81·y + 0.9148117935952064.
pub const ESPC_QUAD_A1: i128 = 180312870080846;

/// Linear coefficient of the first quadratic piece.
pub const ESPC_QUAD_B1: i128 = -227994731135631;

/// Constant of the first quadratic piece.
pub const ESPC_QUAD_C1: i128 = 257496628296844;

/// Second quadratic piece: 0.5·y² − 0.156·y + 0.16145779359520596.
pub const ESPC_QUAD_A2: i128 = 140737488355328;

/// Linear coefficient of the second quadratic piece.
pub const ESPC_QUAD_B2: i128 = -43910096366862;

/// Constant of the second quadratic piece.
pub const ESPC_QUAD_C2: i128 = 45446328691964;

/// First breakpoint of the inverse: 0.7010707591262915.
pub const ESPC_IBRK1: i128 = 197333875597594;

/// Second breakpoint of the inverse: 0.903249293595206.
pub const ESPC_IBRK2: i128 = 254242073878627;

/// Third breakpoint of the inverse: 2.038857793595206.
pub const ESPC_IBRK3: i128 = 573887449968550;

/// Cube root of 9/8, the factor of the cube-root inverse piece.
pub const ESPC_CBRT_9_8: i128 = 292745772824873;

/// Shift of the first quadratic-formula inverse: 0.5·b1/a1.
pub const ESPC_IQ_W1: i128 = -177954051776171;

/// Discriminant constant of the first quadratic-formula inverse.
pub const ESPC_IQ_U1: i128 = -289455568728527;

/// Reciprocal leading coefficient of the first quadratic piece.
pub const ESPC_IQ_V1: i128 = 439392720434992;

/// Shift of the second quadratic-formula inverse: 0.5·b2/a2.
pub const ESPC_IQ_W2: i128 = -43910096366862;

/// Discriminant constant of the second quadratic-formula inverse.
pub const ESPC_IQ_U2: i128 = -84042682350698;

/// Reciprocal leading coefficient of the second quadratic piece.
pub const ESPC_IQ_V2: i128 = 562949953421312;

/// Two.
pub const FX_TWO: i128 = 562949953421312;

/// Largest admitted vertex count for one segment: a resource bound so
/// that one extreme tolerance cannot demand an unbounded polyline.
pub const FLAT_MAX_SUBDIV: u64 = 65536;

/// Forward approximation of the flattening energy integral, an odd
/// four-piece closed form of its argument.
#[verifier::opaque]
pub open spec fn espc_int_approx_v(x: int) -> int {
    let y = fxabs_v(x);
    let a = if y < ESPC_BREAK1 {
        fxmul_v(fxsin_v(fxmul_v(ESPC_SIN_SCALE as int, y)), ESPC_INV_SIN_SCALE as int)
    } else if y < ESPC_BREAK2 {
        let ym1 = fxsub_v(y, FX_ONE as int);
        fxadd_v(
            fxmul_v(fxmul_v(ESPC_SQRT8_3 as int, ym1), fxsqrt_v(fxabs_v(ym1))),
            ESPC_FRAC_PI_4 as int,
        )
    } else if y < ESPC_BREAK3 {
        fxadd_v(
            fxadd_v(fxmul_v(fxmul_v(ESPC_QUAD_A1 as int, y), y), fxmul_v(ESPC_QUAD_B1 as int, y)),
            ESPC_QUAD_C1 as int,
        )
    } else {
        fxadd_v(
            fxadd_v(fxmul_v(fxmul_v(ESPC_QUAD_A2 as int, y), y), fxmul_v(ESPC_QUAD_B2 as int, y)),
            ESPC_QUAD_C2 as int,
        )
    };
    if x < 0 {
        -fxabs_v(a)
    } else {
        fxabs_v(a)
    }
}

/// Inverse approximation of the flattening energy integral, the odd
/// piecewise inverse of the forward form.
#[verifier::opaque]
pub open spec fn espc_int_inv_approx_v(x: int) -> int {
    let y = fxabs_v(x);
    let a = if y < ESPC_IBRK1 {
        let s = fxmul_v(x, ESPC_SIN_SCALE as int);
        let d = fxsub_v(FX_ONE as int, fxmul_v(s, s));
        let u = fxsqrt_v(
            if d < 0 {
                0
            } else {
                d
            },
        );
        fxmul_v(fxatan2_v(s, u), ESPC_INV_SIN_SCALE as int)
    } else if y < ESPC_IBRK2 {
        let b = fxsub_v(y, ESPC_FRAC_PI_4 as int);
        let babs = fxabs_v(b);
        let cb = fxcbrt_v(babs);
        let u0 = fxmul_v(cb, cb);
        let u = if b < 0 {
            -u0
        } else {
            u0
        };
        fxadd_v(fxmul_v(u, ESPC_CBRT_9_8 as int), FX_ONE as int)
    } else if y < ESPC_IBRK3 {
        let arg = fxadd_v(ESPC_IQ_U1 as int, fxmul_v(ESPC_IQ_V1 as int, y));
        fxsub_v(
            fxsqrt_v(
                if arg < 0 {
                    0
                } else {
                    arg
                },
            ),
            ESPC_IQ_W1 as int,
        )
    } else {
        let arg = fxadd_v(ESPC_IQ_U2 as int, fxmul_v(ESPC_IQ_V2 as int, y));
        fxsub_v(
            fxsqrt_v(
                if arg < 0 {
                    0
                } else {
                    arg
                },
            ),
            ESPC_IQ_W2 as int,
        )
    };
    if x < 0 {
        -fxabs_v(a)
    } else {
        fxabs_v(a)
    }
}

/// The forward approximation is an odd function: its four pieces are
/// computed from the argument's magnitude and the result carries the
/// argument's sign.
pub proof fn lemma_espc_int_approx_odd(x: int)
    ensures
        espc_int_approx_v(-x) == -espc_int_approx_v(x),
{
    reveal(espc_int_approx_v);
    if x == 0 {
        crate::fixed::lemma_fxmul_zero(ESPC_SIN_SCALE as int);
        crate::trig::lemma_fxsin_zero();
        crate::fixed::lemma_fxmul_zero(ESPC_INV_SIN_SCALE as int);
    }
}

/// The inverse approximation is an odd function, like the forward one.
pub proof fn lemma_espc_int_inv_approx_odd(x: int)
    ensures
        espc_int_inv_approx_v(-x) == -espc_int_inv_approx_v(x),
{
    reveal(espc_int_inv_approx_v);
    let y = fxabs_v(x);
    if y < ESPC_IBRK1 {
        let s = fxmul_v(x, ESPC_SIN_SCALE as int);
        crate::fixed::lemma_fxmul_neg(x, ESPC_SIN_SCALE as int);
        assert(fxmul_v(-x, ESPC_SIN_SCALE as int) == -s);
        assert(fxmul_v(-s, -s) == fxmul_v(s, s)) by {
            crate::fixed::lemma_fxmul_neg(s, -s);
            crate::fixed::lemma_fxmul_neg(s, s);
            assert((-s) * (-s) == s * s) by (nonlinear_arith);
        }
        let d = fxsub_v(FX_ONE as int, fxmul_v(s, s));
        let u = fxsqrt_v(
            if d < 0 {
                0
            } else {
                d
            },
        );
        assert(u >= 0) by {
            crate::fixed::lemma_isqrt_v_bounds(
                (if d < 0 {
                    0
                } else {
                    d
                }) * crate::fixed::FX_SCALE,
            );
        }
        crate::trig::lemma_fxatan2_odd(s, u);
        crate::fixed::lemma_fxmul_neg(fxatan2_v(s, u), ESPC_INV_SIN_SCALE as int);
    }
}

/// The forward approximation never leaves its argument's side of zero:
/// the result carries the argument's sign onto a magnitude.  (The
/// real-valued four-piece form is strictly increasing; over truncating
/// fixed point, neighboring outputs can coincide, so monotonicity is a
/// runtime-checked property rather than a stated law.)
pub proof fn lemma_espc_int_approx_sign(x: int)
    ensures
        x >= 0 ==> espc_int_approx_v(x) >= 0,
        x <= 0 ==> espc_int_approx_v(x) <= 0,
{
    reveal(espc_int_approx_v);
    if x == 0 {
        crate::fixed::lemma_fxmul_zero(ESPC_SIN_SCALE as int);
        crate::trig::lemma_fxsin_zero();
        crate::fixed::lemma_fxmul_zero(ESPC_INV_SIN_SCALE as int);
    }
}

/// The inverse approximation never leaves its argument's side of zero.
pub proof fn lemma_espc_int_inv_approx_sign(x: int)
    ensures
        x >= 0 ==> espc_int_inv_approx_v(x) >= 0,
        x <= 0 ==> espc_int_inv_approx_v(x) <= 0,
{
    reveal(espc_int_inv_approx_v);
    if x == 0 {
        crate::fixed::lemma_fxmul_zero(ESPC_SIN_SCALE as int);
        crate::fixed::lemma_fxmul_zero(ESPC_INV_SIN_SCALE as int);
        crate::fixed::lemma_isqrt_v_bounds(FX_ONE * FX_SCALE);
        crate::trig::lemma_fxatan2_zero(fxsqrt_v(FX_ONE as int));
    }
}

/// Forward approximation of the flattening energy integral.
pub fn espc_int_approx(x: i128) -> (r: i128)
    requires
        fx_ok(x),
    ensures
        fx_ok(r),
        r == espc_int_approx_v(x as int),
{
    proof {
        reveal(espc_int_approx_v);
    }
    let y = fxabs(x);
    let a = if y < ESPC_BREAK1 {
        fxmul(fxsin(fxmul(ESPC_SIN_SCALE, y)), ESPC_INV_SIN_SCALE)
    } else if y < ESPC_BREAK2 {
        let ym1 = fxsub(y, FX_ONE);
        fxadd(
            fxmul(fxmul(ESPC_SQRT8_3, ym1), fxsqrt(fxabs(ym1))),
            ESPC_FRAC_PI_4,
        )
    } else if y < ESPC_BREAK3 {
        fxadd(
            fxadd(fxmul(fxmul(ESPC_QUAD_A1, y), y), fxmul(ESPC_QUAD_B1, y)),
            ESPC_QUAD_C1,
        )
    } else {
        fxadd(
            fxadd(fxmul(fxmul(ESPC_QUAD_A2, y), y), fxmul(ESPC_QUAD_B2, y)),
            ESPC_QUAD_C2,
        )
    };
    let m = fxabs(a);
    if x < 0 {
        -m
    } else {
        m
    }
}

/// Inverse approximation of the flattening energy integral.
pub fn espc_int_inv_approx(x: i128) -> (r: i128)
    requires
        fx_ok(x),
    ensures
        fx_ok(r),
        r == espc_int_inv_approx_v(x as int),
{
    proof {
        reveal(espc_int_inv_approx_v);
    }
    let y = fxabs(x);
    let a = if y < ESPC_IBRK1 {
        let s = fxmul(x, ESPC_SIN_SCALE);
        let d = fxsub(FX_ONE, fxmul(s, s));
        let dc = if d < 0 {
            0
        } else {
            d
        };
        let u = fxsqrt(dc);
        fxmul(fxatan2(s, u), ESPC_INV_SIN_SCALE)
    } else if y < ESPC_IBRK2 {
        let b = fxsub(y, ESPC_FRAC_PI_4);
        let babs = fxabs(b);
        let cb = fxcbrt(babs);
        let u0 = fxmul(cb, cb);
        let u = if b < 0 {
            -u0
        } else {
            u0
        };
        fxadd(fxmul(u, ESPC_CBRT_9_8), FX_ONE)
    } else if y < ESPC_IBRK3 {
        let arg = fxadd(ESPC_IQ_U1, fxmul(ESPC_IQ_V1, y));
        let ac = if arg < 0 {
            0
        } else {
            arg
        };
        fxsub(fxsqrt(ac), ESPC_IQ_W1)
    } else {
        let arg = fxadd(ESPC_IQ_U2, fxmul(ESPC_IQ_V2, y));
        let ac = if arg < 0 {
            0
        } else {
            arg
        };
        fxsub(fxsqrt(ac), ESPC_IQ_W2)
    };
    let m = fxabs(a);
    if x < 0 {
        -m
    } else {
        m
    }
}

/// Fractional vertex-count estimate of one segment before rounding and
/// the cap: under a degenerate reparameterization (`a == 0`) the
/// integrand is bounded at the interval ends, else the closed-form
/// energy integral is used.
pub open spec fn flat_nfrac_v(es: EulerSeg, offset: int, tol: int) -> int {
    let scale = crate::geom::len2_v(
        fxsub_v(es.p0.x as int, es.p1.x as int),
        fxsub_v(es.p0.y as int, es.p1.y as int),
    );
    let k0 = fxsub_v(es.params.k0 as int, fxmul_v(FX_HALF as int, es.params.k1 as int));
    let k1 = es.params.k1 as int;
    let ds = fxdiv_v(offset, scale);
    let a = fxmul_v(fxmul_v(-(FX_TWO as int), ds), k1);
    let b = fxsub_v(-(FX_ONE as int), fxmul_v(fxmul_v(FX_TWO as int, ds), k0));
    if a == 0 {
        let k_start = fxabs_v(k0);
        let k_end = fxabs_v(fxadd_v(k0, k1));
        let kmax = if k_start >= k_end {
            k_start
        } else {
            k_end
        };
        let integrand = fxsqrt_v(
            fxabs_v(fxmul_v(kmax, fxadd_v(fxmul_v(kmax, fxabs_v(ds)), FX_ONE as int))),
        );
        fxmul_v(
            fxmul_v(FX_HALF as int, fxsqrt_v(fxabs_v(fxdiv_v(scale, tol)))),
            integrand,
        )
    } else {
        let int0 = espc_int_approx_v(b);
        let int1 = espc_int_approx_v(fxadd_v(a, b));
        let integral = fxsub_v(int1, int0);
        let k_peak = fxsub_v(k0, fxdiv_v(fxmul_v(k1, b), a));
        let integrand_peak = fxsqrt_v(
            fxabs_v(fxmul_v(k_peak, fxadd_v(fxmul_v(k_peak, ds), FX_ONE as int))),
        );
        let scaled_int = fxdiv_v(fxmul_v(integral, integrand_peak), a);
        fxmul_v(
            fxmul_v(FX_HALF as int, fxsqrt_v(fxabs_v(fxdiv_v(scale, tol)))),
            scaled_int,
        )
    }
}

/// Per-segment flattening coefficients `(a, b, int0, integral, n)`: the
/// linear reparameterization, the energy integral across the segment,
/// and the closed-form vertex count, at least one per segment so the
/// polyline always reaches each segment's end.
///
/// When `a` is zero — a zero offset, a zero curvature slope, or an
/// underflowing product — the reparameterization is degenerate and the
/// energy-integral machinery would report no subdivisions at all.  The
/// integrand is then bounded by its value at the interval ends and the
/// vertices are spaced uniformly in the parameter.
#[verifier::opaque]
pub open spec fn flat_params_v(es: EulerSeg, offset: int, tol: int) -> (
    int,
    int,
    int,
    int,
    int,
) {
    let scale = crate::geom::len2_v(
        fxsub_v(es.p0.x as int, es.p1.x as int),
        fxsub_v(es.p0.y as int, es.p1.y as int),
    );
    let k0 = fxsub_v(es.params.k0 as int, fxmul_v(FX_HALF as int, es.params.k1 as int));
    let k1 = es.params.k1 as int;
    let ds = fxdiv_v(offset, scale);
    let a = fxmul_v(fxmul_v(-(FX_TWO as int), ds), k1);
    let b = fxsub_v(-(FX_ONE as int), fxmul_v(fxmul_v(FX_TWO as int, ds), k0));
    let n = crate::arc::ceil_clamp_v(flat_nfrac_v(es, offset, tol), FLAT_MAX_SUBDIV as int);
    if a == 0 {
        (0, b, 0, 0, n)
    } else {
        let int0 = espc_int_approx_v(b);
        let int1 = espc_int_approx_v(fxadd_v(a, b));
        let integral = fxsub_v(int1, int0);
        (a, b, int0, integral, n)
    }
}

/// Vertex count contributed by one segment.
pub open spec fn flat_n_v(es: EulerSeg, offset: int, tol: int) -> int {
    flat_params_v(es, offset, tol).4
}

/// The `j`-th vertex contributed by one segment: the offset evaluation
/// at the parameter obtained by inverse mapping the `j+1`-th of `n`
/// equally spaced energy values; under a degenerate reparameterization
/// the parameters are spaced uniformly instead.
pub open spec fn flat_vertex_v(es: EulerSeg, offset: int, tol: int, j: int) -> (int, int) {
    let p = flat_params_v(es, offset, tol);
    let n = p.4;
    let t = fxdiv_v((j + 1) * FX_ONE, n * FX_ONE);
    if p.0 == 0 {
        es_eval_with_offset_v(es, t, offset)
    } else {
        let inv = espc_int_inv_approx_v(fxadd_v(fxmul_v(p.3, t), p.2));
        let s = fxdiv_v(fxsub_v(inv, p.1), p.0);
        es_eval_with_offset_v(es, s, offset)
    }
}

/// Total vertex count of a segment sequence, without the leading vertex.
pub open spec fn flat_count_v(segs: Seq<EulerSeg>, offset: int, tol: int) -> int
    decreases segs.len(),
{
    if segs.len() == 0 {
        0
    } else {
        flat_count_v(segs.drop_last(), offset, tol) + flat_n_v(segs.last(), offset, tol)
    }
}

/// Every segment contributes at least one and at most the capped number
/// of vertices.
pub proof fn lemma_flat_n_bounds(es: EulerSeg, offset: int, tol: int)
    ensures
        1 <= flat_n_v(es, offset, tol) <= FLAT_MAX_SUBDIV,
{
    reveal(flat_params_v);
}

/// Under a degenerate reparameterization the segment's last vertex is
/// placed exactly at the segment's end: the uniform parameter of the
/// final vertex is exactly one.
pub proof fn lemma_flat_last_vertex_at_end(es: EulerSeg, offset: int, tol: int)
    requires
        flat_params_v(es, offset, tol).0 == 0,
    ensures
        flat_vertex_v(
            es,
            offset,
            tol,
            flat_n_v(es, offset, tol) - 1,
        ) == es_eval_with_offset_v(es, FX_ONE as int, offset),
{
    lemma_flat_n_bounds(es, offset, tol);
    let n = flat_n_v(es, offset, tol);
    let x = n * FX_ONE;
    assert(x >= FX_ONE) by (nonlinear_arith)
        requires
            n >= 1,
            x == n * FX_ONE,
            FX_ONE == 0x1_0000_0000_0000i128,
    ;
    assert(fxdiv_v(x, x) == FX_ONE) by {
        vstd::arithmetic::div_mod::lemma_div_multiples_vanish(FX_ONE as int, x);
        vstd::arithmetic::mul::lemma_mul_is_commutative(FX_ONE as int, x);
        assert(vstd::math::abs(x) == x);
        assert(vstd::math::abs(x) * FX_SCALE == x * FX_SCALE);
    }
}

/// The total vertex count of a segment sequence is nonnegative.
pub proof fn lemma_flat_count_nonneg(segs: Seq<EulerSeg>, offset: int, tol: int)
    ensures
        flat_count_v(segs, offset, tol) >= 0,
    decreases segs.len(),
{
    if segs.len() > 0 {
        lemma_flat_count_nonneg(segs.drop_last(), offset, tol);
        lemma_flat_n_bounds(segs.last(), offset, tol);
    }
}

/// A prefix's vertex count plus its next segment's contribution stays
/// within the whole sequence's count.
pub proof fn lemma_flat_count_split(segs: Seq<EulerSeg>, offset: int, tol: int, i: int)
    requires
        0 <= i < segs.len(),
    ensures
        flat_count_v(segs.subrange(0, i), offset, tol) >= 0,
        flat_count_v(segs.subrange(0, i), offset, tol) + flat_n_v(segs[i], offset, tol)
            <= flat_count_v(segs, offset, tol),
    decreases segs.len(),
{
    lemma_flat_count_nonneg(segs.subrange(0, i), offset, tol);
    if i == segs.len() - 1 {
        assert(segs.subrange(0, i) =~= segs.drop_last());
        assert(segs.last() == segs[i]);
    } else {
        let front = segs.drop_last();
        lemma_flat_count_split(front, offset, tol, i);
        assert(segs.subrange(0, i) =~= front.subrange(0, i));
        assert(front[i] == segs[i]);
        lemma_flat_n_bounds(segs.last(), offset, tol);
    }
}

/// The polyline `pts` is the flattening of the segment sequence `segs`:
/// it has the closed-form length, begins with the offset evaluation of
/// the first segment at parameter zero, and each segment's vertices
/// stand at their inverse-mapped positions.
pub open spec fn flat_pts_ok(segs: Seq<EulerSeg>, pts: Seq<Point>, offset: int, tol: int) -> bool {
    &&& pts.len() == (if segs.len() == 0 {
        0int
    } else {
        1 + flat_count_v(segs, offset, tol)
    })
    &&& (segs.len() > 0 ==> (pts[0].x as int, pts[0].y as int) == es_eval_with_offset_v(
        segs[0],
        0,
        offset,
    ))
    &&& (forall|i: int, j: int|
        #![trigger flat_vertex_v(segs[i], offset, tol, j)]
        0 <= i < segs.len() && 0 <= j < flat_n_v(segs[i], offset, tol) ==> {
            let idx = 1 + flat_count_v(segs.subrange(0, i), offset, tol) + j;
            &&& 0 <= idx < pts.len()
            &&& ((pts[idx]).x as int, pts[idx].y as int) == flat_vertex_v(segs[i], offset, tol, j)
        })
    &&& (forall|k: int| 0 <= k < pts.len() ==> point_wf(#[trigger] pts[k]))
}

/// Flatten the parallel curve at signed `offset` of the curve whose
/// segments `iter` produces, within tolerance `tol`, into a connected
/// polyline.  The segments are drawn from the fitter until the domain is
/// covered and then flattened as by [`flatten_offset_segments`].
///
/// Failure is owed to the fit alone, if and only if: an error is
/// returned exactly when the deterministic fitting run from the given
/// iterator state reaches a candidate with a degenerate (below-guard)
/// chord (`fit_fails_from`).  On every curve whose run never
/// degenerates, the polyline is returned.
pub fn flatten_offset(iter: &mut CubicToEulerIter, offset: i128, tol: i128) -> (r: Result<
    Vec<Point>,
    FitError,
>)
    requires
        old(iter).wf(),
        old(iter).segs@.len() == 0,
        !old(iter).failed,
        fx_ok(offset),
        fx_ok(tol),
        tol > 0,
    ensures
        final(iter).wf(),
        final(iter).c == old(iter).c,
        final(iter).tolerance == old(iter).tolerance,
        (r is Err) <==> crate::fit::fit_fails_from(*old(iter)),
        match r {
            Ok(pts) => {
                &&& final(iter).done() && !final(iter).failed
                &&& flat_pts_ok(final(iter).segs@, pts@, offset as int, tol as int)
            },
            Err(e) => {
                &&& e == FitError::InvalidArgument
                &&& final(iter).failed
                &&& !final(iter).done()
                &&& !crate::fit::cand_chord_ok_v(*final(iter))
                &&& crate::fit::call_fails_v(*final(iter))
            },
        },
{
    let mut segs: Vec<EulerSeg> = Vec::new();
    proof {
        assert(segs@ =~= iter.segs@);
    }
    loop
        invariant_except_break
            iter.wf(),
            !iter.failed,
            iter.c == old(iter).c,
            iter.tolerance == old(iter).tolerance,
            segs@ == iter.segs@,
            crate::fit::fit_fails_from(*old(iter)) == crate::fit::fit_fails_from(*iter),
            fx_ok(offset),
            fx_ok(tol),
            tol > 0,
        ensures
            iter.wf(),
            !iter.failed,
            iter.done(),
            iter.c == old(iter).c,
            iter.tolerance == old(iter).tolerance,
            segs@ == iter.segs@,
            !crate::fit::fit_fails_from(*old(iter)),
        decreases FX_ONE - iter.last_t,
    {
        match iter.next() {
            Ok(Some(es)) => {
                segs.push(es);
            },
            Ok(None) => {
                break;
            },
            Err(e) => {
                return Err(e);
            },
        }
    }
    proof {
        assert forall|i: int| 0 <= i < segs@.len() implies euler_seg_wf(
            #[trigger] segs@[i],
        ) by {
            assert(iter.step_ok(i));
        }
    }
    Ok(flatten_offset_segments(&segs, offset, tol))
}

/// Flatten the parallel curve at signed `offset` of the given
/// Euler-spiral segment sequence, within tolerance `tol`, into a
/// connected polyline.  The first vertex is the offset evaluation of the
/// first segment at parameter zero; each segment then contributes at
/// least one and at most the capped number of vertices, placed at
/// inverse-mapped equally spaced energy values (uniformly under a
/// degenerate reparameterization), the last of them at the segment's
/// end.
pub fn flatten_offset_segments(segs: &Vec<EulerSeg>, offset: i128, tol: i128) -> (pts: Vec<
    Point,
>)
    requires
        forall|i: int| 0 <= i < segs@.len() ==> euler_seg_wf(#[trigger] segs@[i]),
        fx_ok(offset),
        fx_ok(tol),
        tol > 0,
    ensures
        flat_pts_ok(segs@, pts@, offset as int, tol as int),
{
    let mut result: Vec<Point> = Vec::new();
    let mut i: usize = 0;
    while i < segs.len()
        invariant
            forall|k: int| 0 <= k < segs@.len() ==> euler_seg_wf(#[trigger] segs@[k]),
            fx_ok(offset),
            fx_ok(tol),
            tol > 0,
            0 <= i <= segs@.len(),
            flat_pts_ok(segs@.subrange(0, i as int), result@, offset as int, tol as int),
        decreases segs@.len() - i,
    {
        let ghost head_segs = segs@.subrange(0, i as int);
        let ghost head_result = result@;
        let es = segs[i];
        if i == 0 {
            result.push(es.eval_with_offset(0, offset));
        }
        let ghost base = result@.len() as int;
        let ghost pre_result = result@;
        flatten_segment(&mut result, &es, offset, tol);
        proof {
            let cur = segs@.subrange(0, i + 1);
            let off = offset as int;
            let tv = tol as int;
            let nseg = cur.len() as int;
            assert(cur.drop_last() =~= head_segs);
            assert(cur.last() == es);
            lemma_flat_count_nonneg(head_segs, off, tv);
            lemma_flat_n_bounds(es, off, tv);
            assert(flat_count_v(cur, off, tv) == flat_count_v(head_segs, off, tv) + flat_n_v(
                es,
                off,
                tv,
            ));
            assert(base == 1 + flat_count_v(head_segs, off, tv));
            if nseg == 1 {
                assert(result@[0] == pre_result[0]);
            } else {
                assert(cur[0] == head_segs[0]);
                assert(result@[0] == head_result[0]);
            }
            assert forall|i2: int, j2: int|
                #![trigger flat_vertex_v(cur[i2], off, tv, j2)]
                0 <= i2 < nseg && 0 <= j2 < flat_n_v(cur[i2], off, tv) implies {
                let idx = 1 + flat_count_v(cur.subrange(0, i2), off, tv) + j2;
                &&& 0 <= idx < result@.len()
                &&& (((result@[idx]).x as int, result@[idx].y as int) == flat_vertex_v(
                    cur[i2],
                    off,
                    tv,
                    j2,
                ))
            } by {
                if i2 < nseg - 1 {
                    assert(cur[i2] == head_segs[i2]);
                    lemma_flat_count_nonneg(head_segs.subrange(0, i2), off, tv);
                    assert(flat_vertex_v(head_segs[i2], off, tv, j2) == flat_vertex_v(
                        cur[i2],
                        off,
                        tv,
                        j2,
                    ));
                    assert(flat_n_v(head_segs[i2], off, tv) == flat_n_v(cur[i2], off, tv));
                    let hidx = 1 + flat_count_v(head_segs.subrange(0, i2), off, tv) + j2;
                    assert(0 <= hidx < head_result.len());
                    assert(cur.subrange(0, i2) =~= head_segs.subrange(0, i2));
                    assert(result@[hidx] == pre_result[hidx]);
                    assert(pre_result[hidx] == head_result[hidx]);
                } else {
                    assert(i2 == nseg - 1);
                    assert(cur[i2] == es);
                    assert(cur.subrange(0, i2) =~= head_segs);
                    let idx = 1 + flat_count_v(head_segs, off, tv) + j2;
                    assert(idx == base + j2);
                    assert(((result@[base + j2]).x as int, result@[base + j2].y as int)
                        == flat_vertex_v(es, off, tv, j2));
                }
            }
            assert forall|i2: int|
                0 <= i2 < nseg implies {
                &&& flat_count_v(cur.subrange(0, i2), off, tv) >= 0
                &&& flat_count_v(cur.subrange(0, i2), off, tv) + #[trigger] flat_n_v(
                    cur[i2],
                    off,
                    tv,
                ) <= flat_count_v(cur, off, tv)
            } by {
                lemma_flat_count_split(cur, off, tv, i2);
            }
            assert forall|k: int| 0 <= k < result@.len() implies point_wf(
                #[trigger] result@[k],
            ) by {
                if k < base {
                    assert(result@[k] == pre_result[k]);
                    if head_segs.len() > 0 {
                        assert(pre_result[k] == head_result[k]);
                    }
                } else {
                    let jj = k - base;
                    assert(0 <= jj < flat_n_v(es, off, tv));
                    assert(((result@[base + jj]).x as int, result@[base + jj].y as int)
                        == flat_vertex_v(es, off, tv, jj));
                }
            }
            assert(flat_pts_ok(cur, result@, off, tv));
        }
        i = i + 1;
    }
    proof {
        assert(segs@.subrange(0, segs@.len() as int) =~= segs@);
    }
    result
}

/// Report whether one segment's flattening vertex estimate has reached
/// the cap: the polyline then carries exactly the cap for this segment
/// instead of the closed-form count, and the tolerance may not be met.
/// A caller that must honor the tolerance checks this and reports it.
pub fn flatten_count_saturated(es: &EulerSeg, offset: i128, tol: i128) -> (r: bool)
    requires
        euler_seg_wf(*es),
        fx_ok(offset),
        fx_ok(tol),
        tol > 0,
    ensures
        r == (crate::arc::ceil1_v(flat_nfrac_v(*es, offset as int, tol as int))
            >= FLAT_MAX_SUBDIV),
        r ==> flat_n_v(*es, offset as int, tol as int) == FLAT_MAX_SUBDIV,
        !r ==> flat_n_v(*es, offset as int, tol as int) == crate::arc::ceil1_v(
            flat_nfrac_v(*es, offset as int, tol as int),
        ),
{
    proof {
        reveal(flat_params_v);
    }
    let scale = es.p0.distance(&es.p1);
    let k0 = fxsub(es.params.k0, fxmul(FX_HALF, es.params.k1));
    let k1 = es.params.k1;
    let ds = fxdiv(offset, scale);
    let a = fxmul(fxmul(-FX_TWO, ds), k1);
    let b = fxsub(-FX_ONE, fxmul(fxmul(FX_TWO, ds), k0));
    let n_frac: i128 = if a == 0 {
        let k_start = fxabs(k0);
        let k_end = fxabs(fxadd(k0, k1));
        let kmax = if k_start >= k_end {
            k_start
        } else {
            k_end
        };
        let integrand = fxsqrt(fxabs(fxmul(kmax, fxadd(fxmul(kmax, fxabs(ds)), FX_ONE))));
        fxmul(fxmul(FX_HALF, fxsqrt(fxabs(fxdiv(scale, tol)))), integrand)
    } else {
        let int0 = espc_int_approx(b);
        let int1 = espc_int_approx(fxadd(a, b));
        let integral = fxsub(int1, int0);
        let k_peak = fxsub(k0, fxdiv(fxmul(k1, b), a));
        let integrand_peak = fxsqrt(fxabs(fxmul(k_peak, fxadd(fxmul(k_peak, ds), FX_ONE))));
        let scaled_int = fxdiv(fxmul(integral, integrand_peak), a);
        fxmul(fxmul(FX_HALF, fxsqrt(fxabs(fxdiv(scale, tol)))), scaled_int)
    };
    crate::arc::ceil_reaches(n_frac, FLAT_MAX_SUBDIV)
}

/// `post` is `pre` with one segment's flattening vertices appended:
/// the closed-form number of vertices, each at its inverse-mapped (or,
/// degenerately, uniform) parameter, and the existing entries untouched.
pub open spec fn flat_appended(
    es: EulerSeg,
    offset: int,
    tol: int,
    pre: Seq<Point>,
    post: Seq<Point>,
) -> bool {
    &&& post.len() == pre.len() + flat_n_v(es, offset, tol)
    &&& (forall|idx: int| 0 <= idx < pre.len() ==> post[idx] == #[trigger] pre[idx])
    &&& (forall|jj: int|
        #![trigger flat_vertex_v(es, offset, tol, jj)]
        0 <= jj < flat_n_v(es, offset, tol) ==> {
            &&& ((post[pre.len() + jj]).x as int, (post[pre.len() + jj]).y as int)
                == flat_vertex_v(es, offset, tol, jj)
            &&& point_wf(post[pre.len() + jj])
        })
}

/// Append one segment's flattening vertices to the polyline.
#[verifier::spinoff_prover]
#[verifier::rlimit(100)]
fn flatten_segment(result: &mut Vec<Point>, es: &EulerSeg, offset: i128, tol: i128)
    requires
        euler_seg_wf(*es),
        fx_ok(offset),
        fx_ok(tol),
        tol > 0,
    ensures
        flat_appended(*es, offset as int, tol as int, old(result)@, final(result)@),
{
    let scale = es.p0.distance(&es.p1);
    let k0 = fxsub(es.params.k0, fxmul(FX_HALF, es.params.k1));
    let k1 = es.params.k1;
    let ds = fxdiv(offset, scale);
    let a = fxmul(fxmul(-FX_TWO, ds), k1);
    let b = fxsub(-FX_ONE, fxmul(fxmul(FX_TWO, ds), k0));
    let (int0, integral, n): (i128, i128, u64) = if a == 0 {
        let k_start = fxabs(k0);
        let k_end = fxabs(fxadd(k0, k1));
        let kmax = if k_start >= k_end {
            k_start
        } else {
            k_end
        };
        let integrand = fxsqrt(fxabs(fxmul(kmax, fxadd(fxmul(kmax, fxabs(ds)), FX_ONE))));
        let n_frac = fxmul(fxmul(FX_HALF, fxsqrt(fxabs(fxdiv(scale, tol)))), integrand);
        (0, 0, crate::arc::ceil_clamp(n_frac, FLAT_MAX_SUBDIV))
    } else {
        let int0 = espc_int_approx(b);
        let int1 = espc_int_approx(fxadd(a, b));
        let integral = fxsub(int1, int0);
        let k_peak = fxsub(k0, fxdiv(fxmul(k1, b), a));
        let integrand_peak = fxsqrt(fxabs(fxmul(k_peak, fxadd(fxmul(k_peak, ds), FX_ONE))));
        let scaled_int = fxdiv(fxmul(integral, integrand_peak), a);
        let n_frac = fxmul(fxmul(FX_HALF, fxsqrt(fxabs(fxdiv(scale, tol)))), scaled_int);
        (int0, integral, crate::arc::ceil_clamp(n_frac, FLAT_MAX_SUBDIV))
    };
    proof {
        reveal(flat_params_v);
        assert(flat_params_v(*es, offset as int, tol as int) == (
            if a == 0 {
                0int
            } else {
                a as int
            },
            b as int,
            int0 as int,
            integral as int,
            n as int,
        ));
        assert(a == 0 ==> flat_params_v(*es, offset as int, tol as int).0 == 0);
        assert(a != 0 ==> flat_params_v(*es, offset as int, tol as int).0 == a as int);
    }
    let ghost base = result@.len() as int;
    let ghost pre_result = result@;
    let n_fx = (n as i128) * FX_ONE;
    let mut j: u64 = 0;
    while j < n
        invariant
            euler_seg_wf(*es),
            fx_ok(offset),
            fx_ok(tol),
            tol > 0,
            0 <= j <= n,
            n_fx == n * FX_ONE,
            n <= FLAT_MAX_SUBDIV,
            fx_ok(a),
            fx_ok(b),
            fx_ok(int0),
            fx_ok(integral),
            flat_params_v(*es, offset as int, tol as int) == (
                if a == 0 {
                    0int
                } else {
                    a as int
                },
                b as int,
                int0 as int,
                integral as int,
                n as int,
            ),
            pre_result.len() == base,
            pre_result == old(result)@,
            result@.len() == base + j,
            forall|idx: int| 0 <= idx < base ==> result@[idx] == #[trigger] pre_result[idx],
            forall|jj: int|
                #![trigger flat_vertex_v(*es, offset as int, tol as int, jj)]
                0 <= jj < j ==> {
                    &&& ((result@[base + jj]).x as int, result@[base + jj].y as int)
                        == flat_vertex_v(*es, offset as int, tol as int, jj)
                    &&& point_wf(result@[base + jj])
                },
        decreases n - j,
    {
        let t = fxdiv((j as i128 + 1) * FX_ONE, n_fx);
        let s = if a == 0 {
            t
        } else {
            let inv = espc_int_inv_approx(fxadd(fxmul(integral, t), int0));
            fxdiv(fxsub(inv, b), a)
        };
        let p = es.eval_with_offset(s, offset);
        result.push(p);
        j = j + 1;
    }
    proof {
        assert(base == old(result)@.len());
        assert(flat_appended(*es, offset as int, tol as int, pre_result, result@));
    }
}

} // verus!
