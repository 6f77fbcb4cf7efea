//! Euler-spiral parameters and segments.
//!
//! A [`CubicParams`] describes a cubic segment relative to its own chord:
//! two boundary tangent angles and two normalized tangent magnitudes.  An
//! [`EulerParams`] holds the spiral's intrinsic shape: boundary angles,
//! curvature coefficients `k0` (constant term) and `k1` (linear term), and
//! the chord-length scaling factor `ch`.  An [`EulerSeg`] places such a
//! spiral between two world-space endpoints.

use crate::FitError;
use crate::fixed::FX_HALF;
use crate::fixed::FX_ONE;
use crate::fixed::fx_ok;
use crate::fixed::fxabs;
use crate::fixed::fxabs_v;
use crate::fixed::fxadd;
use crate::fixed::fxadd_v;
use crate::fixed::fxdiv;
use crate::fixed::fxdiv_v;
use crate::fixed::fxhypot;
use crate::fixed::fxmul;
use crate::fixed::fxmul_v;
use crate::fixed::fxsub;
use crate::fixed::fxsub_v;
use crate::geom::CubicBez;
use crate::geom::Point;
use crate::geom::Vec2;
use crate::geom::cross2_v;
use crate::geom::cubic_wf;
use crate::geom::dot2_v;
use crate::geom::fxcross2;
use crate::geom::fxdot2;
use crate::geom::len2_v;
use crate::geom::point_wf;
use crate::geom::vec2_wf;
use crate::trig::fxatan2;
use crate::trig::fxatan2_v;
use crate::trig::fxcos;
use crate::trig::fxcos_v;
use crate::trig::fxsin;
use crate::trig::fxsin_v;
use vstd::prelude::*;

verus! {

/// Local shape descriptor of a cubic segment relative to its chord.
#[derive(Clone, Copy, PartialEq, Eq, Structural, Debug)]
pub struct CubicParams {
    /// Signed boundary tangent angle at the start, measured from the chord.
    pub th0: i128,
    /// Signed boundary tangent angle at the end, measured from the chord.
    pub th1: i128,
    /// Normalized tangent magnitude at the start.
    pub d0: i128,
    /// Normalized tangent magnitude at the end.
    pub d1: i128,
}

/// Intrinsic shape of an Euler-spiral segment.
#[derive(Clone, Copy, PartialEq, Eq, Structural, Debug)]
pub struct EulerParams {
    /// Boundary tangent angle at the start.
    pub th0: i128,
    /// Boundary tangent angle at the end.
    pub th1: i128,
    /// Constant curvature coefficient.
    pub k0: i128,
    /// Linear curvature coefficient: curvature varies linearly in arc length.
    pub k1: i128,
    /// Chord-length scaling factor from normalized spiral length.
    pub ch: i128,
}

/// One accepted piece of an approximation: a spiral between two endpoints.
#[derive(Clone, Copy, PartialEq, Eq, Structural, Debug)]
pub struct EulerSeg {
    /// World-space start point.
    pub p0: Point,
    /// World-space end point.
    pub p1: Point,
    /// The spiral's intrinsic parameters.
    pub params: EulerParams,
}

/// Well-formedness of cubic parameters.
pub open spec fn cubic_params_wf(cp: CubicParams) -> bool {
    fx_ok(cp.th0) && fx_ok(cp.th1) && fx_ok(cp.d0) && fx_ok(cp.d1)
}

/// Well-formedness of spiral parameters.
pub open spec fn euler_params_wf(ep: EulerParams) -> bool {
    fx_ok(ep.th0) && fx_ok(ep.th1) && fx_ok(ep.k0) && fx_ok(ep.k1) && fx_ok(ep.ch)
}

/// Well-formedness of a spiral segment.
pub open spec fn euler_seg_wf(es: EulerSeg) -> bool {
    point_wf(es.p0) && point_wf(es.p1) && euler_params_wf(es.params)
}

/// Smallest admitted squared chord length; a shorter chord leaves the
/// local frame undefined and is reported as an invalid argument.
pub const MIN_CHORD2: i128 = 281;

/// Squared chord length used by the degenerate-chord guard.
pub open spec fn chord2_of_v(p0x: int, p0y: int, p1x: int, p1y: int) -> int {
    let cx = fxsub_v(p1x, p0x);
    let cy = fxsub_v(p1y, p0y);
    dot2_v(cx, cy, cx, cy)
}

/// Shape parameters derived from endpoint samples and derivatives:
/// `(th0, th1, d0, d1)`.
#[verifier::opaque]
pub open spec fn cubic_params_from_points_derivs_v(
    p0: Vec2,
    p1: Vec2,
    q0: Vec2,
    q1: Vec2,
    dt: int,
) -> (int, int, int, int) {
    let cx = fxsub_v(p1.x as int, p0.x as int);
    let cy = fxsub_v(p1.y as int, p0.y as int);
    let chord2 = dot2_v(cx, cy, cx, cy);
    let scale = fxdiv_v(dt, chord2);
    let h0x = dot2_v(q0.x as int, q0.y as int, cx, cy);
    let h0y = cross2_v(cx, cy, q0.x as int, q0.y as int);
    let h1x = dot2_v(q1.x as int, q1.y as int, cx, cy);
    let h1y = cross2_v(q1.x as int, q1.y as int, cx, cy);
    (
        fxatan2_v(h0y, h0x),
        fxatan2_v(h1y, h1x),
        fxmul_v(len2_v(h0x, h0y), scale),
        fxmul_v(len2_v(h1x, h1y), scale),
    )
}

/// Shape parameters derived from a cubic's control points:
/// `(th0, th1, d0, d1)`.
#[verifier::opaque]
pub open spec fn cubic_params_from_cubic_v(c: CubicBez) -> (int, int, int, int) {
    let cx = fxsub_v(c.p3.x as int, c.p0.x as int);
    let cy = fxsub_v(c.p3.y as int, c.p0.y as int);
    let chord2 = dot2_v(cx, cy, cx, cy);
    let d01x = fxsub_v(c.p1.x as int, c.p0.x as int);
    let d01y = fxsub_v(c.p1.y as int, c.p0.y as int);
    let h0x = dot2_v(d01x, d01y, cx, cy);
    let h0y = cross2_v(cx, cy, d01x, d01y);
    let d23x = fxsub_v(c.p3.x as int, c.p2.x as int);
    let d23y = fxsub_v(c.p3.y as int, c.p2.y as int);
    let h1x = dot2_v(d23x, d23y, cx, cy);
    let h1y = cross2_v(d23x, d23y, cx, cy);
    (
        fxatan2_v(h0y, h0x),
        fxatan2_v(h1y, h1x),
        fxdiv_v(len2_v(h0x, h0y), chord2),
        fxdiv_v(len2_v(h1x, h1y), chord2),
    )
}

/// Two thirds.
pub const FX_TWO_THIRDS: i128 = 187649984473770;

/// Error-model weight 0.15 on the amplitude terms.
pub const ERR_W_A: i128 = 42221246506598;

/// Error-model coefficient 3.7e-6 on the fifth power of the angle sum.
pub const ERR_CTR5: i128 = 1041457413;

/// Error-model coefficient 6e-3 on the asymmetry cross term.
pub const ERR_CTR2: i128 = 1688849860263;

/// Error-model halo weight 5e-3 on the symmetric component.
pub const ERR_HALO_SYMM: i128 = 1407374883553;

/// Error-model halo weight 7e-2 on the asymmetric component.
pub const ERR_HALO_ASYMM: i128 = 19703248369745;

/// Error-model weight 1.25 on the central polynomial term.
pub const ERR_W_CTR: i128 = 351843720888320;

/// Error-model weight 1.55 on the amplitude-mismatch term.
pub const ERR_W_AERR: i128 = 436286213901516;

/// Fixed error reported for a near-180° u-turn (a cusp or near-cusp),
/// where further subdivision cannot reduce the angle spread.
pub const ERR_CUSP: i128 = 0x2_0000_0000_0000;

/// Estimated error, normalized to the chord, of fitting one Euler-spiral
/// segment to a cubic with the given shape parameters.
#[verifier::opaque]
pub open spec fn est_euler_err_v(th0: int, th1: int, d0: int, d1: int) -> int {
    let cth0 = fxcos_v(th0);
    let cth1 = fxcos_v(th1);
    if fxmul_v(cth0, cth1) < 0 {
        ERR_CUSP as int
    } else {
        let e0 = fxdiv_v(FX_TWO_THIRDS as int, fxadd_v(FX_ONE as int, cth0));
        let e1 = fxdiv_v(FX_TWO_THIRDS as int, fxadd_v(FX_ONE as int, cth1));
        let s0 = fxsin_v(th0);
        let s1 = fxsin_v(th1);
        let s01 = fxadd_v(fxmul_v(cth0, s1), fxmul_v(cth1, s0));
        let amin = fxmul_v(
            ERR_W_A as int,
            fxsub_v(
                fxadd_v(
                    fxadd_v(fxmul_v(e0, s0), fxmul_v(e0, s0)),
                    fxadd_v(fxmul_v(e1, s1), fxmul_v(e1, s1)),
                ),
                fxmul_v(fxmul_v(e0, e1), s01),
            ),
        );
        let a = fxmul_v(
            ERR_W_A as int,
            fxsub_v(
                fxadd_v(
                    fxadd_v(fxmul_v(d0, s0), fxmul_v(d0, s0)),
                    fxadd_v(fxmul_v(d1, s1), fxmul_v(d1, s1)),
                ),
                fxmul_v(fxmul_v(d0, d1), s01),
            ),
        );
        let aerr = fxabs_v(fxsub_v(a, amin));
        let symm = fxabs_v(fxadd_v(th0, th1));
        let asymm = fxabs_v(fxsub_v(th0, th1));
        let dist = len2_v(fxsub_v(d0, e0), fxsub_v(d1, e1));
        let symm2 = fxmul_v(symm, symm);
        let symm5 = fxmul_v(fxmul_v(symm2, symm2), symm);
        let ctr = fxadd_v(
            fxmul_v(ERR_CTR5 as int, symm5),
            fxmul_v(ERR_CTR2 as int, fxmul_v(asymm, symm2)),
        );
        let halo_symm = fxmul_v(ERR_HALO_SYMM as int, fxmul_v(symm, dist));
        let halo_asymm = fxmul_v(ERR_HALO_ASYMM as int, fxmul_v(asymm, dist));
        fxadd_v(
            fxadd_v(
                fxadd_v(fxmul_v(ERR_W_CTR as int, ctr), fxmul_v(ERR_W_AERR as int, aerr)),
                halo_symm,
            ),
            halo_asymm,
        )
    }
}

impl CubicParams {
    /// Derive shape parameters from two endpoint samples, their (scaled)
    /// derivatives, and the elapsed parameter width.
    ///
    /// A chord shorter than the degenerate-chord guard admits no local
    /// frame and is reported as an invalid argument.
    pub fn from_points_derivs(
        p0: Vec2,
        p1: Vec2,
        q0: Vec2,
        q1: Vec2,
        dt: i128,
    ) -> (r: Result<CubicParams, FitError>)
        requires
            vec2_wf(p0),
            vec2_wf(p1),
            vec2_wf(q0),
            vec2_wf(q1),
            fx_ok(dt),
        ensures
            match r {
                Ok(cp) => {
                    &&& cubic_params_wf(cp)
                    &&& chord2_of_v(p0.x as int, p0.y as int, p1.x as int, p1.y as int)
                        >= MIN_CHORD2
                    &&& (cp.th0 as int, cp.th1 as int, cp.d0 as int, cp.d1 as int)
                        == cubic_params_from_points_derivs_v(p0, p1, q0, q1, dt as int)
                },
                Err(e) => {
                    &&& e == FitError::InvalidArgument
                    &&& chord2_of_v(p0.x as int, p0.y as int, p1.x as int, p1.y as int)
                        < MIN_CHORD2
                },
            },
    {
        proof {
            reveal(cubic_params_from_points_derivs_v);
            reveal(len2_v);
        }
        let chord = p1.minus(&p0);
        let chord2 = fxdot2(chord.x, chord.y, chord.x, chord.y);
        if chord2 < MIN_CHORD2 {
            return Err(FitError::InvalidArgument);
        }
        let scale = fxdiv(dt, chord2);
        let h0x = fxdot2(q0.x, q0.y, chord.x, chord.y);
        let h0y = fxcross2(chord.x, chord.y, q0.x, q0.y);
        let th0 = fxatan2(h0y, h0x);
        let d0 = fxmul(fxhypot(h0x, h0y), scale);
        let h1x = fxdot2(q1.x, q1.y, chord.x, chord.y);
        let h1y = fxcross2(q1.x, q1.y, chord.x, chord.y);
        let th1 = fxatan2(h1y, h1x);
        let d1 = fxmul(fxhypot(h1x, h1y), scale);
        Ok(CubicParams { th0, th1, d0, d1 })
    }

    /// Derive shape parameters directly from a cubic's control points.
    ///
    /// A chord shorter than the degenerate-chord guard is reported as an
    /// invalid argument.
    pub fn from_cubic(c: CubicBez) -> (r: Result<CubicParams, FitError>)
        requires
            cubic_wf(c),
        ensures
            match r {
                Ok(cp) => {
                    &&& cubic_params_wf(cp)
                    &&& chord2_of_v(c.p0.x as int, c.p0.y as int, c.p3.x as int, c.p3.y as int)
                        >= MIN_CHORD2
                    &&& (cp.th0 as int, cp.th1 as int, cp.d0 as int, cp.d1 as int)
                        == cubic_params_from_cubic_v(c)
                },
                Err(e) => {
                    &&& e == FitError::InvalidArgument
                    &&& chord2_of_v(c.p0.x as int, c.p0.y as int, c.p3.x as int, c.p3.y as int)
                        < MIN_CHORD2
                },
            },
    {
        proof {
            reveal(cubic_params_from_cubic_v);
            reveal(len2_v);
        }
        let chord = c.p3.minus(&c.p0);
        let chord2 = fxdot2(chord.x, chord.y, chord.x, chord.y);
        if chord2 < MIN_CHORD2 {
            return Err(FitError::InvalidArgument);
        }
        let d01 = c.p1.minus(&c.p0);
        let h0x = fxdot2(d01.x, d01.y, chord.x, chord.y);
        let h0y = fxcross2(chord.x, chord.y, d01.x, d01.y);
        let th0 = fxatan2(h0y, h0x);
        let d0 = fxdiv(fxhypot(h0x, h0y), chord2);
        let d23 = c.p3.minus(&c.p2);
        let h1x = fxdot2(d23.x, d23.y, chord.x, chord.y);
        let h1y = fxcross2(d23.x, d23.y, chord.x, chord.y);
        let th1 = fxatan2(h1y, h1x);
        let d1 = fxdiv(fxhypot(h1x, h1y), chord2);
        Ok(CubicParams { th0, th1, d0, d1 })
    }

    /// Estimated error, normalized to the chord, of fitting one
    /// Euler-spiral segment to these parameters.  Multiply by the chord
    /// length to obtain the absolute error.
    pub fn est_euler_err(&self) -> (r: i128)
        requires
            cubic_params_wf(*self),
        ensures
            fx_ok(r),
            r == est_euler_err_v(
                self.th0 as int,
                self.th1 as int,
                self.d0 as int,
                self.d1 as int,
            ),
    {
        proof {
            reveal(est_euler_err_v);
            reveal(len2_v);
        }
        let cth0 = fxcos(self.th0);
        let cth1 = fxcos(self.th1);
        if fxmul(cth0, cth1) < 0 {
            return ERR_CUSP;
        }
        let e0 = fxdiv(FX_TWO_THIRDS, fxadd(FX_ONE, cth0));
        let e1 = fxdiv(FX_TWO_THIRDS, fxadd(FX_ONE, cth1));
        let s0 = fxsin(self.th0);
        let s1 = fxsin(self.th1);
        let s01 = fxadd(fxmul(cth0, s1), fxmul(cth1, s0));
        let amin = fxmul(
            ERR_W_A,
            fxsub(
                fxadd(
                    fxadd(fxmul(e0, s0), fxmul(e0, s0)),
                    fxadd(fxmul(e1, s1), fxmul(e1, s1)),
                ),
                fxmul(fxmul(e0, e1), s01),
            ),
        );
        let a = fxmul(
            ERR_W_A,
            fxsub(
                fxadd(
                    fxadd(fxmul(self.d0, s0), fxmul(self.d0, s0)),
                    fxadd(fxmul(self.d1, s1), fxmul(self.d1, s1)),
                ),
                fxmul(fxmul(self.d0, self.d1), s01),
            ),
        );
        let aerr = fxabs(fxsub(a, amin));
        let symm = fxabs(fxadd(self.th0, self.th1));
        let asymm = fxabs(fxsub(self.th0, self.th1));
        let dist = fxhypot(fxsub(self.d0, e0), fxsub(self.d1, e1));
        let symm2 = fxmul(symm, symm);
        let symm5 = fxmul(fxmul(symm2, symm2), symm);
        let ctr = fxadd(fxmul(ERR_CTR5, symm5), fxmul(ERR_CTR2, fxmul(asymm, symm2)));
        let halo_symm = fxmul(ERR_HALO_SYMM, fxmul(symm, dist));
        let halo_asymm = fxmul(ERR_HALO_ASYMM, fxmul(asymm, dist));
        fxadd(
            fxadd(fxadd(fxmul(ERR_W_CTR, ctr), fxmul(ERR_W_AERR, aerr)), halo_symm),
            halo_asymm,
        )
    }
}

/// With both boundary angles exactly zero the estimated fitting error
/// vanishes, whatever the tangent-magnitude parameters: a straight
/// chord is fitted exactly.
pub proof fn lemma_est_err_straight(d0: int, d1: int)
    ensures
        est_euler_err_v(0, 0, d0, d1) == 0,
{
    reveal(est_euler_err_v);
    crate::trig::lemma_fxsin_zero();
    let cth0 = fxcos_v(0);
    assert(fxmul_v(cth0, cth0) >= 0) by {
        crate::fixed::lemma_fxmul_square_nonneg(cth0);
    }
    assert forall|z: int|
        #![trigger fxmul_v(0, z)]
        #![trigger fxmul_v(z, 0)]
        fxmul_v(0, z) == 0 && fxmul_v(z, 0) == 0 by {
        crate::fixed::lemma_fxmul_zero(z);
    }
    assert(fxsin_v(0) == 0);
    assert(fxabs_v(fxsub_v(0, 0)) == 0);
    assert(fxabs_v(fxadd_v(0, 0)) == 0);
}

/// Six, the leading coefficient of the linear-curvature series.
pub const K1_A0: i128 = 1688849860263936;

/// Series coefficient 1/70.
pub const K1_C70: i128 = 4021071095866;

/// Series coefficient 1/10780.
pub const K1_C10780: i128 = 26110851271;

/// Series coefficient 2.769178184818219e-7.
pub const K1_C3: i128 = 77945436;

/// Series coefficient 0.1 (entering negated).
pub const K1_B0: i128 = 28147497671065;

/// Series coefficient 1/4200.
pub const K1_B1: i128 = 67017851597;

/// Series coefficient 1.6959677820260655e-5.
pub const K1_B2: i128 = 4773724919;

/// Series coefficient 1/1400 (entering negated).
pub const K1_CC0: i128 = 201053554793;

/// Series coefficient 6.84915970574303e-5.
pub const K1_CC1: i128 = 19278670686;

/// Series coefficient 7.936475029053326e-6.
pub const K1_CC2: i128 = 2233919123;

/// Chord-series coefficient 1/40.
pub const CH_C40: i128 = 7036874417766;

/// Chord-series coefficient 3.4226190482569864e-4.
pub const CH_C2: i128 = 96338161689;

/// Chord-series coefficient 1.9349474568904524e-6.
pub const CH_C3: i128 = 544639290;

/// Chord-series coefficient 1/24 (entering negated).
pub const CH_B0: i128 = 11728124029610;

/// Chord-series coefficient 2.4702380951963226e-3.
pub const CH_B1: i128 = 695310210315;

/// Chord-series coefficient 3.7297408997537985e-5.
pub const CH_B2: i128 = 10498287328;

/// Chord-series coefficient 1/1920.
pub const CH_CC0: i128 = 146601550370;

/// Chord-series coefficient 4.87350869747975e-5.
pub const CH_CC1: i128 = 13717707471;

/// Chord-series coefficient 3.1001936068463107e-6.
pub const CH_CC2: i128 = 872626923;

/// With both boundary angles exactly zero the spiral parameters are
/// those of a straight chord: both curvature coefficients vanish and the
/// chord scaling factor is exactly one.
pub proof fn lemma_euler_params_straight()
    ensures
        fxadd_v(0, 0) == 0,
        ep_k1_v(0, 0) == 0,
        ep_ch_v(0, 0) == FX_ONE,
{
    reveal(ep_k1_v);
    reveal(ep_ch_v);
    assert forall|z: int|
        #![trigger fxmul_v(0, z)]
        #![trigger fxmul_v(z, 0)]
        fxmul_v(0, z) == 0 && fxmul_v(z, 0) == 0 by {
        crate::fixed::lemma_fxmul_zero(z);
    }
}

/// Linear curvature coefficient of the spiral with the given boundary
/// angles, by the closed-form series.
#[verifier::opaque]
pub open spec fn ep_k1_v(th0: int, th1: int) -> int {
    let k0 = fxadd_v(th0, th1);
    let dth = fxsub_v(th1, th0);
    let d2 = fxmul_v(dth, dth);
    let k2 = fxmul_v(k0, k0);
    let a0 = fxadd_v(
        fxsub_v(fxsub_v(K1_A0 as int, fxmul_v(d2, K1_C70 as int)), fxmul_v(
            fxmul_v(d2, d2),
            K1_C10780 as int,
        )),
        fxmul_v(fxmul_v(fxmul_v(d2, d2), d2), K1_C3 as int),
    );
    let b = fxadd_v(
        fxadd_v(-(K1_B0 as int), fxmul_v(d2, K1_B1 as int)),
        fxmul_v(fxmul_v(d2, d2), K1_B2 as int),
    );
    let c = fxsub_v(
        fxadd_v(-(K1_CC0 as int), fxmul_v(d2, K1_CC1 as int)),
        fxmul_v(k2, K1_CC2 as int),
    );
    let a = fxadd_v(a0, fxmul_v(fxadd_v(b, fxmul_v(c, k2)), k2));
    fxmul_v(dth, a)
}

/// Chord-length scaling factor of the spiral with the given boundary
/// angles, by the closed-form series.
#[verifier::opaque]
pub open spec fn ep_ch_v(th0: int, th1: int) -> int {
    let k0 = fxadd_v(th0, th1);
    let dth = fxsub_v(th1, th0);
    let d2 = fxmul_v(dth, dth);
    let k2 = fxmul_v(k0, k0);
    let ch0 = fxsub_v(
        fxadd_v(fxsub_v(FX_ONE as int, fxmul_v(d2, CH_C40 as int)), fxmul_v(
            fxmul_v(d2, d2),
            CH_C2 as int,
        )),
        fxmul_v(fxmul_v(fxmul_v(d2, d2), d2), CH_C3 as int),
    );
    let b = fxsub_v(
        fxadd_v(-(CH_B0 as int), fxmul_v(d2, CH_B1 as int)),
        fxmul_v(fxmul_v(d2, d2), CH_B2 as int),
    );
    let c = fxsub_v(
        fxsub_v(CH_CC0 as int, fxmul_v(d2, CH_CC1 as int)),
        fxmul_v(k2, CH_CC2 as int),
    );
    fxadd_v(ch0, fxmul_v(fxadd_v(b, fxmul_v(c, k2)), k2))
}

/// What the spiral's tangent angle is at normalized parameter `t`.
#[verifier::opaque]
pub open spec fn eval_th_v(ep: EulerParams, t: int) -> int {
    fxsub_v(
        fxmul_v(
            fxadd_v(
                ep.k0 as int,
                fxmul_v(fxmul_v(FX_HALF as int, ep.k1 as int), fxsub_v(t, FX_ONE as int)),
            ),
            t,
        ),
        ep.th0 as int,
    )
}

impl EulerParams {
    /// Compute spiral parameters for the given boundary tangent angles by
    /// the closed-form polynomial series.  `k0` is exactly the angle sum.
    pub fn from_angles(th0: i128, th1: i128) -> (ep: EulerParams)
        requires
            fx_ok(th0),
            fx_ok(th1),
        ensures
            euler_params_wf(ep),
            ep.th0 == th0,
            ep.th1 == th1,
            ep.k0 == fxadd_v(th0 as int, th1 as int),
            ep.k1 == ep_k1_v(th0 as int, th1 as int),
            ep.ch == ep_ch_v(th0 as int, th1 as int),
    {
        proof {
            reveal(ep_k1_v);
            reveal(ep_ch_v);
        }
        let k0 = fxadd(th0, th1);
        let dth = fxsub(th1, th0);
        let d2 = fxmul(dth, dth);
        let k2 = fxmul(k0, k0);
        let a0 = fxadd(
            fxsub(fxsub(K1_A0, fxmul(d2, K1_C70)), fxmul(fxmul(d2, d2), K1_C10780)),
            fxmul(fxmul(fxmul(d2, d2), d2), K1_C3),
        );
        let b = fxadd(fxadd(-K1_B0, fxmul(d2, K1_B1)), fxmul(fxmul(d2, d2), K1_B2));
        let c = fxsub(fxadd(-K1_CC0, fxmul(d2, K1_CC1)), fxmul(k2, K1_CC2));
        let a = fxadd(a0, fxmul(fxadd(b, fxmul(c, k2)), k2));
        let k1 = fxmul(dth, a);
        let ch0 = fxsub(
            fxadd(fxsub(FX_ONE, fxmul(d2, CH_C40)), fxmul(fxmul(d2, d2), CH_C2)),
            fxmul(fxmul(fxmul(d2, d2), d2), CH_C3),
        );
        let cb = fxsub(fxadd(-CH_B0, fxmul(d2, CH_B1)), fxmul(fxmul(d2, d2), CH_B2));
        let cc = fxsub(fxsub(CH_CC0, fxmul(d2, CH_CC1)), fxmul(k2, CH_CC2));
        let ch = fxadd(ch0, fxmul(fxadd(cb, fxmul(cc, k2)), k2));
        EulerParams { th0, th1, k0, k1, ch }
    }

    /// Tangent angle of the spiral at normalized parameter `t`.
    pub fn eval_th(&self, t: i128) -> (r: i128)
        requires
            euler_params_wf(*self),
            fx_ok(t),
        ensures
            fx_ok(r),
            r == eval_th_v(*self, t as int),
    {
        proof {
            reveal(eval_th_v);
        }
        fxsub(
            fxmul(fxadd(self.k0, fxmul(fxmul(FX_HALF, self.k1), fxsub(t, FX_ONE))), t),
            self.th0,
        )
    }

    /// Whether a rendering as a single cubic is adequate: both boundary
    /// angles below one radian in magnitude.
    pub fn cubic_ok(&self) -> (r: bool)
        requires
            euler_params_wf(*self),
        ensures
            r == (fxabs_v(self.th0 as int) < FX_ONE && fxabs_v(self.th1 as int) < FX_ONE),
    {
        let a0 = fxabs(self.th0);
        let a1 = fxabs(self.th1);
        a0 < FX_ONE && a1 < FX_ONE
    }
}

/// Quadrature coefficient 1/24.
pub const IE_24: i128 = 11728124029610;

/// Quadrature coefficient 1/160.
pub const IE_160: i128 = 1759218604441;

/// Quadrature coefficient 1/1920.
pub const IE_1920: i128 = 146601550370;

/// Quadrature coefficient 1/10752.
pub const IE_10752: i128 = 26178848280;

/// Quadrature coefficient 1/55296.
pub const IE_55296: i128 = 5090331610;

/// Quadrature coefficient 1/322560.
pub const IE_322560: i128 = 872628276;

/// Quadrature coefficient 1/1658880.
pub const IE_1658880: i128 = 169677720;

/// Quadrature coefficient 1/92897280.
pub const IE_92897280: i128 = 3029959;

/// Quadrature coefficient 1/12.
pub const IE_12: i128 = 23456248059221;

/// Quadrature coefficient 1/480.
pub const IE_480: i128 = 586406201480;

/// Quadrature coefficient 1/2688.
pub const IE_2688: i128 = 104715393121;

/// Quadrature coefficient 1/53760.
pub const IE_53760: i128 = 5235769656;

/// Quadrature coefficient 1/276480.
pub const IE_276480: i128 = 1018066322;

/// Quadrature coefficient 1/11612160.
pub const IE_11612160: i128 = 24239674;

/// Tenth-order power-series quadrature of the normalized Euler spiral:
/// the integral `(u, v)` of `(cos, sin)` of the tangent-angle polynomial.
#[verifier::opaque]
pub open spec fn integ_euler_10_v(k0: int, k1: int) -> (int, int) {
    let t1_1 = k0;
    let t1_2 = fxmul_v(FX_HALF as int, k1);
    let t2_2 = fxmul_v(t1_1, t1_1);
    let t2_3 = fxadd_v(fxmul_v(t1_1, t1_2), fxmul_v(t1_1, t1_2));
    let t2_4 = fxmul_v(t1_2, t1_2);
    let t3_4 = fxadd_v(fxmul_v(t2_2, t1_2), fxmul_v(t2_3, t1_1));
    let t3_6 = fxmul_v(t2_4, t1_2);
    let t4_4 = fxmul_v(t2_2, t2_2);
    let t4_5 = fxadd_v(fxmul_v(t2_2, t2_3), fxmul_v(t2_2, t2_3));
    let t4_6 = fxadd_v(
        fxadd_v(fxmul_v(t2_2, t2_4), fxmul_v(t2_2, t2_4)),
        fxmul_v(t2_3, t2_3),
    );
    let t4_7 = fxadd_v(fxmul_v(t2_3, t2_4), fxmul_v(t2_3, t2_4));
    let t4_8 = fxmul_v(t2_4, t2_4);
    let t5_6 = fxadd_v(fxmul_v(t4_4, t1_2), fxmul_v(t4_5, t1_1));
    let t5_8 = fxadd_v(fxmul_v(t4_6, t1_2), fxmul_v(t4_7, t1_1));
    let t6_6 = fxmul_v(t4_4, t2_2);
    let t6_7 = fxadd_v(fxmul_v(t4_4, t2_3), fxmul_v(t4_5, t2_2));
    let t6_8 = fxadd_v(
        fxadd_v(fxmul_v(t4_4, t2_4), fxmul_v(t4_5, t2_3)),
        fxmul_v(t4_6, t2_2),
    );
    let t7_8 = fxadd_v(fxmul_v(t6_6, t1_2), fxmul_v(t6_7, t1_1));
    let t8_8 = fxmul_v(t6_6, t2_2);
    let u = fxsub_v(
        FX_ONE as int,
        fxadd_v(fxmul_v(IE_24 as int, t2_2), fxmul_v(IE_160 as int, t2_4)),
    );
    let u = fxadd_v(
        u,
        fxadd_v(
            fxadd_v(fxmul_v(IE_1920 as int, t4_4), fxmul_v(IE_10752 as int, t4_6)),
            fxmul_v(IE_55296 as int, t4_8),
        ),
    );
    let u = fxsub_v(
        u,
        fxadd_v(fxmul_v(IE_322560 as int, t6_6), fxmul_v(IE_1658880 as int, t6_8)),
    );
    let u = fxadd_v(u, fxmul_v(IE_92897280 as int, t8_8));
    let v = fxmul_v(IE_12 as int, t1_2);
    let v = fxsub_v(
        v,
        fxadd_v(fxmul_v(IE_480 as int, t3_4), fxmul_v(IE_2688 as int, t3_6)),
    );
    let v = fxadd_v(
        v,
        fxadd_v(fxmul_v(IE_53760 as int, t5_6), fxmul_v(IE_276480 as int, t5_8)),
    );
    let v = fxsub_v(v, fxmul_v(IE_11612160 as int, t7_8));
    (u, v)
}

/// Tenth-order power-series quadrature of the normalized Euler spiral.
pub fn integ_euler_10(k0: i128, k1: i128) -> (r: (i128, i128))
    requires
        fx_ok(k0),
        fx_ok(k1),
    ensures
        fx_ok(r.0),
        fx_ok(r.1),
        (r.0 as int, r.1 as int) == integ_euler_10_v(k0 as int, k1 as int),
{
    proof {
        reveal(integ_euler_10_v);
    }
    let t1_1 = k0;
    let t1_2 = fxmul(FX_HALF, k1);
    let t2_2 = fxmul(t1_1, t1_1);
    let t2_3 = fxadd(fxmul(t1_1, t1_2), fxmul(t1_1, t1_2));
    let t2_4 = fxmul(t1_2, t1_2);
    let t3_4 = fxadd(fxmul(t2_2, t1_2), fxmul(t2_3, t1_1));
    let t3_6 = fxmul(t2_4, t1_2);
    let t4_4 = fxmul(t2_2, t2_2);
    let t4_5 = fxadd(fxmul(t2_2, t2_3), fxmul(t2_2, t2_3));
    let t4_6 = fxadd(fxadd(fxmul(t2_2, t2_4), fxmul(t2_2, t2_4)), fxmul(t2_3, t2_3));
    let t4_7 = fxadd(fxmul(t2_3, t2_4), fxmul(t2_3, t2_4));
    let t4_8 = fxmul(t2_4, t2_4);
    let t5_6 = fxadd(fxmul(t4_4, t1_2), fxmul(t4_5, t1_1));
    let t5_8 = fxadd(fxmul(t4_6, t1_2), fxmul(t4_7, t1_1));
    let t6_6 = fxmul(t4_4, t2_2);
    let t6_7 = fxadd(fxmul(t4_4, t2_3), fxmul(t4_5, t2_2));
    let t6_8 = fxadd(fxadd(fxmul(t4_4, t2_4), fxmul(t4_5, t2_3)), fxmul(t4_6, t2_2));
    let t7_8 = fxadd(fxmul(t6_6, t1_2), fxmul(t6_7, t1_1));
    let t8_8 = fxmul(t6_6, t2_2);
    let u = fxsub(FX_ONE, fxadd(fxmul(IE_24, t2_2), fxmul(IE_160, t2_4)));
    let u = fxadd(
        u,
        fxadd(fxadd(fxmul(IE_1920, t4_4), fxmul(IE_10752, t4_6)), fxmul(IE_55296, t4_8)),
    );
    let u = fxsub(u, fxadd(fxmul(IE_322560, t6_6), fxmul(IE_1658880, t6_8)));
    let u = fxadd(u, fxmul(IE_92897280, t8_8));
    let v = fxmul(IE_12, t1_2);
    let v = fxsub(v, fxadd(fxmul(IE_480, t3_4), fxmul(IE_2688, t3_6)));
    let v = fxadd(v, fxadd(fxmul(IE_53760, t5_6), fxmul(IE_276480, t5_8)));
    let v = fxsub(v, fxmul(IE_11612160, t7_8));
    (u, v)
}

/// Position of the normalized spiral at parameter `t`: the curve runs
/// from (0, 0) to (1, 0).
#[verifier::opaque]
pub open spec fn ep_eval_v(ep: EulerParams, t: int) -> (int, int) {
    let thm = eval_th_v(ep, fxmul_v(t, FX_HALF as int));
    let arg_u = fxmul_v(
        fxadd_v(
            ep.k0 as int,
            fxmul_v(ep.k1 as int, fxsub_v(fxmul_v(FX_HALF as int, t), FX_HALF as int)),
        ),
        t,
    );
    let arg_v = fxmul_v(ep.k1 as int, fxmul_v(t, t));
    let uv = integ_euler_10_v(arg_u, arg_v);
    let s = fxmul_v(fxdiv_v(t, ep.ch as int), fxsin_v(thm));
    let c = fxmul_v(fxdiv_v(t, ep.ch as int), fxcos_v(thm));
    (
        fxsub_v(fxmul_v(uv.0, c), fxmul_v(uv.1, s)),
        fxsub_v(fxmul_v(-uv.1, c), fxmul_v(uv.0, s)),
    )
}

/// Position of the normalized spiral offset perpendicularly by `offset`
/// at parameter `t`.
#[verifier::opaque]
pub open spec fn ep_eval_with_offset_v(ep: EulerParams, t: int, offset: int) -> (int, int) {
    let th = eval_th_v(ep, t);
    let p = ep_eval_v(ep, t);
    (
        fxadd_v(p.0, fxmul_v(offset, fxsin_v(th))),
        fxadd_v(p.1, fxmul_v(offset, fxcos_v(th))),
    )
}

impl EulerParams {
    /// Position of the normalized spiral at parameter `t` in [0, 1]; the
    /// curve runs from (0, 0) to (1, 0).
    pub fn eval(&self, t: i128) -> (r: Point)
        requires
            euler_params_wf(*self),
            fx_ok(t),
        ensures
            point_wf(r),
            (r.x as int, r.y as int) == ep_eval_v(*self, t as int),
    {
        proof {
            reveal(ep_eval_v);
        }
        let thm = self.eval_th(fxmul(t, FX_HALF));
        let arg_u = fxmul(
            fxadd(self.k0, fxmul(self.k1, fxsub(fxmul(FX_HALF, t), FX_HALF))),
            t,
        );
        let arg_v = fxmul(self.k1, fxmul(t, t));
        let uv = integ_euler_10(arg_u, arg_v);
        let s = fxmul(fxdiv(t, self.ch), fxsin(thm));
        let c = fxmul(fxdiv(t, self.ch), fxcos(thm));
        let x = fxsub(fxmul(uv.0, c), fxmul(uv.1, s));
        let y = fxsub(fxmul(-uv.1, c), fxmul(uv.0, s));
        Point { x, y }
    }

    /// Position of the normalized spiral offset perpendicularly by
    /// `offset` at parameter `t`.
    pub fn eval_with_offset(&self, t: i128, offset: i128) -> (r: Point)
        requires
            euler_params_wf(*self),
            fx_ok(t),
            fx_ok(offset),
        ensures
            point_wf(r),
            (r.x as int, r.y as int) == ep_eval_with_offset_v(*self, t as int, offset as int),
    {
        proof {
            reveal(ep_eval_with_offset_v);
        }
        let th = self.eval_th(t);
        let p = self.eval(t);
        let x = fxadd(p.x, fxmul(offset, fxsin(th)));
        let y = fxadd(p.y, fxmul(offset, fxcos(th)));
        Point { x, y }
    }
}

/// Control points of the two-parabola cubic approximation of a segment:
/// `(p1x, p1y, p2x, p2y)`; the outer control points are the endpoints.
#[verifier::opaque]
pub open spec fn es_to_cubic_v(es: EulerSeg) -> (int, int, int, int) {
    let s0 = fxsin_v(es.params.th0 as int);
    let c0 = fxcos_v(es.params.th0 as int);
    let s1 = fxsin_v(es.params.th1 as int);
    let c1 = fxcos_v(es.params.th1 as int);
    let d0 = fxdiv_v(FX_TWO_THIRDS as int, fxadd_v(FX_ONE as int, c0));
    let d1 = fxdiv_v(FX_TWO_THIRDS as int, fxadd_v(FX_ONE as int, c1));
    let cx = fxsub_v(es.p1.x as int, es.p0.x as int);
    let cy = fxsub_v(es.p1.y as int, es.p0.y as int);
    (
        fxadd_v(es.p0.x as int, fxmul_v(d0, fxsub_v(fxmul_v(cx, c0), fxmul_v(cy, s0)))),
        fxadd_v(es.p0.y as int, fxmul_v(d0, fxadd_v(fxmul_v(cy, c0), fxmul_v(cx, s0)))),
        fxsub_v(es.p1.x as int, fxmul_v(d1, fxadd_v(fxmul_v(cx, c1), fxmul_v(cy, s1)))),
        fxsub_v(es.p1.y as int, fxmul_v(d1, fxsub_v(fxmul_v(cy, c1), fxmul_v(cx, s1)))),
    )
}

/// World-space position of a segment at parameter `t`: the normalized
/// evaluation rotated and scaled by the chord and moved to the start.
#[verifier::opaque]
pub open spec fn es_eval_v(es: EulerSeg, t: int) -> (int, int) {
    let p = ep_eval_v(es.params, t);
    let cx = fxsub_v(es.p1.x as int, es.p0.x as int);
    let cy = fxsub_v(es.p1.y as int, es.p0.y as int);
    (
        fxsub_v(fxadd_v(es.p0.x as int, fxmul_v(cx, p.0)), fxmul_v(cy, p.1)),
        fxadd_v(fxadd_v(es.p0.y as int, fxmul_v(cx, p.1)), fxmul_v(cy, p.0)),
    )
}

/// World-space position of a segment's parallel curve at offset
/// `offset` and parameter `t`.
#[verifier::opaque]
pub open spec fn es_eval_with_offset_v(es: EulerSeg, t: int, offset: int) -> (int, int) {
    let cx = fxsub_v(es.p1.x as int, es.p0.x as int);
    let cy = fxsub_v(es.p1.y as int, es.p0.y as int);
    let scaled = fxdiv_v(offset, len2_v(cx, cy));
    let p = ep_eval_with_offset_v(es.params, t, scaled);
    (
        fxsub_v(fxadd_v(es.p0.x as int, fxmul_v(cx, p.0)), fxmul_v(cy, p.1)),
        fxadd_v(fxadd_v(es.p0.y as int, fxmul_v(cx, p.1)), fxmul_v(cy, p.0)),
    )
}

impl EulerSeg {
    /// Place spiral parameters between two world-space endpoints.
    pub fn from_params(p0: Point, p1: Point, params: EulerParams) -> (es: EulerSeg)
        ensures
            es.p0 == p0,
            es.p1 == p1,
            es.params == params,
    {
        EulerSeg { p0, p1, params }
    }

    /// Approximate the segment by a single cubic Bézier using the
    /// two-parabola construction.  Lossy; for display only.
    pub fn to_cubic(&self) -> (r: CubicBez)
        requires
            euler_seg_wf(*self),
        ensures
            cubic_wf(r),
            r.p0 == self.p0,
            r.p3 == self.p1,
            (r.p1.x as int, r.p1.y as int, r.p2.x as int, r.p2.y as int) == es_to_cubic_v(
                *self,
            ),
    {
        proof {
            reveal(es_to_cubic_v);
        }
        let s0 = fxsin(self.params.th0);
        let c0 = fxcos(self.params.th0);
        let s1 = fxsin(self.params.th1);
        let c1 = fxcos(self.params.th1);
        let d0 = fxdiv(FX_TWO_THIRDS, fxadd(FX_ONE, c0));
        let d1 = fxdiv(FX_TWO_THIRDS, fxadd(FX_ONE, c1));
        let chord = self.p1.minus(&self.p0);
        let p1x = fxadd(
            self.p0.x,
            fxmul(d0, fxsub(fxmul(chord.x, c0), fxmul(chord.y, s0))),
        );
        let p1y = fxadd(
            self.p0.y,
            fxmul(d0, fxadd(fxmul(chord.y, c0), fxmul(chord.x, s0))),
        );
        let p2x = fxsub(
            self.p1.x,
            fxmul(d1, fxadd(fxmul(chord.x, c1), fxmul(chord.y, s1))),
        );
        let p2y = fxsub(
            self.p1.y,
            fxmul(d1, fxsub(fxmul(chord.y, c1), fxmul(chord.x, s1))),
        );
        CubicBez {
            p0: self.p0,
            p1: Point { x: p1x, y: p1y },
            p2: Point { x: p2x, y: p2y },
            p3: self.p1,
        }
    }

    /// World-space position of the segment at parameter `t` in [0, 1].
    pub fn eval(&self, t: i128) -> (r: Point)
        requires
            euler_seg_wf(*self),
            fx_ok(t),
        ensures
            point_wf(r),
            (r.x as int, r.y as int) == es_eval_v(*self, t as int),
    {
        proof {
            reveal(es_eval_v);
        }
        let p = self.params.eval(t);
        let chord = self.p1.minus(&self.p0);
        let x = fxsub(fxadd(self.p0.x, fxmul(chord.x, p.x)), fxmul(chord.y, p.y));
        let y = fxadd(fxadd(self.p0.y, fxmul(chord.x, p.y)), fxmul(chord.y, p.x));
        Point { x, y }
    }

    /// World-space position of the segment's parallel curve at signed
    /// offset `offset` and parameter `t` in [0, 1].
    pub fn eval_with_offset(&self, t: i128, offset: i128) -> (r: Point)
        requires
            euler_seg_wf(*self),
            fx_ok(t),
            fx_ok(offset),
        ensures
            point_wf(r),
            (r.x as int, r.y as int) == es_eval_with_offset_v(*self, t as int, offset as int),
    {
        proof {
            reveal(es_eval_with_offset_v);
            reveal(len2_v);
        }
        let chord = self.p1.minus(&self.p0);
        let len = fxhypot(chord.x, chord.y);
        let scaled = fxdiv(offset, len);
        let p = self.params.eval_with_offset(t, scaled);
        let x = fxsub(fxadd(self.p0.x, fxmul(chord.x, p.x)), fxmul(chord.y, p.y));
        let y = fxadd(fxadd(self.p0.y, fxmul(chord.x, p.y)), fxmul(chord.y, p.x));
        Point { x, y }
    }
}

} // verus!
