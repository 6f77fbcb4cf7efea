//! Adaptive fitting of a cubic Bézier by Euler-spiral segments.
//!
//! The iterator keeps a candidate sub-interval of the parameter domain as
//! an integer numerator over a power-of-two width.  After an accepted
//! interval the numerator advances and trailing factors of two are
//! removed; a rejected interval is bisected.  This realizes the adaptive
//! "try the largest untried power-of-two interval" search whose total
//! work is linear in the number of emitted segments.
//!
//! The ghost history records every emitted segment together with its
//! parameter interval, the sampled derivatives, and whether it was
//! accepted by the error test or forced at the smallest interval width.
//! Well-formedness ties the history together: intervals tile the domain
//! from zero, consecutive segments share endpoints, every endpoint is the
//! curve's own sample at the interval boundary, and every segment's
//! parameters come from the recorded samples with an error within
//! tolerance unless forced.

use crate::FitError;
use crate::euler::CubicParams;
use crate::euler::EulerParams;
use crate::euler::EulerSeg;
use crate::euler::MIN_CHORD2;
use crate::euler::chord2_of_v;
use crate::euler::cubic_params_from_points_derivs_v;
use crate::euler::ep_ch_v;
use crate::euler::ep_k1_v;
use crate::euler::est_euler_err_v;
use crate::euler::euler_seg_wf;
use crate::fixed::FX_LIMIT;
use crate::fixed::FX_ONE;
use crate::fixed::fx_ok;
use crate::fixed::fxadd_v;
use crate::fixed::fxmul;
use crate::fixed::fxmul_v;
use crate::fixed::fxsub;
use crate::fixed::fxsub_v;
use crate::geom::CubicBez;
use crate::geom::Point;
use crate::geom::Vec2;
use crate::geom::cross2_v;
use crate::geom::cubic_eval_v;
use crate::geom::dot2_v;
use crate::geom::cubic_wf;
use crate::geom::eval_cubic_and_deriv;
use crate::geom::len2_v;
use crate::geom::lemma_cubic_eval_at_one;
use crate::geom::lemma_cubic_eval_at_zero;
use crate::geom::vec2_wf;
use vstd::arithmetic::power2::pow2;
use vstd::prelude::*;

verus! {

/// The parameter-domain position, in raw fixed-point units, at which the
/// fit is complete: one.
pub const FIT_POS_END: u64 = 0x1_0000_0000_0000;

/// Smallest admitted interval width in raw units (2^16): thirty-two
/// bisections of the domain.  At this width an interval is accepted
/// regardless of its estimated error — a termination floor, needed
/// because the real-arithmetic argument that the error estimate
/// eventually falls under any positive tolerance does not survive
/// fixed-point quantization.  It bounds the number of emitted segments;
/// a true cusp converges to the fixed cusp-error constant and ends here
/// at the latest.  A step accepted at the floor with its error test
/// still failing carries the `forced` flag in the history; a step whose
/// error test passed never does, even at the floor.
pub const FIT_MIN_DT: u64 = 0x1_0000;

/// Threshold below which a squared derivative is considered too small.
pub const DERIV_THRESH2: i128 = 281;

/// Amount to nudge `t` when the derivative is near zero.
pub const DERIV_EPS: i128 = 281474976;

/// Record of one emitted segment: its parameter interval, the sampled
/// derivatives at its ends, and whether it was accepted only because the
/// interval had reached the smallest width.
pub struct FitStep {
    /// Parameter at which the interval starts.
    pub t0: i128,
    /// Parameter at which the interval ends.
    pub t1: i128,
    /// Scaled derivative sample at the start.
    pub q0: Vec2,
    /// Scaled derivative sample at the end.
    pub q1: Vec2,
    /// Whether acceptance was forced at the smallest interval width.
    pub forced: bool,
}

/// Number of history entries whose acceptance was forced at the width
/// floor.
pub open spec fn count_forced(steps: Seq<FitStep>) -> int
    decreases steps.len(),
{
    if steps.len() == 0 {
        0
    } else {
        count_forced(steps.drop_last()) + if steps.last().forced {
            1int
        } else {
            0int
        }
    }
}

/// A forced-step count is between zero and the number of entries.
pub proof fn lemma_count_forced_bounds(steps: Seq<FitStep>)
    ensures
        0 <= count_forced(steps) <= steps.len(),
    decreases steps.len(),
{
    if steps.len() > 0 {
        lemma_count_forced_bounds(steps.drop_last());
    }
}

/// A zero forced-step count means no entry is forced.
pub proof fn lemma_count_forced_zero(steps: Seq<FitStep>)
    requires
        count_forced(steps) == 0,
    ensures
        forall|i: int| 0 <= i < steps.len() ==> !(#[trigger] steps[i]).forced,
    decreases steps.len(),
{
    if steps.len() > 0 {
        lemma_count_forced_bounds(steps.drop_last());
        lemma_count_forced_zero(steps.drop_last());
        assert forall|i: int| 0 <= i < steps.len() implies !(#[trigger] steps[i]).forced by {
            if i < steps.len() - 1 {
                assert(steps[i] == steps.drop_last()[i]);
            }
        }
    }
}

/// Lazy, restartable producer of the Euler-spiral segments approximating
/// a cubic Bézier within a tolerance.
pub struct CubicToEulerIter {
    /// The curve being approximated.
    pub c: CubicBez,
    /// Absolute error tolerance, strictly positive.
    pub tolerance: i128,
    /// Numerator of the candidate interval's start position.
    pub t0: u64,
    /// Width of the candidate interval in raw units, a power of two.
    pub dt: u64,
    /// Curve sample at the last accepted parameter.
    pub last_p: Vec2,
    /// Scaled derivative sample at the last accepted parameter.
    pub last_q: Vec2,
    /// The last accepted parameter.
    pub last_t: i128,
    /// Whether a degenerate chord has been reported; the sequence ends.
    pub failed: bool,
    /// How many emitted segments were accepted only by the width floor,
    /// their error test failing.  Zero means every emitted segment's
    /// recorded error estimate is within the tolerance; a caller that
    /// must not accept any over-tolerance segment checks this count.
    pub forced_count: u64,
    /// Exponent of the interval width: `dt == pow2(sh)`.
    pub sh: Ghost<nat>,
    /// Every segment emitted so far, in order.
    pub segs: Ghost<Seq<EulerSeg>>,
    /// The record of each emitted segment, in the same order.
    pub steps: Ghost<Seq<FitStep>>,
}

impl CubicToEulerIter {
    /// Parameter-domain position of the candidate interval's start, in
    /// raw units.
    pub open spec fn pos(self) -> int {
        self.t0 * self.dt
    }

    /// Whether the whole domain has been covered.
    pub open spec fn done(self) -> bool {
        self.pos() == FIT_POS_END
    }

    /// Well-formedness of one history entry: the interval is ordered and
    /// within the domain, the segment's endpoints are the curve's own
    /// samples at the interval boundaries, its parameters derive from the
    /// recorded samples, and its absolute error estimate is within
    /// tolerance unless acceptance was forced.
    pub open spec fn step_ok(self, i: int) -> bool {
        let st = self.steps@[i];
        let sg = self.segs@[i];
        let dtv = fxsub_v(st.t1 as int, st.t0 as int);
        let cp = cubic_params_from_points_derivs_v(
            Vec2 { x: sg.p0.x, y: sg.p0.y },
            Vec2 { x: sg.p1.x, y: sg.p1.y },
            st.q0,
            st.q1,
            dtv,
        );
        &&& 0 <= st.t0 < st.t1 <= FX_ONE
        &&& fx_ok(st.t0) && fx_ok(st.t1)
        &&& euler_seg_wf(sg)
        &&& vec2_wf(st.q0) && vec2_wf(st.q1)
        &&& sg.p0.x == cubic_eval_v(self.c, st.t0 as int, 0)
        &&& sg.p0.y == cubic_eval_v(self.c, st.t0 as int, 1)
        &&& sg.p1.x == cubic_eval_v(self.c, st.t1 as int, 0)
        &&& sg.p1.y == cubic_eval_v(self.c, st.t1 as int, 1)
        &&& chord2_of_v(sg.p0.x as int, sg.p0.y as int, sg.p1.x as int, sg.p1.y as int)
            >= MIN_CHORD2
        &&& sg.params.th0 == cp.0
        &&& sg.params.th1 == cp.1
        &&& sg.params.k0 == fxadd_v(cp.0, cp.1)
        &&& sg.params.k1 == ep_k1_v(cp.0, cp.1)
        &&& sg.params.ch == ep_ch_v(cp.0, cp.1)
        &&& (st.forced || fxmul_v(
            est_euler_err_v(cp.0, cp.1, cp.2, cp.3),
            len2_v(
                fxsub_v(sg.p0.x as int, sg.p1.x as int),
                fxsub_v(sg.p0.y as int, sg.p1.y as int),
            ),
        ) <= self.tolerance)
    }

    /// Well-formedness of the whole iterator state.
    pub open spec fn wf(self) -> bool {
        &&& cubic_wf(self.c)
        &&& fx_ok(self.tolerance) && self.tolerance > 0
        &&& vec2_wf(self.last_p) && vec2_wf(self.last_q)
        &&& fx_ok(self.last_t)
        &&& self.dt == pow2(self.sh@)
        &&& 16 <= self.sh@ <= 48
        &&& self.t0 * self.dt <= FIT_POS_END
        &&& FIT_MIN_DT <= self.dt
        &&& self.segs@.len() * FIT_MIN_DT <= self.t0 * self.dt
        &&& 0 <= self.last_t <= self.t0 * self.dt
        &&& self.last_p.x == cubic_eval_v(self.c, self.last_t as int, 0)
        &&& self.last_p.y == cubic_eval_v(self.c, self.last_t as int, 1)
        &&& self.segs@.len() == self.steps@.len()
        &&& self.forced_count == count_forced(self.steps@)
        &&& self.forced_count <= self.steps@.len()
        &&& (self.segs@.len() == 0 ==> self.t0 * self.dt == 0 && self.last_t == 0)
        &&& (self.segs@.len() > 0 ==> {
            &&& self.steps@[0].t0 == 0
            &&& self.segs@[0].p0.x == self.c.p0.x && self.segs@[0].p0.y == self.c.p0.y
            &&& self.steps@[self.steps@.len() - 1].t1 == self.last_t
            &&& self.segs@[self.segs@.len() - 1].p1.x == self.last_p.x
            &&& self.segs@[self.segs@.len() - 1].p1.y == self.last_p.y
        })
        &&& (forall|i: int|
            0 <= i < self.segs@.len() - 1 ==> #[trigger] self.steps@[i].t1
                == self.steps@[i + 1].t0)
        &&& (forall|i: int|
            0 <= i < self.segs@.len() - 1 ==> #[trigger] self.segs@[i].p1
                == self.segs@[i + 1].p0)
        &&& (forall|i: int| 0 <= i < self.segs@.len() ==> #[trigger] self.step_ok(i))
        &&& (self.done() ==> self.last_t == FX_ONE)
    }
}

/// Raw dyadic end position of the current candidate interval.
pub open spec fn cand_t1d_v(it: CubicToEulerIter) -> int {
    (it.t0 + 1) * it.dt
}

/// Scaled derivative sample at the candidate's dyadic end.
pub open spec fn cand_qraw_v(it: CubicToEulerIter) -> (int, int) {
    (cubic_eval_v(it.c, cand_t1d_v(it), 2), cubic_eval_v(it.c, cand_t1d_v(it), 3))
}

/// Whether the end derivative is near zero, so the sample is nudged.
pub open spec fn cand_nudge_v(it: CubicToEulerIter) -> bool {
    dot2_v(
        cand_qraw_v(it).0,
        cand_qraw_v(it).1,
        cand_qraw_v(it).0,
        cand_qraw_v(it).1,
    ) < DERIV_THRESH2
}

/// Effective end parameter of the candidate interval, after the nudge.
pub open spec fn cand_t1_v(it: CubicToEulerIter) -> int {
    let t1d = cand_t1d_v(it);
    if cand_nudge_v(it) && t1d < FX_ONE && fxsub_v(t1d, DERIV_EPS as int) > it.last_t {
        fxsub_v(t1d, DERIV_EPS as int)
    } else {
        t1d
    }
}

/// Scaled derivative sample the candidate uses at its end.
pub open spec fn cand_q1_v(it: CubicToEulerIter) -> (int, int) {
    if cand_nudge_v(it) {
        (
            cubic_eval_v(it.c, fxsub_v(cand_t1d_v(it), DERIV_EPS as int), 2),
            cubic_eval_v(it.c, fxsub_v(cand_t1d_v(it), DERIV_EPS as int), 3),
        )
    } else {
        cand_qraw_v(it)
    }
}

/// Curve sample at the candidate's effective end parameter.
pub open spec fn cand_p1_v(it: CubicToEulerIter) -> (int, int) {
    (cubic_eval_v(it.c, cand_t1_v(it), 0), cubic_eval_v(it.c, cand_t1_v(it), 1))
}

/// Whether the candidate's chord passes the degenerate-chord guard.
pub open spec fn cand_chord_ok_v(it: CubicToEulerIter) -> bool {
    chord2_of_v(
        it.last_p.x as int,
        it.last_p.y as int,
        cand_p1_v(it).0,
        cand_p1_v(it).1,
    ) >= MIN_CHORD2
}

/// Shape parameters the candidate derives from its samples.
pub open spec fn cand_cp_v(it: CubicToEulerIter) -> (int, int, int, int) {
    cubic_params_from_points_derivs_v(
        it.last_p,
        Vec2 { x: cand_p1_v(it).0 as i128, y: cand_p1_v(it).1 as i128 },
        it.last_q,
        Vec2 { x: cand_q1_v(it).0 as i128, y: cand_q1_v(it).1 as i128 },
        fxsub_v(cand_t1_v(it), it.last_t as int),
    )
}

/// Absolute error estimate of the candidate interval.
pub open spec fn cand_err_v(it: CubicToEulerIter) -> int {
    let cp = cand_cp_v(it);
    fxmul_v(
        est_euler_err_v(cp.0, cp.1, cp.2, cp.3),
        len2_v(
            fxsub_v(it.last_p.x as int, cand_p1_v(it).0),
            fxsub_v(it.last_p.y as int, cand_p1_v(it).1),
        ),
    )
}

/// Whether the current candidate interval is accepted outright: its
/// chord passes the guard and its error estimate is within tolerance.
pub open spec fn cand_accepts_v(it: CubicToEulerIter) -> bool {
    cand_chord_ok_v(it) && cand_err_v(it) <= it.tolerance
}

/// The state after one bisection of the candidate interval: the
/// numerator doubles and the width halves; samples, history and curve
/// are untouched.
pub open spec fn bisect_v(it: CubicToEulerIter) -> CubicToEulerIter {
    CubicToEulerIter {
        t0: (it.t0 * 2) as u64,
        dt: ((it.dt as int) / 2) as u64,
        sh: Ghost((it.sh@ - 1) as nat),
        ..it
    }
}

/// Whether one fitting call fails: starting from the current candidate,
/// the bisection cascade reaches a degenerate (below-guard) chord before
/// it reaches an acceptable candidate or the width floor.  This is the
/// exact failure condition of `next`: a call on a state that does not
/// satisfy it must produce a segment.
pub open spec fn call_fails_v(it: CubicToEulerIter) -> bool
    decreases it.dt,
{
    if it.done() {
        false
    } else if !cand_chord_ok_v(it) {
        true
    } else if cand_accepts_v(it) || it.dt <= FIT_MIN_DT {
        false
    } else {
        call_fails_v(bisect_v(it))
    }
}

/// Renormalized counter after an acceptance: trailing factors of two
/// move from the numerator into the width.
pub open spec fn renorm_v(t0: u64, dt: u64, sh: nat) -> (u64, u64, nat)
    decreases t0,
{
    if t0 % 2 == 0 && t0 > 0 {
        renorm_v((t0 as int / 2) as u64, (dt * 2) as u64, (sh + 1) as nat)
    } else {
        (t0, dt, sh)
    }
}

/// The state after accepting the current candidate: the counter
/// advances and renormalizes, the samples move to the candidate's end,
/// and the emitted segment and its record join the history.
pub open spec fn accept_state_v(it: CubicToEulerIter) -> CubicToEulerIter {
    let cp = cand_cp_v(it);
    let seg = EulerSeg {
        p0: Point { x: it.last_p.x, y: it.last_p.y },
        p1: Point { x: cand_p1_v(it).0 as i128, y: cand_p1_v(it).1 as i128 },
        params: EulerParams {
            th0: cp.0 as i128,
            th1: cp.1 as i128,
            k0: fxadd_v(cp.0, cp.1) as i128,
            k1: ep_k1_v(cp.0, cp.1) as i128,
            ch: ep_ch_v(cp.0, cp.1) as i128,
        },
    };
    let forced = !(cand_err_v(it) <= it.tolerance);
    let step = FitStep {
        t0: it.last_t,
        t1: cand_t1_v(it) as i128,
        q0: it.last_q,
        q1: Vec2 { x: cand_q1_v(it).0 as i128, y: cand_q1_v(it).1 as i128 },
        forced,
    };
    let rn = renorm_v((it.t0 + 1) as u64, it.dt, it.sh@);
    CubicToEulerIter {
        t0: rn.0,
        dt: rn.1,
        sh: Ghost(rn.2),
        last_p: Vec2 { x: cand_p1_v(it).0 as i128, y: cand_p1_v(it).1 as i128 },
        last_q: Vec2 { x: cand_q1_v(it).0 as i128, y: cand_q1_v(it).1 as i128 },
        last_t: cand_t1_v(it) as i128,
        segs: Ghost(it.segs@.push(seg)),
        steps: Ghost(it.steps@.push(step)),
        forced_count: (it.forced_count + if forced {
            1int
        } else {
            0int
        }) as u64,
        ..it
    }
}

/// The counter bounds the deterministic run needs: a power-of-two
/// width between the floor and the whole domain, and a position within
/// the domain.  Well-formedness implies it.
pub open spec fn run_wf(it: CubicToEulerIter) -> bool {
    &&& it.dt == pow2(it.sh@)
    &&& 16 <= it.sh@ <= 48
    &&& it.t0 * it.dt <= FIT_POS_END
}

/// Renormalization preserves the position, the power-of-two width and
/// its exponent bounds, and yields an odd positive numerator.
pub proof fn lemma_renorm_props(t0: u64, dt: u64, sh: nat)
    requires
        dt == pow2(sh),
        16 <= sh <= 48,
        1 <= t0,
        t0 * dt <= FIT_POS_END,
    ensures
        ({
            let r = renorm_v(t0, dt, sh);
            &&& r.0 * r.1 == t0 * dt
            &&& r.1 == pow2(r.2)
            &&& 16 <= r.2 <= 48
            &&& 1 <= r.0
        }),
    decreases t0,
{
    vstd::arithmetic::power2::lemma2_to64();
    vstd::arithmetic::power2::lemma2_to64_rest();
    if t0 % 2 == 0 && t0 > 0 {
        let t2 = (t0 as int / 2) as u64;
        let d2 = (dt * 2) as u64;
        assert(sh + 1 <= 48) by {
            if sh + 1 > 48 {
                assert(sh == 48);
                assert(dt == 0x1_0000_0000_0000u64);
                assert(t0 * dt >= 2 * dt) by (nonlinear_arith)
                    requires
                        t0 >= 2,
                        dt > 0,
                ;
            }
        }
        assert(dt * 2 == pow2((sh + 1) as nat)) by {
            vstd::arithmetic::power2::lemma_pow2_unfold((sh + 1) as nat);
        }
        assert(t2 * d2 == t0 * dt) by (nonlinear_arith)
            requires
                t0 % 2 == 0,
                t0 >= 2,
                t2 == t0 as int / 2,
                d2 == dt * 2,
        ;
        lemma_renorm_props(t2, d2, (sh + 1) as nat);
    }
}

/// Whether the deterministic fitting run from this state ever fails:
/// some call's bisection cascade reaches a candidate with a degenerate
/// chord.  This is the exact failure condition of a whole fit: a run on
/// a state that does not satisfy it must fit the remaining domain.
pub open spec fn fit_fails_from(it: CubicToEulerIter) -> bool
    decreases FIT_POS_END - it.t0 * it.dt, it.dt,
        when run_wf(it)
        via fit_fails_from_decreases
{
    if it.done() {
        false
    } else if !cand_chord_ok_v(it) {
        true
    } else if cand_accepts_v(it) || it.dt <= FIT_MIN_DT {
        fit_fails_from(accept_state_v(it))
    } else {
        fit_fails_from(bisect_v(it))
    }
}

#[via_fn]
proof fn fit_fails_from_decreases(it: CubicToEulerIter) {
    vstd::arithmetic::power2::lemma2_to64();
    vstd::arithmetic::power2::lemma2_to64_rest();
    vstd::arithmetic::power2::lemma_pow2_pos(it.sh@);
    if !it.done() && cand_chord_ok_v(it) {
        if cand_accepts_v(it) || it.dt <= FIT_MIN_DT {
            lemma_candidate_fits(it.t0, it.dt, it.sh@);
            assert((it.t0 + 1) * it.dt == it.t0 * it.dt + it.dt) by (nonlinear_arith);
            lemma_renorm_props((it.t0 + 1) as u64, it.dt, it.sh@);
        } else {
            assert(it.sh@ > 16) by {
                if it.sh@ == 16 {
                    assert(it.dt == 0x1_0000u64);
                }
            }
            vstd::arithmetic::power2::lemma_pow2_unfold(it.sh@);
            assert(it.t0 * 2 <= FIT_POS_END) by (nonlinear_arith)
                requires
                    it.t0 * it.dt <= FIT_POS_END,
                    it.dt >= 2,
                    it.t0 >= 0,
            ;
            assert((it.t0 * 2) * (it.dt as int / 2) == it.t0 * it.dt) by (nonlinear_arith)
                requires
                    it.dt % 2 == 0,
                    it.dt >= 2,
            ;
        }
    }
}

/// The next candidate interval still fits in the domain: as long as the
/// fit is not done, advancing the numerator stays within one.
proof fn lemma_candidate_fits(t0: u64, dt: u64, sh: nat)
    requires
        dt == pow2(sh),
        16 <= sh <= 48,
        t0 * dt < 0x1_0000_0000_0000u64,
    ensures
        (t0 + 1) * dt <= 0x1_0000_0000_0000u64,
        t0 < 0x1_0000_0000_0000u64,
{
    vstd::arithmetic::power2::lemma2_to64();
    vstd::arithmetic::power2::lemma2_to64_rest();
    vstd::arithmetic::power2::lemma_pow2_adds(sh, (48 - sh) as nat);
    vstd::arithmetic::power2::lemma_pow2_pos(sh);
    vstd::arithmetic::power2::lemma_pow2_pos((48 - sh) as nat);
    assert(t0 <= t0 * dt) by (nonlinear_arith)
        requires
            dt >= 1,
            t0 >= 0,
    ;
    let k = pow2((48 - sh) as nat) as int;
    assert(t0 < k) by (nonlinear_arith)
        requires
            t0 * dt < dt * k,
            dt > 0,
            t0 >= 0,
            k > 0,
    ;
    assert((t0 + 1) * dt <= k * dt) by (nonlinear_arith)
        requires
            t0 + 1 <= k,
            dt > 0,
    ;
}

impl CubicToEulerIter {
    /// Begin fitting `c` with the given absolute error tolerance.
    ///
    /// A non-positive tolerance would never accept an interval and is
    /// reported as an invalid argument.
    pub fn new(c: CubicBez, tolerance: i128) -> (r: Result<CubicToEulerIter, FitError>)
        requires
            cubic_wf(c),
            fx_ok(tolerance),
        ensures
            match r {
                Ok(it) => {
                    &&& tolerance > 0
                    &&& it.wf()
                    &&& it.c == c
                    &&& it.tolerance == tolerance
                    &&& it.segs@.len() == 0
                    &&& it.steps@.len() == 0
                    &&& !it.failed
                    &&& it.forced_count == 0
                    &&& !it.done()
                    &&& it.t0 == 0 && it.dt == FIT_POS_END
                    &&& it.last_t == 0
                    &&& it.last_p.x == c.p0.x && it.last_p.y == c.p0.y
                    &&& {
                        let d01x = fxsub_v(c.p1.x as int, c.p0.x as int);
                        let d01y = fxsub_v(c.p1.y as int, c.p0.y as int);
                        if dot2_v(d01x, d01y, d01x, d01y) >= DERIV_THRESH2 {
                            it.last_q.x == d01x && it.last_q.y == d01y
                        } else {
                            it.last_q.x == cubic_eval_v(c, DERIV_EPS as int, 2)
                                && it.last_q.y == cubic_eval_v(c, DERIV_EPS as int, 3)
                        }
                    }
                },
                Err(e) => e == FitError::InvalidArgument && tolerance <= 0,
            },
    {
        if tolerance <= 0 {
            return Err(FitError::InvalidArgument);
        }
        let last_p = c.p0.to_vec2();
        let d01 = c.p1.minus(&c.p0);
        let lsq = d01.length_squared();
        let last_q = if lsq < DERIV_THRESH2 {
            let er = eval_cubic_and_deriv(&c, DERIV_EPS);
            er.1
        } else {
            d01
        };
        proof {
            lemma_cubic_eval_at_zero(c);
            vstd::arithmetic::power2::lemma2_to64();
            vstd::arithmetic::power2::lemma2_to64_rest();
        }
        let it = CubicToEulerIter {
            c,
            tolerance,
            t0: 0,
            dt: FIT_POS_END,
            last_p,
            last_q,
            last_t: 0,
            failed: false,
            forced_count: 0,
            sh: Ghost(48nat),
            segs: Ghost(Seq::empty()),
            steps: Ghost(Seq::empty()),
        };
        Ok(it)
    }

    /// Outcome of testing one candidate interval.
    #[verifier::rlimit(100)]
    fn step_once(&mut self) -> (r: StepOutcome)
        requires
            old(self).wf(),
            !old(self).failed,
            !old(self).done(),
        ensures
            final(self).c == old(self).c,
            final(self).tolerance == old(self).tolerance,
            match r {
                StepOutcome::Emitted(seg) => {
                    &&& final(self).wf() && !final(self).failed
                    &&& final(self).segs@ == old(self).segs@.push(seg)
                    &&& final(self).steps@.len() == old(self).steps@.len() + 1
                    &&& final(self).steps@[final(self).steps@.len() - 1].t0 == old(self).last_t
                    &&& final(self).steps@[final(self).steps@.len() - 1].t1 == final(self).last_t
                    &&& seg.p0.x == old(self).last_p.x && seg.p0.y == old(self).last_p.y
                    &&& seg.p1.x == final(self).last_p.x && seg.p1.y == final(self).last_p.y
                    &&& old(self).last_t < final(self).last_t
                    &&& final(self).t0 * final(self).dt == old(self).t0 * old(self).dt + old(
                        self,
                    ).dt
                    &&& final(self).last_t == cand_t1_v(*old(self))
                    &&& final(self).steps@.last().q0 == old(self).last_q
                    &&& final(self).steps@.last().q1.x == cand_q1_v(*old(self)).0
                    &&& final(self).steps@.last().q1.y == cand_q1_v(*old(self)).1
                    &&& (final(self).steps@.last().forced ==> old(self).dt == FIT_MIN_DT)
                    &&& (cand_accepts_v(*old(self)) ==> final(self).steps@.last().forced
                        == false)
                    &&& cand_chord_ok_v(*old(self))
                    &&& (cand_accepts_v(*old(self)) || old(self).dt == FIT_MIN_DT)
                    &&& *final(self) == accept_state_v(*old(self))
                    &&& final(self).forced_count == old(self).forced_count + (
                    if final(self).steps@.last().forced {
                        1int
                    } else {
                        0int
                    })
                },
                StepOutcome::Split => {
                    &&& final(self).wf() && !final(self).failed && !final(self).done()
                    &&& final(self).segs@ == old(self).segs@
                    &&& final(self).steps@ == old(self).steps@
                    &&& final(self).last_p == old(self).last_p
                    &&& final(self).last_q == old(self).last_q
                    &&& final(self).last_t == old(self).last_t
                    &&& final(self).dt < old(self).dt
                    &&& !cand_accepts_v(*old(self))
                    &&& cand_chord_ok_v(*old(self))
                    &&& old(self).dt > FIT_MIN_DT
                    &&& *final(self) == bisect_v(*old(self))
                },
                StepOutcome::Degenerate => {
                    &&& final(self).wf() && final(self).failed
                    &&& final(self).segs@ == old(self).segs@
                    &&& final(self).steps@ == old(self).steps@
                    &&& !cand_accepts_v(*old(self))
                    &&& !cand_chord_ok_v(*final(self))
                    &&& !cand_chord_ok_v(*old(self))
                    &&& !final(self).done()
                },
            },
    {
        proof {
            vstd::arithmetic::power2::lemma_pow2_pos(self.sh@);
            lemma_candidate_fits(self.t0, self.dt, self.sh@);
            assert(self.t0 * self.dt < (self.t0 + 1) * self.dt) by (nonlinear_arith)
                requires
                    self.dt > 0,
                    self.t0 >= 0,
            ;
        }
        let t1u = (self.t0 + 1) * self.dt;
        let mut t1: i128 = t1u as i128;
        let er = eval_cubic_and_deriv(&self.c, t1);
        let mut p1 = er.0;
        let mut q1 = er.1;
        let lsq = q1.length_squared();
        if lsq < DERIV_THRESH2 {
            let t1e = fxsub(t1, DERIV_EPS);
            let er2 = eval_cubic_and_deriv(&self.c, t1e);
            q1 = er2.1;
            if t1 < FX_ONE && t1e > self.last_t {
                p1 = er2.0;
                t1 = t1e;
            }
        }
        proof {
            assert(t1 == cand_t1_v(*old(self)));
            assert(q1.x == cand_q1_v(*old(self)).0 && q1.y == cand_q1_v(*old(self)).1);
            assert(p1.x == cand_p1_v(*old(self)).0 && p1.y == cand_p1_v(*old(self)).1);
        }
        let actual_dt = fxsub(t1, self.last_t);
        let cpr = CubicParams::from_points_derivs(self.last_p, p1, self.last_q, q1, actual_dt);
        let cp = match cpr {
            Ok(cp) => cp,
            Err(_) => {
                proof {
                    assert(!cand_chord_ok_v(*old(self)));
                    assert(!cand_accepts_v(*old(self)));
                }
                self.failed = true;
                proof {
                    assert(cand_t1d_v(*self) == cand_t1d_v(*old(self)));
                    assert(cand_qraw_v(*self) == cand_qraw_v(*old(self)));
                    assert(cand_nudge_v(*self) == cand_nudge_v(*old(self)));
                    assert(cand_t1_v(*self) == cand_t1_v(*old(self)));
                    assert(cand_p1_v(*self) == cand_p1_v(*old(self)));
                    assert(!cand_chord_ok_v(*self));
                    assert forall|i: int| 0 <= i < self.segs@.len()
                        implies #[trigger] self.step_ok(i) by {
                        assert(old(self).step_ok(i));
                    }
                }
                return StepOutcome::Degenerate;
            },
        };
        let est = cp.est_euler_err();
        let dv = self.last_p.minus(&p1);
        let chord_len = dv.length();
        let err = fxmul(est, chord_len);
        let at_floor = self.dt == FIT_MIN_DT;
        if err <= self.tolerance || at_floor {
            let forced = err > self.tolerance;
            let prev_t = self.last_t;
            let ghost newpos = (self.t0 + 1) as int * self.dt as int;
            proof {
                assert(newpos == self.t0 * self.dt + self.dt) by (nonlinear_arith)
                    requires
                        newpos == (self.t0 + 1) as int * self.dt as int,
                ;
                assert(cand_cp_v(*old(self)) == (
                    cp.th0 as int,
                    cp.th1 as int,
                    cp.d0 as int,
                    cp.d1 as int,
                ));
            }
            self.t0 = self.t0 + 1;
            let ghost rn = renorm_v(self.t0, self.dt, self.sh@);
            while self.t0 % 2 == 0
                invariant
                    self.t0 >= 1,
                    FIT_MIN_DT <= self.dt,
                    renorm_v(self.t0, self.dt, self.sh@) == rn,
                    self.dt == pow2(self.sh@),
                    16 <= self.sh@ <= 48,
                    self.t0 * self.dt == newpos,
                    newpos <= FIT_POS_END,
                    self.c == old(self).c,
                    self.tolerance == old(self).tolerance,
                    self.last_p == old(self).last_p,
                    self.last_q == old(self).last_q,
                    self.last_t == old(self).last_t,
                    self.failed == old(self).failed,
                    self.forced_count == old(self).forced_count,
                    self.segs@ == old(self).segs@,
                    self.steps@ == old(self).steps@,
                decreases self.t0,
            {
                proof {
                    vstd::arithmetic::power2::lemma2_to64();
                    vstd::arithmetic::power2::lemma2_to64_rest();
                    assert(self.t0 >= 2);
                    assert((self.t0 / 2) * (self.dt * 2) == self.t0 * self.dt)
                        by (nonlinear_arith)
                        requires
                            self.t0 % 2 == 0,
                            self.t0 >= 2,
                    ;
                    assert(self.dt * 2 == pow2((self.sh@ + 1) as nat)) by {
                        vstd::arithmetic::power2::lemma_pow2_unfold((self.sh@ + 1) as nat);
                    }
                    assert(self.sh@ + 1 <= 48) by {
                        if self.sh@ + 1 > 48 {
                            assert(self.sh@ == 48);
                            assert(self.dt == 0x1_0000_0000_0000u64);
                            assert(self.t0 * self.dt >= 2 * self.dt) by (nonlinear_arith)
                                requires
                                    self.t0 >= 2,
                                    self.dt > 0,
                            ;
                        }
                    }
                }
                self.t0 = self.t0 / 2;
                self.dt = self.dt * 2;
                proof {
                    self.sh@ = self.sh@ + 1;
                }
            }
            proof {
                assert((self.t0, self.dt, self.sh@) == rn);
            }
            let ep = EulerParams::from_angles(cp.th0, cp.th1);
            let seg = EulerSeg::from_params(self.last_p.to_point(), p1.to_point(), ep);
            let ghost step = FitStep { t0: prev_t, t1, q0: self.last_q, q1, forced };
            proof {
                lemma_count_forced_bounds(self.steps@);
                assert(self.segs@.len() * FIT_MIN_DT <= FIT_POS_END);
                assert(self.segs@.len() <= 0x1_0000_0000u64) by (nonlinear_arith)
                    requires
                        self.segs@.len() * FIT_MIN_DT <= FIT_POS_END,
                        FIT_MIN_DT == 0x1_0000u64,
                        FIT_POS_END == 0x1_0000_0000_0000u64,
                ;
                self.segs@ = self.segs@.push(seg);
                self.steps@ = self.steps@.push(step);
                assert(self.steps@.drop_last() =~= old(self).steps@);
                assert(self.steps@.last() == step);
            }
            if forced {
                self.forced_count = self.forced_count + 1;
            }
            proof {
                assert(count_forced(self.steps@) == count_forced(old(self).steps@) + (
                if step.forced {
                    1int
                } else {
                    0int
                }));
                assert(self.forced_count == count_forced(self.steps@));
            }
            self.last_p = p1;
            self.last_q = q1;
            self.last_t = t1;
            proof {
                if old(self).segs@.len() == 0 {
                    lemma_cubic_eval_at_zero(self.c);
                }
                let n = self.segs@.len() as int;
                assert forall|i: int| 0 <= i < n implies #[trigger] self.step_ok(i) by {
                    if i < n - 1 {
                        assert(old(self).step_ok(i));
                    }
                }
                assert forall|i: int| 0 <= i < n - 1 implies #[trigger] self.steps@[i].t1
                    == self.steps@[i + 1].t0 by {
                    if i < n - 2 {
                        assert(old(self).steps@[i].t1 == old(self).steps@[i + 1].t0);
                    }
                }
                assert forall|i: int| 0 <= i < n - 1 implies #[trigger] self.segs@[i].p1
                    == self.segs@[i + 1].p0 by {
                    if i < n - 2 {
                        assert(old(self).segs@[i].p1 == old(self).segs@[i + 1].p0);
                    }
                    if i == n - 2 && n >= 2 {
                        assert(old(self).segs@[i].p1.x == old(self).last_p.x);
                        assert(old(self).segs@[i].p1.y == old(self).last_p.y);
                    }
                }
            }
            proof {
                assert(*self == accept_state_v(*old(self)));
            }
            return StepOutcome::Emitted(seg);
        }
        proof {
            assert(cand_cp_v(*old(self)) == (
                cp.th0 as int,
                cp.th1 as int,
                cp.d0 as int,
                cp.d1 as int,
            ));
            assert(cand_err_v(*old(self)) == err as int);
            assert(!cand_accepts_v(*old(self)));
            vstd::arithmetic::power2::lemma2_to64();
            assert(self.sh@ > 16) by {
                if self.sh@ == 16 {
                    assert(self.dt == 0x1_0000u64);
                }
            }
            vstd::arithmetic::power2::lemma_pow2_unfold(self.sh@);
            if self.sh@ - 1 > 16 {
                vstd::arithmetic::power2::lemma_pow2_strictly_increases(
                    16,
                    (self.sh@ - 1) as nat,
                );
            }
            assert((self.t0 * 2) * (self.dt / 2) == self.t0 * self.dt) by (nonlinear_arith)
                requires
                    self.dt % 2 == 0,
                    self.dt >= 2,
            ;
            assert(self.t0 * 2 <= 2 * FIT_POS_END) by (nonlinear_arith)
                requires
                    self.t0 * self.dt <= FIT_POS_END,
                    self.dt >= 1,
                    self.t0 >= 0,
            ;
        }
        self.t0 = self.t0 * 2;
        self.dt = self.dt / 2;
        proof {
            self.sh@ = (self.sh@ - 1) as nat;
            assert forall|i: int| 0 <= i < self.segs@.len()
                implies #[trigger] self.step_ok(i) by {
                assert(old(self).step_ok(i));
            }
        }
        StepOutcome::Split
    }

    /// Produce the next Euler-spiral segment.  Once the domain is
    /// covered, and after a reported failure, every further call returns
    /// `None`.  An error is returned if and only if this call's
    /// bisection cascade reaches a candidate with a degenerate
    /// (below-guard) chord (`call_fails_v`), which leaves the local
    /// frame undefined; the error ends the sequence.  An emitted segment
    /// leaves the whole run's failure condition (`fit_fails_from`)
    /// unchanged.  Every emitted segment's recorded error estimate is
    /// within tolerance unless its `forced` flag is set — and then
    /// `forced_count`, which callers can read, is incremented — which
    /// happens only at the smallest interval width.
    pub fn next(&mut self) -> (r: Result<Option<EulerSeg>, FitError>)
        requires
            old(self).wf(),
        ensures
            final(self).wf(),
            final(self).c == old(self).c,
            final(self).tolerance == old(self).tolerance,
            !old(self).done() && !old(self).failed && cand_accepts_v(*old(self)) ==> r matches Ok(
                Some(_),
            ),
            old(self).done() || old(self).failed ==> r matches Ok(None),
            !old(self).done() && !old(self).failed ==> ((r is Err) <==> call_fails_v(
                *old(self),
            )),
            r matches Ok(Some(_)) ==> fit_fails_from(*old(self)) == fit_fails_from(
                *final(self),
            ),
            r is Err ==> fit_fails_from(*old(self)),
            match r {
                Ok(Some(seg)) => {
                    &&& !old(self).done() && !old(self).failed && !final(self).failed
                    &&& final(self).segs@ == old(self).segs@.push(seg)
                    &&& final(self).steps@.len() == old(self).steps@.len() + 1
                    &&& final(self).steps@[final(self).steps@.len() - 1].t0 == old(self).last_t
                    &&& final(self).steps@[final(self).steps@.len() - 1].t1 == final(self).last_t
                    &&& seg.p0.x == old(self).last_p.x && seg.p0.y == old(self).last_p.y
                    &&& seg.p1.x == final(self).last_p.x && seg.p1.y == final(self).last_p.y
                    &&& old(self).last_t < final(self).last_t
                    &&& (cand_accepts_v(*old(self)) ==> {
                        &&& final(self).t0 * final(self).dt == old(self).t0 * old(self).dt
                            + old(self).dt
                        &&& final(self).last_t == cand_t1_v(*old(self))
                        &&& final(self).steps@.last().q0 == old(self).last_q
                        &&& final(self).steps@.last().q1.x == cand_q1_v(*old(self)).0
                        &&& final(self).steps@.last().q1.y == cand_q1_v(*old(self)).1
                        &&& final(self).steps@.last().forced == false
                    })
                    &&& final(self).forced_count == old(self).forced_count + (
                    if final(self).steps@.last().forced {
                        1int
                    } else {
                        0int
                    })
                },
                Ok(None) => *final(self) == *old(self) && (old(self).done() || old(self).failed),
                Err(e) => {
                    &&& e == FitError::InvalidArgument
                    &&& final(self).failed
                    &&& !final(self).done()
                    &&& final(self).segs@ == old(self).segs@
                    &&& final(self).steps@ == old(self).steps@
                    &&& !cand_chord_ok_v(*final(self))
                },
            },
    {
        if self.failed {
            return Ok(None);
        }
        let pos = self.t0 * self.dt;
        if pos == FIT_POS_END {
            return Ok(None);
        }
        loop
            invariant
                !old(self).failed,
                !old(self).done(),
                call_fails_v(*old(self)) == call_fails_v(*self),
                fit_fails_from(*old(self)) == fit_fails_from(*self),
                cand_accepts_v(*old(self)) ==> *self == *old(self),
                self.wf(),
                !self.failed,
                !self.done(),
                self.c == old(self).c,
                self.tolerance == old(self).tolerance,
                self.segs@ == old(self).segs@,
                self.steps@ == old(self).steps@,
                self.forced_count == old(self).forced_count,
                self.last_p == old(self).last_p,
                self.last_q == old(self).last_q,
                self.last_t == old(self).last_t,
            decreases self.dt,
        {
            let ghost pre = *self;
            match self.step_once() {
                StepOutcome::Emitted(seg) => {
                    proof {
                        reveal_with_fuel(call_fails_v, 2);
                        assert(!call_fails_v(pre));
                        assert(fit_fails_from(pre) == fit_fails_from(accept_state_v(pre)));
                        assert(*self == accept_state_v(pre));
                    }
                    return Ok(Some(seg));
                },
                StepOutcome::Split => {
                    proof {
                        reveal_with_fuel(call_fails_v, 2);
                        assert(*self == bisect_v(pre));
                        assert(call_fails_v(pre) == call_fails_v(*self));
                        assert(fit_fails_from(pre) == fit_fails_from(*self));
                    }
                },
                StepOutcome::Degenerate => {
                    proof {
                        reveal_with_fuel(call_fails_v, 2);
                        assert(call_fails_v(pre));
                        assert(fit_fails_from(pre));
                    }
                    return Err(FitError::InvalidArgument);
                },
            }
        }
    }
}

/// Absolute error estimate recorded for one history entry: the
/// closed-form normalized error of its shape parameters times its chord
/// length.
pub open spec fn step_err_v(sg: EulerSeg, st: FitStep) -> int {
    let dtv = fxsub_v(st.t1 as int, st.t0 as int);
    let cp = cubic_params_from_points_derivs_v(
        Vec2 { x: sg.p0.x, y: sg.p0.y },
        Vec2 { x: sg.p1.x, y: sg.p1.y },
        st.q0,
        st.q1,
        dtv,
    );
    fxmul_v(
        est_euler_err_v(cp.0, cp.1, cp.2, cp.3),
        len2_v(
            fxsub_v(sg.p0.x as int, sg.p1.x as int),
            fxsub_v(sg.p0.y as int, sg.p1.y as int),
        ),
    )
}

/// Domain-partition law.  The segments a well-formed fit has emitted
/// tile the parameter domain from zero without gaps or overlaps, and are
/// contiguous in the plane: each segment's parameter interval begins
/// where the previous one ended, each segment's start point is the
/// previous segment's end point, and the first segment starts exactly at
/// the curve's first control point.  When the whole domain is covered,
/// the last interval ends exactly at one and the last segment ends
/// exactly at the curve's last control point; in particular a curve fit
/// by a single segment has that segment's endpoints exactly at the
/// curve's outer control points.
pub proof fn lemma_fit_partition(it: CubicToEulerIter)
    requires
        it.wf(),
    ensures
        it.segs@.len() == it.steps@.len(),
        it.segs@.len() > 0 ==> it.steps@[0].t0 == 0,
        it.segs@.len() > 0 ==> it.segs@[0].p0.x == it.c.p0.x && it.segs@[0].p0.y == it.c.p0.y,
        forall|i: int|
            0 <= i < it.segs@.len() - 1 ==> #[trigger] it.steps@[i].t1 == it.steps@[i + 1].t0,
        forall|i: int|
            0 <= i < it.segs@.len() - 1 ==> #[trigger] it.segs@[i].p1 == it.segs@[i + 1].p0,
        forall|i: int|
            0 <= i < it.segs@.len() ==> 0 <= #[trigger] it.steps@[i].t0 < it.steps@[i].t1
                <= FX_ONE,
        forall|i: int|
            0 <= i < it.segs@.len() ==> (#[trigger] it.steps@[i].forced || step_err_v(
                it.segs@[i],
                it.steps@[i],
            ) <= it.tolerance),
        it.done() && it.segs@.len() > 0 ==> it.steps@[it.steps@.len() - 1].t1 == FX_ONE,
        it.done() && it.segs@.len() > 0 ==> {
            &&& it.segs@[it.segs@.len() - 1].p1.x == it.c.p3.x
            &&& it.segs@[it.segs@.len() - 1].p1.y == it.c.p3.y
        },
{
    assert forall|i: int|
        0 <= i < it.segs@.len() implies 0 <= #[trigger] it.steps@[i].t0 < it.steps@[i].t1
        <= FX_ONE by {
        assert(it.step_ok(i));
    }
    assert forall|i: int|
        0 <= i < it.segs@.len() implies (#[trigger] it.steps@[i].forced || step_err_v(
        it.segs@[i],
        it.steps@[i],
    ) <= it.tolerance) by {
        assert(it.step_ok(i));
    }
    if it.done() && it.segs@.len() > 0 {
        let last = it.segs@.len() - 1;
        assert(it.step_ok(last));
        assert(it.steps@[last].t1 == FX_ONE);
        lemma_cubic_eval_at_one(it.c);
    }
}

/// Resource bound: the number of emitted segments never exceeds the
/// number of smallest intervals in the domain, so every fit terminates
/// after at most that many segments — a caller never needs to impose an
/// external segment budget.
pub proof fn lemma_segment_count_bounded(it: CubicToEulerIter)
    requires
        it.wf(),
    ensures
        it.segs@.len() <= 0x1_0000_0000u64,
{
}

/// Tolerance monotonicity of acceptance.  Every history entry that was
/// accepted by the error test (not forced at the smallest width) is
/// accepted under any tolerance at least as large: lowering the
/// tolerance can only reject more candidate intervals, never fewer.
pub proof fn lemma_accept_monotone_in_tolerance(
    it: CubicToEulerIter,
    i: int,
    tol2: i128,
)
    requires
        it.wf(),
        0 <= i < it.segs@.len(),
        !it.steps@[i].forced,
        it.tolerance <= tol2,
    ensures
        step_err_v(it.segs@[i], it.steps@[i]) <= tol2,
{
    assert(it.step_ok(i));
}

/// Degenerate-curvature law.  For a fresh fit of a cubic whose control
/// points are collinear and evenly spaced (each leg equals the same
/// displacement `d`), with a non-degenerate chord and tangent, the very
/// first candidate — the whole domain — is accepted with estimated
/// error exactly zero: the fit yields a single segment covering [0, 1]
/// whose boundary angles are exactly zero, whose curvature coefficients
/// `k0` and `k1` are exactly zero, and whose chord scaling is exactly
/// one, whatever the positive tolerance.
pub proof fn lemma_straight_line_single_segment(it: CubicToEulerIter, dx: i128, dy: i128)
    requires
        it.wf(),
        it.segs@.len() == 0,
        !it.failed,
        it.t0 == 0,
        it.dt == FIT_POS_END,
        it.last_t == 0,
        it.last_p.x == it.c.p0.x,
        it.last_p.y == it.c.p0.y,
        it.last_q.x == dx,
        it.last_q.y == dy,
        it.c.p1.x == it.c.p0.x + dx,
        it.c.p1.y == it.c.p0.y + dy,
        it.c.p2.x == it.c.p0.x + 2 * dx,
        it.c.p2.y == it.c.p0.y + 2 * dy,
        it.c.p3.x == it.c.p0.x + 3 * dx,
        it.c.p3.y == it.c.p0.y + 3 * dy,
        -FX_LIMIT <= 3 * dx <= FX_LIMIT,
        -FX_LIMIT <= 3 * dy <= FX_LIMIT,
        dot2_v(dx as int, dy as int, dx as int, dy as int) >= DERIV_THRESH2,
        chord2_of_v(
            it.c.p0.x as int,
            it.c.p0.y as int,
            it.c.p3.x as int,
            it.c.p3.y as int,
        ) >= MIN_CHORD2,
    ensures
        cand_accepts_v(it),
        !fit_fails_from(it),
        cand_t1_v(it) == FX_ONE,
        cand_err_v(it) == 0,
        cand_p1_v(it).0 == it.c.p3.x && cand_p1_v(it).1 == it.c.p3.y,
        cand_cp_v(it).0 == 0 && cand_cp_v(it).1 == 0,
        fxadd_v(0, 0) == 0,
        ep_k1_v(0, 0) == 0,
        ep_ch_v(0, 0) == FX_ONE,
{
    vstd::arithmetic::power2::lemma2_to64();
    vstd::arithmetic::power2::lemma2_to64_rest();
    lemma_cubic_eval_at_one(it.c);
    let c = it.c;
    let dxi = dx as int;
    let dyi = dy as int;
    assert(cand_t1d_v(it) == FX_ONE);
    assert(fxsub_v(c.p3.x as int, c.p2.x as int) == dxi);
    assert(fxsub_v(c.p3.y as int, c.p2.y as int) == dyi);
    assert(cand_qraw_v(it) == (dxi, dyi));
    assert(!cand_nudge_v(it));
    assert(cand_t1_v(it) == FX_ONE);
    assert(cand_p1_v(it).0 == c.p3.x && cand_p1_v(it).1 == c.p3.y);
    let cxi = fxsub_v(c.p3.x as int, c.p0.x as int);
    let cyi = fxsub_v(c.p3.y as int, c.p0.y as int);
    assert(cxi == 3 * dxi && cyi == 3 * dyi);
    assert(dxi * (3 * dyi) == dyi * (3 * dxi)) by (nonlinear_arith);
    assert((3 * dxi) * dyi == (3 * dyi) * dxi) by (nonlinear_arith);
    assert(cross2_v(cxi, cyi, dxi, dyi) == 0) by {
        assert(fxmul_v(cxi, dyi) == fxmul_v(cyi, dxi));
    }
    assert(cross2_v(dxi, dyi, cxi, cyi) == 0) by {
        assert(fxmul_v(dxi, cyi) == fxmul_v(dyi, cxi));
    }
    assert(dxi * (3 * dxi) >= 0) by (nonlinear_arith);
    assert(dyi * (3 * dyi) >= 0) by (nonlinear_arith);
    let hx = dot2_v(dxi, dyi, cxi, cyi);
    assert(hx >= 0) by {
        vstd::arithmetic::div_mod::lemma_div_pos_is_pos(
            dxi * cxi,
            crate::fixed::FX_SCALE as int,
        );
        vstd::arithmetic::div_mod::lemma_div_pos_is_pos(
            dyi * cyi,
            crate::fixed::FX_SCALE as int,
        );
    }
    crate::trig::lemma_fxatan2_zero(hx);
    reveal(cubic_params_from_points_derivs_v);
    assert(cand_cp_v(it).0 == 0 && cand_cp_v(it).1 == 0);
    crate::euler::lemma_est_err_straight(cand_cp_v(it).2, cand_cp_v(it).3);
    assert(cand_err_v(it) == 0) by {
        crate::fixed::lemma_fxmul_zero(
            len2_v(
                fxsub_v(it.last_p.x as int, cand_p1_v(it).0),
                fxsub_v(it.last_p.y as int, cand_p1_v(it).1),
            ),
        );
    }
    assert(cand_chord_ok_v(it));
    crate::euler::lemma_euler_params_straight();
    assert(!fit_fails_from(it)) by {
        reveal_with_fuel(fit_fails_from, 2);
        assert(accept_state_v(it).t0 * accept_state_v(it).dt == FIT_POS_END);
    }
}

/// Unforced fits honor the tolerance everywhere: when the runtime
/// forced-step counter is zero, every emitted segment's recorded
/// absolute error estimate is within the tolerance — the width floor
/// introduced no silent exception into this run.
pub proof fn lemma_unforced_fit_within_tolerance(it: CubicToEulerIter)
    requires
        it.wf(),
        it.forced_count == 0,
    ensures
        forall|i: int| 0 <= i < it.steps@.len() ==> !(#[trigger] it.steps@[i]).forced,
        forall|i: int|
            0 <= i < it.segs@.len() ==> step_err_v(it.segs@[i], #[trigger] it.steps@[i])
                <= it.tolerance,
{
    lemma_count_forced_zero(it.steps@);
    assert forall|i: int|
        0 <= i < it.segs@.len() implies step_err_v(it.segs@[i], #[trigger] it.steps@[i])
        <= it.tolerance by {
        assert(it.step_ok(i));
        assert(!it.steps@[i].forced);
    }
}

/// What testing one candidate interval produced.
enum StepOutcome {
    /// The interval was accepted and this segment emitted.
    Emitted(EulerSeg),
    /// The interval was rejected and bisected.
    Split,
    /// A degenerate chord was found; the fit has failed.
    Degenerate,
}

} // verus!
