//! Sine, cosine and two-argument arctangent on fixed-point scalars.
//!
//! The sine reduces its argument modulo 2π, folds it into [−π/2, π/2] and
//! evaluates an odd Taylor polynomial through degree 19.  The arctangent
//! halves its argument three times through `t ↦ t / (1 + sqrt(1 + t²))`
//! and evaluates an odd Taylor polynomial through degree 13.  Every result
//! is pinned exactly to its spec mirror.

use crate::fixed::FX_ONE;
use vstd::math::abs;
use crate::fixed::FX_SCALE;
use crate::fixed::fx_ok;
use crate::fixed::fxadd;
use crate::fixed::fxadd_v;
use crate::fixed::fxdiv;
use crate::fixed::fxdiv_v;
use crate::fixed::fxmul;
use crate::fixed::fxmul_v;
use crate::fixed::fxsqrt;
use crate::fixed::fxsqrt_v;
use crate::fixed::fxsub;
use crate::fixed::fxsub_v;
use crate::fixed::lemma_fxdiv_unit;
use vstd::prelude::*;

verus! {

/// Fixed-point π.
pub const FX_PI: i128 = 884279719003555;

/// Fixed-point 2π (exactly twice `FX_PI`).
pub const FX_TWO_PI: i128 = 1768559438007110;

/// Fixed-point π/2.
pub const FX_HALF_PI: i128 = 442139859501777;

/// Sine-series factor 1/(2·3).
pub const SIN_C3: i128 = 46912496118442;

/// Sine-series factor 1/(4·5).
pub const SIN_C5: i128 = 14073748835532;

/// Sine-series factor 1/(6·7).
pub const SIN_C7: i128 = 6701785159777;

/// Sine-series factor 1/(8·9).
pub const SIN_C9: i128 = 3909374676536;

/// Sine-series factor 1/(10·11).
pub const SIN_C11: i128 = 2558863424642;

/// Sine-series factor 1/(12·13).
pub const SIN_C13: i128 = 1804326773786;

/// Sine-series factor 1/(14·15).
pub const SIN_C15: i128 = 1340357031955;

/// Sine-series factor 1/(16·17).
pub const SIN_C17: i128 = 1034834473200;

/// Sine-series factor 1/(18·19).
pub const SIN_C19: i128 = 823026247691;

/// Arctangent-series coefficient 1/3.
pub const ATAN_C3: i128 = 93824992236885;

/// Arctangent-series coefficient 1/5.
pub const ATAN_C5: i128 = 56294995342131;

/// Arctangent-series coefficient 1/7.
pub const ATAN_C7: i128 = 40210710958665;

/// Arctangent-series coefficient 1/9.
pub const ATAN_C9: i128 = 31274997412295;

/// Arctangent-series coefficient 1/11.
pub const ATAN_C11: i128 = 25588634246423;

/// Arctangent-series coefficient 1/13.
pub const ATAN_C13: i128 = 21651921285435;

/// Remainder of truncating division by 2π.
pub open spec fn red_two_pi_v(x: int) -> int {
    if x >= 0 {
        x % (FX_TWO_PI as int)
    } else {
        -((-x) % (FX_TWO_PI as int))
    }
}

/// Fold a remainder of 2π into [−π, π].
pub open spec fn fold_pi_v(r: int) -> int {
    if r > FX_PI {
        r - FX_TWO_PI
    } else if r < -FX_PI {
        r + FX_TWO_PI
    } else {
        r
    }
}

/// Fold an angle in [−π, π] into [−π/2, π/2], keeping its sine.
pub open spec fn fold_half_v(r: int) -> int {
    if r > FX_HALF_PI {
        FX_PI - r
    } else if r < -FX_HALF_PI {
        -FX_PI - r
    } else {
        r
    }
}

/// Odd Taylor polynomial of the sine through degree 19.
pub open spec fn sin_poly_v(y: int) -> int {
    let y2 = fxmul_v(y, y);
    let t = fxsub_v(FX_ONE as int, fxmul_v(y2, SIN_C19 as int));
    let t = fxsub_v(FX_ONE as int, fxmul_v(fxmul_v(y2, SIN_C17 as int), t));
    let t = fxsub_v(FX_ONE as int, fxmul_v(fxmul_v(y2, SIN_C15 as int), t));
    let t = fxsub_v(FX_ONE as int, fxmul_v(fxmul_v(y2, SIN_C13 as int), t));
    let t = fxsub_v(FX_ONE as int, fxmul_v(fxmul_v(y2, SIN_C11 as int), t));
    let t = fxsub_v(FX_ONE as int, fxmul_v(fxmul_v(y2, SIN_C9 as int), t));
    let t = fxsub_v(FX_ONE as int, fxmul_v(fxmul_v(y2, SIN_C7 as int), t));
    let t = fxsub_v(FX_ONE as int, fxmul_v(fxmul_v(y2, SIN_C5 as int), t));
    let t = fxsub_v(FX_ONE as int, fxmul_v(fxmul_v(y2, SIN_C3 as int), t));
    fxmul_v(y, t)
}

/// What the fixed-point sine yields.
#[verifier::opaque]
pub open spec fn fxsin_v(x: int) -> int {
    sin_poly_v(fold_half_v(fold_pi_v(red_two_pi_v(x))))
}

/// What the fixed-point cosine yields.
#[verifier::opaque]
pub open spec fn fxcos_v(x: int) -> int {
    fxsin_v(fxsub_v(FX_HALF_PI as int, x))
}

/// Remainder of truncating division by 2π.
fn red_two_pi(x: i128) -> (r: i128)
    requires
        fx_ok(x),
    ensures
        r == red_two_pi_v(x as int),
        -FX_TWO_PI < r < FX_TWO_PI,
{
    if x >= 0 {
        let m = (x as u128) % (FX_TWO_PI as u128);
        m as i128
    } else {
        let m = ((-x) as u128) % (FX_TWO_PI as u128);
        -(m as i128)
    }
}

/// Fixed-point sine.
pub fn fxsin(x: i128) -> (r: i128)
    requires
        fx_ok(x),
    ensures
        fx_ok(r),
        r == fxsin_v(x as int),
{
    proof {
        reveal(fxsin_v);
    }
    let r0 = red_two_pi(x);
    let r1 = if r0 > FX_PI {
        r0 - FX_TWO_PI
    } else if r0 < -FX_PI {
        r0 + FX_TWO_PI
    } else {
        r0
    };
    let y = if r1 > FX_HALF_PI {
        FX_PI - r1
    } else if r1 < -FX_HALF_PI {
        -FX_PI - r1
    } else {
        r1
    };
    let y2 = fxmul(y, y);
    let t = fxsub(FX_ONE, fxmul(y2, SIN_C19));
    let t = fxsub(FX_ONE, fxmul(fxmul(y2, SIN_C17), t));
    let t = fxsub(FX_ONE, fxmul(fxmul(y2, SIN_C15), t));
    let t = fxsub(FX_ONE, fxmul(fxmul(y2, SIN_C13), t));
    let t = fxsub(FX_ONE, fxmul(fxmul(y2, SIN_C11), t));
    let t = fxsub(FX_ONE, fxmul(fxmul(y2, SIN_C9), t));
    let t = fxsub(FX_ONE, fxmul(fxmul(y2, SIN_C7), t));
    let t = fxsub(FX_ONE, fxmul(fxmul(y2, SIN_C5), t));
    let t = fxsub(FX_ONE, fxmul(fxmul(y2, SIN_C3), t));
    fxmul(y, t)
}

/// Fixed-point cosine.
pub fn fxcos(x: i128) -> (r: i128)
    requires
        fx_ok(x),
    ensures
        fx_ok(r),
        r == fxcos_v(x as int),
{
    proof {
        reveal(fxcos_v);
    }
    fxsin(fxsub(FX_HALF_PI, x))
}

/// One halving of the arctangent argument: `t / (1 + sqrt(1 + t²))`.
pub open spec fn atan_halve_v(t: int) -> int {
    fxdiv_v(t, fxadd_v(FX_ONE as int, fxsqrt_v(fxadd_v(FX_ONE as int, fxmul_v(t, t)))))
}

/// Odd Taylor polynomial of the arctangent through degree 13.
pub open spec fn atan_poly_v(z: int) -> int {
    let z2 = fxmul_v(z, z);
    let q = ATAN_C13 as int;
    let q = fxsub_v(ATAN_C11 as int, fxmul_v(z2, q));
    let q = fxsub_v(ATAN_C9 as int, fxmul_v(z2, q));
    let q = fxsub_v(ATAN_C7 as int, fxmul_v(z2, q));
    let q = fxsub_v(ATAN_C5 as int, fxmul_v(z2, q));
    let q = fxsub_v(ATAN_C3 as int, fxmul_v(z2, q));
    fxmul_v(z, fxsub_v(FX_ONE as int, fxmul_v(z2, q)))
}

/// Clamp an angle into [0, π/2].
pub open spec fn clamp_half_pi_v(a: int) -> int {
    if a < 0 {
        0
    } else if a > FX_HALF_PI {
        FX_HALF_PI as int
    } else {
        a
    }
}

/// Arctangent of an argument in [0, 1]: three halvings, then the series.
#[verifier::opaque]
pub open spec fn atan_core_v(t: int) -> int {
    let t3 = atan_halve_v(atan_halve_v(atan_halve_v(t)));
    clamp_half_pi_v(8 * atan_poly_v(t3))
}

/// The sine of zero is exactly zero.
pub proof fn lemma_fxsin_zero()
    ensures
        fxsin_v(0) == 0,
{
    reveal(fxsin_v);
    vstd::arithmetic::div_mod::lemma_mod_self_0(FX_TWO_PI as int);
    vstd::arithmetic::div_mod::lemma_small_mod(0nat, FX_TWO_PI as nat);
    assert(red_two_pi_v(0) == 0);
    assert forall|x: int| #[trigger] crate::fixed::fxmul_v(0, x) == 0 && crate::fixed::fxmul_v(
        x,
        0,
    ) == 0 by {
        crate::fixed::lemma_fxmul_zero(x);
    }
}

/// The arctangent of zero over a nonnegative abscissa is exactly zero.
pub proof fn lemma_fxatan2_zero(x: int)
    requires
        x >= 0,
    ensures
        fxatan2_v(0, x) == 0,
{
    reveal(fxatan2_v);
    reveal(atan_core_v);
    if x != 0 {
        assert forall|z: int| #[trigger] crate::fixed::fxmul_v(0, z) == 0
            && crate::fixed::fxmul_v(z, 0) == 0 by {
            crate::fixed::lemma_fxmul_zero(z);
        }
        crate::fixed::lemma_fxdiv_zero(x);
        assert(fxdiv_v(0, x) == 0);
        crate::fixed::lemma_fxsqrt_one();
        assert(fxadd_v(FX_ONE as int, 0) == FX_ONE);
        assert(fxsqrt_v(fxadd_v(FX_ONE as int, crate::fixed::fxmul_v(0, 0))) == FX_ONE);
        crate::fixed::lemma_fxdiv_zero(fxadd_v(FX_ONE as int, FX_ONE as int));
        assert(atan_halve_v(0) == 0);
        assert(atan_core_v(0) == 0);
    }
}

/// The two-argument arctangent is odd in its ordinate over the closed
/// right half plane.
pub proof fn lemma_fxatan2_odd(y: int, x: int)
    requires
        x >= 0,
    ensures
        fxatan2_v(-y, x) == -fxatan2_v(y, x),
{
    if y == 0 {
        lemma_fxatan2_zero(x);
    } else {
        reveal(fxatan2_v);
    }
}

/// One halving of the arctangent argument.
fn atan_halve(t: i128) -> (r: i128)
    requires
        fx_ok(t),
    ensures
        fx_ok(r),
        r == atan_halve_v(t as int),
{
    let t2 = fxmul(t, t);
    proof {
        assert((t as int) * (t as int) >= 0) by (nonlinear_arith);
        vstd::arithmetic::div_mod::lemma_div_pos_is_pos(
            (t as int) * (t as int),
            FX_SCALE as int,
        );
    }
    let arg = fxadd(FX_ONE, t2);
    let u = fxsqrt(arg);
    let den = fxadd(FX_ONE, u);
    fxdiv(t, den)
}

/// Arctangent of an argument in [0, 1].
fn atan_core(t: i128) -> (r: i128)
    requires
        fx_ok(t),
        0 <= t <= FX_ONE,
    ensures
        r == atan_core_v(t as int),
        0 <= r <= FX_HALF_PI,
{
    proof {
        reveal(atan_core_v);
    }
    let t1 = atan_halve(t);
    let t2 = atan_halve(t1);
    let t3 = atan_halve(t2);
    let z2 = fxmul(t3, t3);
    let q = ATAN_C13;
    let q = fxsub(ATAN_C11, fxmul(z2, q));
    let q = fxsub(ATAN_C9, fxmul(z2, q));
    let q = fxsub(ATAN_C7, fxmul(z2, q));
    let q = fxsub(ATAN_C5, fxmul(z2, q));
    let q = fxsub(ATAN_C3, fxmul(z2, q));
    let p = fxmul(t3, fxsub(FX_ONE, fxmul(z2, q)));
    let a = 8 * p;
    if a < 0 {
        0
    } else if a > FX_HALF_PI {
        FX_HALF_PI
    } else {
        a
    }
}

/// What the fixed-point two-argument arctangent yields.
#[verifier::opaque]
pub open spec fn fxatan2_v(y: int, x: int) -> int {
    if y == 0 && x == 0 {
        0
    } else {
        let ay = if y >= 0 {
            y
        } else {
            -y
        };
        let ax = if x >= 0 {
            x
        } else {
            -x
        };
        if ax >= ay {
            let ang = atan_core_v(fxdiv_v(ay, ax));
            if x >= 0 {
                if y >= 0 {
                    ang
                } else {
                    -ang
                }
            } else {
                if y >= 0 {
                    FX_PI - ang
                } else {
                    ang - FX_PI
                }
            }
        } else {
            let ang = atan_core_v(fxdiv_v(ax, ay));
            if y >= 0 {
                if x >= 0 {
                    FX_HALF_PI - ang
                } else {
                    FX_HALF_PI + ang
                }
            } else {
                if x >= 0 {
                    ang - FX_HALF_PI
                } else {
                    -FX_HALF_PI - ang
                }
            }
        }
    }
}

/// Fixed-point two-argument arctangent.
///
/// The result lies in [−π, π]; the angle of the positive x axis is zero
/// and angles grow counterclockwise.  Both arguments zero yields zero.
pub fn fxatan2(y: i128, x: i128) -> (r: i128)
    requires
        fx_ok(y),
        fx_ok(x),
    ensures
        fx_ok(r),
        r == fxatan2_v(y as int, x as int),
        -FX_PI <= r <= FX_PI,
{
    proof {
        reveal(fxatan2_v);
    }
    if y == 0 && x == 0 {
        0
    } else {
        let ay = if y >= 0 {
            y
        } else {
            -y
        };
        let ax = if x >= 0 {
            x
        } else {
            -x
        };
        if ax >= ay {
            proof {
                lemma_fxdiv_unit(ay as int, ax as int);
                vstd::arithmetic::div_mod::lemma_div_pos_is_pos(
                    abs(ay as int) * (FX_SCALE as int),
                    abs(ax as int) as int,
                );
            }
            let ang = atan_core(fxdiv(ay, ax));
            if x >= 0 {
                if y >= 0 {
                    ang
                } else {
                    -ang
                }
            } else {
                if y >= 0 {
                    FX_PI - ang
                } else {
                    ang - FX_PI
                }
            }
        } else {
            proof {
                lemma_fxdiv_unit(ax as int, ay as int);
                vstd::arithmetic::div_mod::lemma_div_pos_is_pos(
                    abs(ax as int) * (FX_SCALE as int),
                    abs(ay as int) as int,
                );
            }
            let ang = atan_core(fxdiv(ax, ay));
            if y >= 0 {
                if x >= 0 {
                    FX_HALF_PI - ang
                } else {
                    FX_HALF_PI + ang
                }
            } else {
                if x >= 0 {
                    ang - FX_HALF_PI
                } else {
                    -FX_HALF_PI - ang
                }
            }
        }
    }
}

} // verus!
