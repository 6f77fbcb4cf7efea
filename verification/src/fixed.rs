//! Saturating fixed-point scalars.
//!
//! A scalar is an `i128` carrying [`FX_SCALE`] (2^48) units per one.  Every
//! operation truncates toward zero and saturates at magnitude [`FX_LIMIT`]
//! (2^96, that is 2^48 in scaled terms), so all operations are total and
//! their results are stated exactly.

use vstd::math::abs;
use vstd::prelude::*;

verus! {

/// Number of raw units per one: 2^48.
pub const FX_SCALE: i128 = 0x1_0000_0000_0000;

/// The fixed-point representation of one.
pub const FX_ONE: i128 = 0x1_0000_0000_0000;

/// The fixed-point representation of one half.
pub const FX_HALF: i128 = 0x8000_0000_0000;

/// The fixed-point representation of three.
pub const FX_THREE: i128 = 0x3_0000_0000_0000;

/// Largest magnitude a well-formed scalar may take: 2^96.
pub const FX_LIMIT: i128 = 0x1_0000_0000_0000_0000_0000_0000;

/// `FX_SCALE` as an unsigned value, for internal magnitude arithmetic.
pub const FXU_SCALE: u128 = 0x1_0000_0000_0000;

/// `FX_LIMIT` as an unsigned value, for internal magnitude arithmetic.
pub const FXU_LIMIT: u128 = 0x1_0000_0000_0000_0000_0000_0000;

/// A scalar is well formed when its magnitude is at most `FX_LIMIT`.
pub open spec fn fx_ok(a: i128) -> bool {
    -FX_LIMIT <= a <= FX_LIMIT
}

/// Clamp an unbounded integer into the representable range.
pub open spec fn sat_v(v: int) -> int {
    if v > FX_LIMIT {
        FX_LIMIT as int
    } else if v < -FX_LIMIT {
        -(FX_LIMIT as int)
    } else {
        v
    }
}

/// Truncate-toward-zero division of a raw product by the scale.
pub open spec fn shr48_v(p: int) -> int {
    if p >= 0 {
        p / (FX_SCALE as int)
    } else {
        -((-p) / (FX_SCALE as int))
    }
}

/// What saturating addition yields.
pub open spec fn fxadd_v(a: int, b: int) -> int {
    sat_v(a + b)
}

/// What saturating subtraction yields.
pub open spec fn fxsub_v(a: int, b: int) -> int {
    sat_v(a - b)
}

/// What fixed-point multiplication yields.
pub open spec fn fxmul_v(a: int, b: int) -> int {
    sat_v(shr48_v(a * b))
}

/// Magnitude of an integer.
pub open spec fn fxabs_v(a: int) -> int {
    if a < 0 {
        -a
    } else {
        a
    }
}

/// Clamp a nonnegative raw magnitude at `FXU_LIMIT`.
pub open spec fn cap_u(v: int) -> int {
    if v > FXU_LIMIT {
        FXU_LIMIT as int
    } else {
        v
    }
}

/// What fixed-point division yields.  Division by zero saturates with the
/// sign of the dividend; zero over zero is zero.
pub open spec fn fxdiv_v(a: int, b: int) -> int {
    if b == 0 {
        if a == 0 {
            0
        } else if a > 0 {
            FX_LIMIT as int
        } else {
            -(FX_LIMIT as int)
        }
    } else {
        let q = (abs(a) * FX_SCALE) / (abs(b) as int);
        if (a >= 0) == (b >= 0) {
            sat_v(q)
        } else {
            sat_v(-q)
        }
    }
}

/// Magnitude of a well-formed scalar, as an unsigned value.
fn fxmag(a: i128) -> (m: u128)
    requires
        fx_ok(a),
    ensures
        m == abs(a as int),
        m <= FXU_LIMIT,
{
    if a >= 0 {
        a as u128
    } else {
        (-a) as u128
    }
}

/// Scaled product of two magnitudes: `(ma * mb) / 2^48`, capped.
fn mag_mul_shr(ma: u128, mb: u128) -> (m: u128)
    requires
        ma <= FXU_LIMIT,
        mb <= FXU_LIMIT,
    ensures
        m == cap_u((ma * mb) / (FXU_SCALE as int)),
        m <= FXU_LIMIT,
{
    let ha = ma / FXU_SCALE;
    let la = ma % FXU_SCALE;
    let hb = mb / FXU_SCALE;
    let lb = mb % FXU_SCALE;
    proof {
        vstd::arithmetic::div_mod::lemma_fundamental_div_mod(ma as int, FXU_SCALE as int);
        vstd::arithmetic::div_mod::lemma_fundamental_div_mod(mb as int, FXU_SCALE as int);
        assert(ha <= FXU_SCALE) by {
            vstd::arithmetic::div_mod::lemma_div_is_ordered(
                ma as int,
                FXU_LIMIT as int,
                FXU_SCALE as int,
            );
        }
        assert(hb <= FXU_SCALE) by {
            vstd::arithmetic::div_mod::lemma_div_is_ordered(
                mb as int,
                FXU_LIMIT as int,
                FXU_SCALE as int,
            );
        }
    }
    proof {
        assert(ha * hb <= FXU_LIMIT) by (nonlinear_arith)
            requires
                0 <= ha <= FXU_SCALE,
                0 <= hb <= FXU_SCALE,
                FXU_SCALE == 0x1_0000_0000_0000u128,
                FXU_LIMIT == FXU_SCALE * FXU_SCALE,
        ;
    }
    let hh = ha * hb;
    if hh >= FXU_SCALE {
        proof {
            assert(ma * mb >= (FXU_SCALE * FXU_SCALE) * FXU_SCALE) by (nonlinear_arith)
                requires
                    ma >= FXU_SCALE * ha,
                    mb >= FXU_SCALE * hb,
                    ha * hb >= FXU_SCALE,
                    ha >= 0,
                    hb >= 0,
                    ma >= 0,
                    mb >= 0,
                    FXU_SCALE == 0x1_0000_0000_0000u128,
            ;
            assert((ma * mb) / (FXU_SCALE as int) >= FXU_LIMIT) by {
                vstd::arithmetic::div_mod::lemma_div_is_ordered(
                    (FXU_SCALE * FXU_SCALE) * (FXU_SCALE as int),
                    ma * mb,
                    FXU_SCALE as int,
                );
                vstd::arithmetic::div_mod::lemma_div_multiples_vanish(
                    (FXU_SCALE * FXU_SCALE) as int,
                    FXU_SCALE as int,
                );
            }
        }
        FXU_LIMIT
    } else {
        proof {
            assert(ha * lb <= FXU_LIMIT) by (nonlinear_arith)
                requires
                    0 <= ha <= FXU_SCALE,
                    0 <= lb < FXU_SCALE,
                    FXU_SCALE == 0x1_0000_0000_0000u128,
                    FXU_LIMIT == FXU_SCALE * FXU_SCALE,
            ;
            assert(la * hb <= FXU_LIMIT) by (nonlinear_arith)
                requires
                    0 <= la < FXU_SCALE,
                    0 <= hb <= FXU_SCALE,
                    FXU_SCALE == 0x1_0000_0000_0000u128,
                    FXU_LIMIT == FXU_SCALE * FXU_SCALE,
            ;
            assert(la * lb <= FXU_LIMIT) by (nonlinear_arith)
                requires
                    0 <= la < FXU_SCALE,
                    0 <= lb < FXU_SCALE,
                    FXU_SCALE == 0x1_0000_0000_0000u128,
                    FXU_LIMIT == FXU_SCALE * FXU_SCALE,
            ;
        }
        let t = hh * FXU_SCALE + ha * lb + la * hb + (la * lb) / FXU_SCALE;
        proof {
            let s = FXU_SCALE as int;
            let body = hh * s + ha * lb + la * hb;
            assert(ma * mb == la * lb + body * s) by (nonlinear_arith)
                requires
                    ma == s * ha + la,
                    mb == s * hb + lb,
                    hh == ha * hb,
                    body == hh * s + ha * lb + la * hb,
            ;
            assert((la * lb) / s + body == (la * lb + body * s) / s) by {
                vstd::arithmetic::div_mod::lemma_hoist_over_denominator(
                    la * lb,
                    body,
                    FXU_SCALE as nat,
                );
            }
        }
        if t > FXU_LIMIT {
            FXU_LIMIT
        } else {
            t
        }
    }
}

/// Half of the scale's bits: 2^24, used by long division.
const FXU_HALF: u128 = 0x100_0000;

/// Scaled quotient of two magnitudes: `(ma * 2^48) / mb`, capped.
fn mag_div_shl(ma: u128, mb: u128) -> (m: u128)
    requires
        1 <= mb <= FXU_LIMIT,
        ma <= FXU_LIMIT,
    ensures
        m == cap_u((ma * FXU_SCALE) / (mb as int)),
        m <= FXU_LIMIT,
{
    let q0 = ma / mb;
    proof {
        vstd::arithmetic::div_mod::lemma_fundamental_div_mod(ma as int, mb as int);
    }
    if q0 >= FXU_SCALE {
        proof {
            let s = FXU_SCALE as int;
            assert(ma * s >= (s * s) * mb) by (nonlinear_arith)
                requires
                    ma >= q0 * mb,
                    q0 >= s,
                    mb >= 1,
                    ma >= 0,
                    s == 0x1_0000_0000_0000,
            ;
            assert((ma * s) / (mb as int) >= FXU_LIMIT) by {
                vstd::arithmetic::div_mod::lemma_div_is_ordered(
                    (s * s) * (mb as int),
                    ma * s,
                    mb as int,
                );
                vstd::arithmetic::div_mod::lemma_div_multiples_vanish(s * s, mb as int);
                vstd::arithmetic::mul::lemma_mul_is_commutative(s * s, mb as int);
            }
        }
        FXU_LIMIT
    } else {
        let r0 = ma % mb;
        let q1 = (r0 * FXU_HALF) / mb;
        let r1 = (r0 * FXU_HALF) % mb;
        let q2 = (r1 * FXU_HALF) / mb;
        proof {
            vstd::arithmetic::div_mod::lemma_fundamental_div_mod(
                (r0 * FXU_HALF) as int,
                mb as int,
            );
            vstd::arithmetic::div_mod::lemma_fundamental_div_mod(
                (r1 * FXU_HALF) as int,
                mb as int,
            );
            assert(q1 < FXU_HALF) by {
                vstd::arithmetic::div_mod::lemma_multiply_divide_lt(
                    (r0 * FXU_HALF) as int,
                    mb as int,
                    FXU_HALF as int,
                );
                vstd::arithmetic::mul::lemma_mul_strict_inequality(
                    r0 as int,
                    mb as int,
                    FXU_HALF as int,
                );
                vstd::arithmetic::mul::lemma_mul_is_commutative(r0 as int, FXU_HALF as int);
                vstd::arithmetic::mul::lemma_mul_is_commutative(mb as int, FXU_HALF as int);
            }
            assert(q2 < FXU_HALF) by {
                vstd::arithmetic::div_mod::lemma_multiply_divide_lt(
                    (r1 * FXU_HALF) as int,
                    mb as int,
                    FXU_HALF as int,
                );
                vstd::arithmetic::mul::lemma_mul_strict_inequality(
                    r1 as int,
                    mb as int,
                    FXU_HALF as int,
                );
                vstd::arithmetic::mul::lemma_mul_is_commutative(r1 as int, FXU_HALF as int);
                vstd::arithmetic::mul::lemma_mul_is_commutative(mb as int, FXU_HALF as int);
            }
        }
        let t = q0 * FXU_SCALE + (q1 * FXU_HALF + q2);
        proof {
            let s = FXU_SCALE as int;
            let h = FXU_HALF as int;
            let q = q0 * s + (q1 * h + q2);
            let r2 = (r1 * FXU_HALF) as int % (mb as int);
            assert(ma * s == q * mb + r2) by (nonlinear_arith)
                requires
                    ma == q0 * mb + r0,
                    r0 * h == q1 * mb + r1,
                    r1 * h == q2 * mb + r2,
                    s == h * h,
                    q == q0 * s + (q1 * h + q2),
            ;
            assert(q == (ma * s) / (mb as int)) by {
                vstd::arithmetic::div_mod::lemma_fundamental_div_mod_converse(
                    ma * s,
                    mb as int,
                    q,
                    r2,
                );
            }
        }
        t
    }
}

/// Fixed-point division: truncating, saturating; division by zero
/// saturates with the dividend's sign.
pub fn fxdiv(a: i128, b: i128) -> (r: i128)
    requires
        fx_ok(a),
        fx_ok(b),
    ensures
        fx_ok(r),
        r == fxdiv_v(a as int, b as int),
{
    if b == 0 {
        if a == 0 {
            0
        } else if a > 0 {
            FX_LIMIT
        } else {
            -FX_LIMIT
        }
    } else {
        let neg = (a < 0) != (b < 0);
        let ma = fxmag(a);
        let mb = fxmag(b);
        let m = mag_div_shl(ma, mb);
        if neg {
            -(m as i128)
        } else {
            m as i128
        }
    }
}

/// Fixed-point multiplication: truncating, saturating.
pub fn fxmul(a: i128, b: i128) -> (r: i128)
    requires
        fx_ok(a),
        fx_ok(b),
    ensures
        fx_ok(r),
        r == fxmul_v(a as int, b as int),
{
    let neg = (a < 0) != (b < 0);
    let ma = fxmag(a);
    let mb = fxmag(b);
    proof {
        assert(ma * mb == abs((a as int) * (b as int))) by (nonlinear_arith)
            requires
                ma == abs(a as int),
                mb == abs(b as int),
        ;
        assert(((a as int) * (b as int) < 0) ==> ((a < 0) != (b < 0))) by (nonlinear_arith);
        assert(((a as int) * (b as int) > 0) ==> ((a < 0) == (b < 0))) by (nonlinear_arith);
    }
    let m = mag_mul_shr(ma, mb);
    proof {
        vstd::arithmetic::div_mod::lemma_div_pos_is_pos(
            (ma * mb) as int,
            FXU_SCALE as int,
        );
    }
    if neg {
        -(m as i128)
    } else {
        m as i128
    }
}

/// Integer square root, rounded down, by binary recursion.
pub open spec fn isqrt_v(n: int) -> int
    decreases n,
{
    if n <= 0 {
        0
    } else if n == 1 {
        1
    } else {
        let s = 2 * isqrt_v(n / 4);
        if (s + 1) * (s + 1) <= n {
            s + 1
        } else {
            s
        }
    }
}

/// Largest argument `isqrt` accepts: 2^126.
pub const ISQRT_CAP: u128 = 0x4000_0000_0000_0000_0000_0000_0000_0000;

/// Integer square root, rounded down.
pub fn isqrt(n: u128) -> (r: u128)
    requires
        n <= ISQRT_CAP,
    ensures
        r == isqrt_v(n as int),
        r * r <= n,
        n < (r + 1) * (r + 1),
    decreases n,
{
    if n <= 1 {
        proof {
            assert(n < (n + 1) * (n + 1)) by (nonlinear_arith)
                requires
                    0 <= n <= 1,
            ;
            assert(n * n <= n) by (nonlinear_arith)
                requires
                    0 <= n <= 1,
            ;
        }
        n
    } else {
        let s2 = isqrt(n / 4);
        proof {
            vstd::arithmetic::div_mod::lemma_fundamental_div_mod(n as int, 4);
            assert(s2 <= 0x4000_0000_0000_0000u128) by (nonlinear_arith)
                requires
                    s2 * s2 <= n / 4,
                    n <= 0x4000_0000_0000_0000_0000_0000_0000_0000u128,
                    s2 >= 0,
                    n >= 0,
            ;
        }
        let s = 2 * s2;
        let c = s + 1;
        proof {
            assert(c * c < 0x8000_0000_0000_0000_0000_0000_0000_0000u128) by (nonlinear_arith)
                requires
                    0 <= c <= 0x8000_0000_0000_0001u128,
            ;
            assert(s * s == 4 * (s2 * s2)) by (nonlinear_arith)
                requires
                    s == 2 * s2,
            ;
            assert((s + 2) * (s + 2) == 4 * ((s2 + 1) * (s2 + 1))) by (nonlinear_arith)
                requires
                    s == 2 * s2,
            ;
            assert(s * s <= n) by {
                assert(4 * (s2 * s2) <= 4 * ((n as int) / 4));
            }
            assert((n as int) < (s + 2) * (s + 2)) by {
                assert((n as int) / 4 + 1 <= (s2 + 1) * (s2 + 1));
                assert(4 * ((n as int) / 4 + 1) <= 4 * ((s2 + 1) * (s2 + 1)));
            }
        }
        if c * c <= n {
            c
        } else {
            s
        }
    }
}

/// Cap above which `fxsqrt` first scales its argument down: 2^78 raw.
pub const FX_SQRT_CAP: i128 = 0x4000_0000_0000_0000_0000;

/// What the fixed-point square root yields.
pub open spec fn fxsqrt_v(x: int) -> int {
    if x > FX_SQRT_CAP {
        isqrt_v((x / 0x40000) * FX_SCALE) * 0x200
    } else {
        isqrt_v(x * FX_SCALE)
    }
}

/// Fixed-point square root of a nonnegative scalar.
///
/// Exact (rounded down in the last place) up to `FX_SQRT_CAP`; a larger
/// argument is scaled down by 2^18 first and the root scaled back up.
pub fn fxsqrt(x: i128) -> (r: i128)
    requires
        fx_ok(x),
        x >= 0,
    ensures
        fx_ok(r),
        r >= 0,
        r == fxsqrt_v(x as int),
{
    if x > FX_SQRT_CAP {
        let n = ((x as u128) / 0x40000) * FXU_SCALE;
        let r = isqrt(n);
        proof {
            assert(r <= 0x8000_0000_0000_0000u128) by (nonlinear_arith)
                requires
                    r * r <= n,
                    n <= 0x4000_0000_0000_0000_0000_0000_0000_0000u128,
                    r >= 0,
                    n >= 0,
            ;
        }
        (r as i128) * 0x200
    } else {
        let n = (x as u128) * FXU_SCALE;
        let r = isqrt(n);
        proof {
            assert(r <= 0x8000_0000_0000_0000u128) by (nonlinear_arith)
                requires
                    r * r <= n,
                    n <= 0x4000_0000_0000_0000_0000_0000_0000_0000u128,
                    r >= 0,
                    n >= 0,
            ;
        }
        r as i128
    }
}

/// Integer cube root, rounded down, by binary recursion.
pub open spec fn icbrt_v(n: int) -> int
    decreases n,
{
    if n <= 0 {
        0
    } else if n < 8 {
        1
    } else {
        let s = 2 * icbrt_v(n / 8);
        if (s + 1) * (s + 1) * (s + 1) <= n {
            s + 1
        } else {
            s
        }
    }
}

/// Largest argument `icbrt` accepts: 2^120.
pub const ICBRT_CAP: u128 = 0x100_0000_0000_0000_0000_0000_0000_0000;

/// Integer cube root, rounded down.
pub fn icbrt(n: u128) -> (r: u128)
    requires
        n <= ICBRT_CAP,
    ensures
        r == icbrt_v(n as int),
        r * r * r <= n,
        n < (r + 1) * (r + 1) * (r + 1),
    decreases n,
{
    if n == 0 {
        0
    } else if n < 8 {
        1
    } else {
        let s2 = icbrt(n / 8);
        proof {
            vstd::arithmetic::div_mod::lemma_fundamental_div_mod(n as int, 8);
            assert(s2 <= 0x100_0000_0000u128) by (nonlinear_arith)
                requires
                    s2 * s2 * s2 <= n / 8,
                    n <= 0x100_0000_0000_0000_0000_0000_0000_0000u128,
                    s2 >= 0,
                    n >= 0,
            ;
        }
        let s = 2 * s2;
        let c = s + 1;
        proof {
            assert(c * c <= 0x4_0000_0000_0000_0000_0000_0004u128) by (nonlinear_arith)
                requires
                    0 <= c <= 0x200_0000_0001u128,
            ;
            assert(c * c * c < 0x8000_0000_0000_0000_0000_0000_0000_0000u128) by (nonlinear_arith)
                requires
                    0 <= c <= 0x200_0000_0001u128,
            ;
            assert(s * s * s == 8 * (s2 * s2 * s2)) by (nonlinear_arith)
                requires
                    s == 2 * s2,
            ;
            assert((s + 2) * (s + 2) * (s + 2) == 8 * ((s2 + 1) * (s2 + 1) * (s2 + 1)))
                by (nonlinear_arith)
                requires
                    s == 2 * s2,
            ;
            assert(s * s * s <= n) by {
                assert(8 * (s2 * s2 * s2) <= 8 * ((n as int) / 8));
            }
            assert((n as int) < (s + 2) * (s + 2) * (s + 2)) by {
                assert((n as int) / 8 + 1 <= (s2 + 1) * (s2 + 1) * (s2 + 1));
                assert(8 * ((n as int) / 8 + 1) <= 8 * ((s2 + 1) * (s2 + 1) * (s2 + 1)));
            }
        }
        if c * c * c <= n {
            c
        } else {
            s
        }
    }
}

/// Cap above which `fxcbrt` first scales its argument down: 2^72 raw.
pub const FX_CBRT_CAP: i128 = 0x1000000000000000000;

/// What the fixed-point cube root yields.
pub open spec fn fxcbrt_v(x: int) -> int {
    if x > FX_CBRT_CAP {
        icbrt_v((x / 0x100_0000) * FX_SCALE) * 0x1_0000 * 0x100
    } else {
        icbrt_v(x * FX_SCALE) * 0x1_0000
    }
}

/// Fixed-point cube root of a nonnegative scalar.
///
/// Carries 32 fractional bits of precision (the root of a value scaled by
/// 2^48 has 2^32 scale and is shifted back up by 2^16); a value above
/// `FX_CBRT_CAP` is scaled down by 2^24 first and the root scaled back up.
pub fn fxcbrt(x: i128) -> (r: i128)
    requires
        fx_ok(x),
        x >= 0,
    ensures
        fx_ok(r),
        r >= 0,
        r == fxcbrt_v(x as int),
{
    if x > FX_CBRT_CAP {
        proof {
            vstd::arithmetic::div_mod::lemma_div_is_ordered(
                x as int,
                FXU_LIMIT as int,
                0x100_0000,
            );
        }
        let n = ((x as u128) / 0x100_0000) * FXU_SCALE;
        let r = icbrt(n);
        proof {
            assert(r <= 0x10_0000_0000_0000u128) by (nonlinear_arith)
                requires
                    r * r * r <= n,
                    n <= 0x100_0000_0000_0000_0000_0000_0000_0000u128,
                    r >= 0,
                    n >= 0,
            ;
        }
        (r as i128) * 0x1_0000 * 0x100
    } else {
        let n = (x as u128) * FXU_SCALE;
        let r = icbrt(n);
        proof {
            assert(r <= 0x10_0000_0000_0000u128) by (nonlinear_arith)
                requires
                    r * r * r <= n,
                    n <= 0x100_0000_0000_0000_0000_0000_0000_0000u128,
                    r >= 0,
                    n >= 0,
            ;
        }
        (r as i128) * 0x1_0000
    }
}

/// Euclidean length of a magnitude pair, by scaling recursion.
pub open spec fn hypot_v(x: int, y: int) -> int
    decreases x + y,
{
    if x <= 0x4000_0000_0000_0000 && y <= 0x4000_0000_0000_0000 {
        isqrt_v(x * x + y * y)
    } else if x >= 0 && y >= 0 {
        4 * hypot_v(x / 4, y / 4)
    } else {
        0
    }
}

/// Euclidean length of a magnitude pair.
fn mag_hypot(mx: u128, my: u128) -> (r: u128)
    requires
        mx <= FXU_LIMIT,
        my <= FXU_LIMIT,
    ensures
        r == hypot_v(mx as int, my as int),
        r <= mx + my,
    decreases mx + my,
{
    if mx <= 0x4000_0000_0000_0000 && my <= 0x4000_0000_0000_0000 {
        proof {
            assert(mx * mx <= 0x1000_0000_0000_0000_0000_0000_0000_0000u128) by (nonlinear_arith)
                requires
                    0 <= mx <= 0x4000_0000_0000_0000u128,
            ;
            assert(my * my <= 0x1000_0000_0000_0000_0000_0000_0000_0000u128) by (nonlinear_arith)
                requires
                    0 <= my <= 0x4000_0000_0000_0000u128,
            ;
        }
        let n = mx * mx + my * my;
        let r = isqrt(n);
        proof {
            assert(n < (mx + my + 1) * (mx + my + 1)) by (nonlinear_arith)
                requires
                    n == mx * mx + my * my,
                    mx >= 0,
                    my >= 0,
            ;
            assert(r <= mx + my) by {
                if r > mx + my {
                    assert((mx + my + 1) * (mx + my + 1) <= r * r) by (nonlinear_arith)
                        requires
                            r >= mx + my + 1,
                            mx >= 0,
                            my >= 0,
                    ;
                }
            }
        }
        r
    } else {
        let r4 = mag_hypot(mx / 4, my / 4);
        proof {
            vstd::arithmetic::div_mod::lemma_fundamental_div_mod(mx as int, 4);
            vstd::arithmetic::div_mod::lemma_fundamental_div_mod(my as int, 4);
        }
        4 * r4
    }
}

/// Fixed-point Euclidean length `sqrt(x*x + y*y)`, saturating.
pub fn fxhypot(x: i128, y: i128) -> (r: i128)
    requires
        fx_ok(x),
        fx_ok(y),
    ensures
        fx_ok(r),
        r >= 0,
        r == sat_v(hypot_v(abs(x as int) as int, abs(y as int) as int)),
{
    let mx = fxmag(x);
    let my = fxmag(y);
    let m = mag_hypot(mx, my);
    if m > FXU_LIMIT {
        FX_LIMIT
    } else {
        m as i128
    }
}

/// The recursive square-root definition brackets its argument.
pub proof fn lemma_isqrt_v_bounds(n: int)
    requires
        n >= 0,
    ensures
        isqrt_v(n) >= 0,
        isqrt_v(n) * isqrt_v(n) <= n,
        n < (isqrt_v(n) + 1) * (isqrt_v(n) + 1),
    decreases n,
{
    if n <= 1 {
        assert(n < (n + 1) * (n + 1)) by (nonlinear_arith)
            requires
                0 <= n <= 1,
        ;
        assert(n * n <= n) by (nonlinear_arith)
            requires
                0 <= n <= 1,
        ;
    } else {
        lemma_isqrt_v_bounds(n / 4);
        let s2 = isqrt_v(n / 4);
        let s = 2 * s2;
        vstd::arithmetic::div_mod::lemma_fundamental_div_mod(n, 4);
        assert(s * s == 4 * (s2 * s2)) by (nonlinear_arith)
            requires
                s == 2 * s2,
        ;
        assert((s + 2) * (s + 2) == 4 * ((s2 + 1) * (s2 + 1))) by (nonlinear_arith)
            requires
                s == 2 * s2,
        ;
        assert(s * s <= n) by {
            assert(4 * (s2 * s2) <= 4 * (n / 4));
        }
        assert(n < (s + 2) * (s + 2)) by {
            assert(n / 4 + 1 <= (s2 + 1) * (s2 + 1));
            assert(4 * (n / 4 + 1) <= 4 * ((s2 + 1) * (s2 + 1)));
        }
    }
}

/// An integer bracketed between consecutive squares is the square root.
pub proof fn lemma_isqrt_v_unique(n: int, r: int)
    requires
        n >= 0,
        r >= 0,
        r * r <= n,
        n < (r + 1) * (r + 1),
    ensures
        r == isqrt_v(n),
{
    lemma_isqrt_v_bounds(n);
    let s = isqrt_v(n);
    if r < s {
        assert((r + 1) * (r + 1) <= s * s) by (nonlinear_arith)
            requires
                r + 1 <= s,
                r >= 0,
        ;
    }
    if r > s {
        assert((s + 1) * (s + 1) <= r * r) by (nonlinear_arith)
            requires
                s + 1 <= r,
                s >= 0,
        ;
    }
}

/// A quotient whose dividend is no larger in magnitude than its divisor
/// lies within one.
pub proof fn lemma_fxdiv_unit(a: int, b: int)
    requires
        abs(a) <= abs(b),
        b != 0,
    ensures
        -FX_ONE <= fxdiv_v(a, b) <= FX_ONE,
{
    let s = FX_SCALE as int;
    let q = (abs(a) * s) / (abs(b) as int);
    assert(abs(a) * s <= abs(b) * s) by (nonlinear_arith)
        requires
            abs(a) <= abs(b),
            s >= 0,
    ;
    vstd::arithmetic::div_mod::lemma_div_is_ordered(
        abs(a) * s,
        abs(b) * s,
        abs(b) as int,
    );
    vstd::arithmetic::div_mod::lemma_div_multiples_vanish(s, abs(b) as int);
    vstd::arithmetic::mul::lemma_mul_is_commutative(s, abs(b) as int);
    vstd::arithmetic::div_mod::lemma_div_pos_is_pos(abs(a) * s, abs(b) as int);
}

/// In its exact range the fixed-point square root is the rounded-down
/// real square root: its square bounds the scaled argument on both
/// sides.
pub proof fn lemma_fxsqrt_bracket(x: int)
    requires
        0 <= x <= FX_SQRT_CAP,
    ensures
        fxsqrt_v(x) * fxsqrt_v(x) <= x * FX_SCALE,
        x * FX_SCALE < (fxsqrt_v(x) + 1) * (fxsqrt_v(x) + 1),
{
    lemma_isqrt_v_bounds(x * FX_SCALE);
}

/// In its exact range the length of a displacement is the rounded-down
/// Euclidean length: its square bounds the sum of squares on both
/// sides.
pub proof fn lemma_hypot_bracket(x: int, y: int)
    requires
        0 <= x <= 0x4000_0000_0000_0000,
        0 <= y <= 0x4000_0000_0000_0000,
    ensures
        hypot_v(x, y) * hypot_v(x, y) <= x * x + y * y,
        x * x + y * y < (hypot_v(x, y) + 1) * (hypot_v(x, y) + 1),
{
    assert(x * x >= 0 && y * y >= 0) by (nonlinear_arith);
    lemma_isqrt_v_bounds(x * x + y * y);
}

/// Multiplication by zero yields zero.
pub proof fn lemma_fxmul_zero(x: int)
    ensures
        fxmul_v(0, x) == 0,
        fxmul_v(x, 0) == 0,
{
    assert(0 * x == 0) by (nonlinear_arith);
    assert(x * 0 == 0) by (nonlinear_arith);
    vstd::arithmetic::div_mod::lemma_div_of0(FX_SCALE as int);
}

/// Negating one factor negates the product.
pub proof fn lemma_fxmul_neg(a: int, b: int)
    ensures
        fxmul_v(-a, b) == -fxmul_v(a, b),
{
    assert((-a) * b == -(a * b)) by (nonlinear_arith);
    assert(shr48_v(-(a * b)) == -shr48_v(a * b));
}

/// A square is nonnegative.
pub proof fn lemma_fxmul_square_nonneg(a: int)
    ensures
        fxmul_v(a, a) >= 0,
{
    assert(a * a >= 0) by (nonlinear_arith);
    vstd::arithmetic::div_mod::lemma_div_pos_is_pos(a * a, FX_SCALE as int);
}

/// Zero divided by anything is zero.
pub proof fn lemma_fxdiv_zero(b: int)
    requires
        b != 0,
    ensures
        fxdiv_v(0, b) == 0,
{
    assert(abs(0int) * FX_SCALE == 0) by (nonlinear_arith);
    vstd::arithmetic::div_mod::lemma_div_of0(abs(b) as int);
}

/// The exact square root of one.
pub proof fn lemma_fxsqrt_one()
    ensures
        fxsqrt_v(FX_ONE as int) == FX_ONE,
{
    lemma_isqrt_v_unique(
        0x1_0000_0000_0000_0000_0000_0000,
        0x1_0000_0000_0000,
    );
}

/// Saturating addition.
pub fn fxadd(a: i128, b: i128) -> (r: i128)
    requires
        fx_ok(a),
        fx_ok(b),
    ensures
        fx_ok(r),
        r == fxadd_v(a as int, b as int),
{
    let s = a + b;
    if s > FX_LIMIT {
        FX_LIMIT
    } else if s < -FX_LIMIT {
        -FX_LIMIT
    } else {
        s
    }
}

/// Saturating subtraction.
pub fn fxsub(a: i128, b: i128) -> (r: i128)
    requires
        fx_ok(a),
        fx_ok(b),
    ensures
        fx_ok(r),
        r == fxsub_v(a as int, b as int),
{
    let s = a - b;
    if s > FX_LIMIT {
        FX_LIMIT
    } else if s < -FX_LIMIT {
        -FX_LIMIT
    } else {
        s
    }
}

/// Absolute value.
pub fn fxabs(a: i128) -> (r: i128)
    requires
        fx_ok(a),
    ensures
        fx_ok(r),
        r == abs(a as int),
{
    if a < 0 {
        -a
    } else {
        a
    }
}

} // verus!
