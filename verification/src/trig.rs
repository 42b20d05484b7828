//! Fixed-point trigonometry: sine and cosine over wrapped Q16.16 angles via
//! Bhaskara's rational approximation, and a polynomial two-argument
//! arctangent for recovering yaw and pitch from a direction vector.

use crate::fixed::{
    clamp, div_trunc, fx_div, fx_div_spec, fx_mul, fx_mul_spec, tdiv, wrap_angle, FX_ONE,
    HALF_PI_FX, PI_FX, TAU_FX,
};
use vstd::prelude::*;

verus! {

/// pi/4 in Q16.16 (rounded to the nearest raw unit).
pub const QUARTER_PI_FX: i64 = 51472;

/// 0.273 in Q16.16, the correction coefficient of the arctangent polynomial.
pub const ATAN_K: i64 = 17892;

/// Bhaskara's approximation of `sin` on the half wave `[0, pi]`:
/// `16 x (pi - x) / (5 pi^2 - 4 x (pi - x))`, rescaled to Q16.16.
pub open spec fn half_sine_spec(x: int) -> int {
    let p = PI_FX as int;
    let g = x * (p - x);
    let n = 16 * g;
    let d = 5 * p * p - 4 * g;
    n * (FX_ONE as int) / d
}

/// The sine of a Q16.16 angle, after reduction into `[0, TAU_FX)`: the
/// positive half wave on `[0, pi]`, its mirror image below.
pub open spec fn sin_fx_spec(a: int) -> int {
    let w = a % (TAU_FX as int);
    if w <= PI_FX {
        half_sine_spec(w)
    } else {
        -half_sine_spec(w - PI_FX)
    }
}

/// The cosine of a Q16.16 angle: the sine shifted by a quarter turn.
pub open spec fn cos_fx_spec(a: int) -> int {
    sin_fx_spec(a + HALF_PI_FX)
}

/// Bhaskara's half-wave sine. The result never leaves `[0, FX_ONE]`.
fn half_sine(x: i64) -> (r: i64)
    requires
        0 <= x <= PI_FX,
    ensures
        r == half_sine_spec(x as int),
        0 <= r <= FX_ONE,
{
    let p: i64 = PI_FX;
    proof {
        assert(0 <= (x as int) * (p - x) && 4 * ((x as int) * (p - x)) <= (p as int) * (
        p as int)) by (nonlinear_arith)
            requires
                0 <= x <= p,
        ;
    }
    let g: i64 = x * (p - x);
    let n: i64 = 16 * g;
    let d: i64 = 5 * p * p - 4 * g;
    proof {
        // n <= d, so the rescaled ratio stays within one.
        assert((n as int) * (FX_ONE as int) <= (d as int) * (FX_ONE as int)) by (nonlinear_arith)
            requires
                n <= d,
                0 < FX_ONE,
        ;
        assert((n as int) * (FX_ONE as int) / (d as int) <= FX_ONE) by {
            vstd::arithmetic::div_mod::lemma_div_is_ordered(
                (n as int) * (FX_ONE as int),
                (d as int) * (FX_ONE as int),
                d as int,
            );
            vstd::arithmetic::div_mod::lemma_div_multiples_vanish(FX_ONE as int, d as int);
        }
        vstd::arithmetic::div_mod::lemma_div_pos_is_pos((n as int) * (FX_ONE as int), d as int);
    }
    let r: i64 = div_trunc(n * FX_ONE, d);
    r
}

/// The sine of an arbitrary Q16.16 angle.
pub fn sin_fx(a: i64) -> (r: i64)
    requires
        a > i64::MIN,
    ensures
        r == sin_fx_spec(a as int),
        -FX_ONE <= r <= FX_ONE,
{
    let w = wrap_angle(a);
    if w <= PI_FX {
        half_sine(w)
    } else {
        -half_sine(w - PI_FX)
    }
}

/// The cosine of an arbitrary Q16.16 angle.
pub fn cos_fx(a: i64) -> (r: i64)
    requires
        -0x4000_0000_0000_0000 < a < 0x4000_0000_0000_0000,
    ensures
        r == cos_fx_spec(a as int),
        -FX_ONE <= r <= FX_ONE,
{
    sin_fx(a + HALF_PI_FX)
}

/// The arctangent polynomial on `[-1, 1]`:
/// `(pi/4) u + 0.273 u (1 - |u|)`, in Q16.16.
pub open spec fn atan_unit_spec(u: int) -> int {
    let m = if u >= 0 {
        u
    } else {
        -u
    };
    fx_mul_spec(QUARTER_PI_FX as int, u) + fx_mul_spec(fx_mul_spec(ATAN_K as int, u), (
    FX_ONE as int) - m)
}

/// The arctangent polynomial on `[-1, 1]`.
fn atan_unit(u: i64) -> (r: i64)
    requires
        -FX_ONE <= u <= FX_ONE,
    ensures
        r == atan_unit_spec(u as int),
        -HALF_PI_FX <= r <= HALF_PI_FX,
{
    let m: i64 = if u >= 0 {
        u
    } else {
        -u
    };
    proof {
        assert(-(QUARTER_PI_FX as int) * (FX_ONE as int) <= (QUARTER_PI_FX as int) * (u as int) <= (
        QUARTER_PI_FX as int) * (FX_ONE as int)) by (nonlinear_arith)
            requires
                -FX_ONE <= u <= FX_ONE,
        ;
        assert(-(ATAN_K as int) * (FX_ONE as int) <= (ATAN_K as int) * (u as int) <= (
        ATAN_K as int) * (FX_ONE as int)) by (nonlinear_arith)
            requires
                -FX_ONE <= u <= FX_ONE,
        ;
        crate::fixed::lemma_tdiv_bound(
            (QUARTER_PI_FX as int) * (u as int),
            FX_ONE as int,
            QUARTER_PI_FX as int,
        );
        crate::fixed::lemma_tdiv_bound((ATAN_K as int) * (u as int), FX_ONE as int, ATAN_K as int);
    }
    let a1: i64 = fx_mul(QUARTER_PI_FX, u);
    let t: i64 = fx_mul(ATAN_K, u);
    proof {
        assert(-(ATAN_K as int) * (FX_ONE as int) <= (t as int) * ((FX_ONE as int) - (m as int))
            <= (ATAN_K as int) * (FX_ONE as int)) by (nonlinear_arith)
            requires
                -ATAN_K <= t <= ATAN_K,
                0 <= FX_ONE - m <= FX_ONE,
        ;
        crate::fixed::lemma_tdiv_bound(
            (t as int) * ((FX_ONE as int) - (m as int)),
            FX_ONE as int,
            ATAN_K as int,
        );
    }
    let a2: i64 = fx_mul(t, FX_ONE - m);
    a1 + a2
}

/// The two-argument arctangent of a direction `(x, y)`, about `atan2(y, x)`
/// in Q16.16: quadrant reduction on top of `atan_unit_spec`. Both arguments
/// zero give zero.
pub open spec fn atan2_fx_spec(y: int, x: int) -> int {
    let h = HALF_PI_FX as int;
    let p = PI_FX as int;
    let ax = if x >= 0 {
        x
    } else {
        -x
    };
    let ay = if y >= 0 {
        y
    } else {
        -y
    };
    if x == 0 && y == 0 {
        0
    } else if ay <= ax {
        let u = if x >= 0 {
            fx_div_spec(y, x)
        } else {
            fx_div_spec(-y, -x)
        };
        if x >= 0 {
            atan_unit_spec(u)
        } else if y >= 0 {
            atan_unit_spec(u) + p
        } else {
            atan_unit_spec(u) - p
        }
    } else {
        let u = if y >= 0 {
            fx_div_spec(x, y)
        } else {
            fx_div_spec(-x, -y)
        };
        if y >= 0 {
            h - atan_unit_spec(u)
        } else {
            -h - atan_unit_spec(u)
        }
    }
}

/// The two-argument arctangent, `atan2(y, x)` in Q16.16.
pub fn atan2_fx(y: i64, x: i64) -> (r: i64)
    requires
        -0x4000_0000 <= y <= 0x4000_0000,
        -0x4000_0000 <= x <= 0x4000_0000,
    ensures
        r == atan2_fx_spec(y as int, x as int),
        -PI_FX - HALF_PI_FX <= r <= PI_FX + HALF_PI_FX,
{
    let ax: i64 = if x >= 0 {
        x
    } else {
        -x
    };
    let ay: i64 = if y >= 0 {
        y
    } else {
        -y
    };
    if x == 0 && y == 0 {
        0
    } else if ay <= ax {
        let u: i64 = if x >= 0 {
            fx_div(y, x)
        } else {
            fx_div(-y, -x)
        };
        proof {
            lemma_quotient_unit(y as int, x as int);
        }
        if x >= 0 {
            atan_unit(u)
        } else if y >= 0 {
            atan_unit(u) + PI_FX
        } else {
            atan_unit(u) - PI_FX
        }
    } else {
        let u: i64 = if y >= 0 {
            fx_div(x, y)
        } else {
            fx_div(-x, -y)
        };
        proof {
            lemma_quotient_unit(x as int, y as int);
        }
        if y >= 0 {
            HALF_PI_FX - atan_unit(u)
        } else {
            -HALF_PI_FX - atan_unit(u)
        }
    }
}

/// A quotient of two values whose numerator is no larger in magnitude than
/// the (nonzero) denominator stays within `[-FX_ONE, FX_ONE]`.
proof fn lemma_quotient_unit(a: int, b: int)
    requires
        b != 0 || a != 0,
        (if a >= 0 {
            a
        } else {
            -a
        }) <= (if b >= 0 {
            b
        } else {
            -b
        }),
    ensures
        b > 0 ==> -FX_ONE <= fx_div_spec(a, b) <= FX_ONE,
        b < 0 ==> -FX_ONE <= fx_div_spec(-a, -b) <= FX_ONE,
{
    let s = FX_ONE as int;
    let ab = if a >= 0 {
        a
    } else {
        -a
    };
    let bb = if b >= 0 {
        b
    } else {
        -b
    };
    assert(ab * s <= bb * s) by (nonlinear_arith)
        requires
            ab <= bb,
            s > 0,
    ;
    assert(ab * s / bb <= s) by {
        vstd::arithmetic::div_mod::lemma_div_is_ordered(ab * s, bb * s, bb);
        vstd::arithmetic::div_mod::lemma_div_multiples_vanish(s, bb);
    }
    vstd::arithmetic::div_mod::lemma_div_pos_is_pos(ab * s, bb);
    if b > 0 {
        if a >= 0 {
            assert(fx_div_spec(a, b) == ab * s / bb);
        } else {
            assert(a * s == -(ab * s)) by (nonlinear_arith)
                requires
                    ab == -a,
                    s > 0,
            ;
            assert(fx_div_spec(a, b) == -(ab * s / bb));
        }
    } else {
        if a >= 0 {
            assert((-a) * s == -(ab * s)) by (nonlinear_arith)
                requires
                    ab == a,
            ;
            assert(fx_div_spec(-a, -b) == -(ab * s / bb));
        } else {
            assert((-a) * s == ab * s) by (nonlinear_arith)
                requires
                    ab == -a,
            ;
            assert(fx_div_spec(-a, -b) == ab * s / bb);
        }
    }
}

} // verus!
