//! Q16.16 fixed-point scalars in `i64`: truncating multiply and divide,
//! clamping, and Euclidean angle wrapping into `[0, TAU_FX)`.

use vstd::arithmetic::div_mod::{
    lemma_fundamental_div_mod_converse_mod, lemma_small_mod, lemma_sub_mod_noop,
};
use vstd::prelude::*;

verus! {

/// Raw value of 1.0 in Q16.16.
pub const FX_ONE: i64 = 65536;

/// pi in Q16.16 (rounded to the nearest raw unit).
pub const PI_FX: i64 = 205887;

/// 2*pi in Q16.16, exactly twice `PI_FX` so that the half-wave symmetry of
/// the sine approximation is exact.
pub const TAU_FX: i64 = 411774;

/// pi/2 in Q16.16: half of `PI_FX`, truncated.
pub const HALF_PI_FX: i64 = 102943;

/// Truncating (round-toward-zero) division for a positive divisor: the
/// quotient Rust's `/` computes on `i64`.
pub open spec fn tdiv(a: int, b: int) -> int {
    if a >= 0 {
        a / b
    } else {
        -((-a) / b)
    }
}

/// The product of two Q16.16 values, rescaled with truncation.
pub open spec fn fx_mul_spec(a: int, b: int) -> int {
    tdiv(a * b, FX_ONE as int)
}

/// The quotient of two Q16.16 values, rescaled with truncation.
pub open spec fn fx_div_spec(a: int, b: int) -> int {
    tdiv(a * (FX_ONE as int), b)
}

/// The absolute value of a mathematical integer.
pub open spec fn iabs(a: int) -> int {
    if a >= 0 {
        a
    } else {
        -a
    }
}

/// `v` forced into `[lo, hi]`.
pub open spec fn clamp_spec(v: int, lo: int, hi: int) -> int {
    if v < lo {
        lo
    } else if v > hi {
        hi
    } else {
        v
    }
}

/// Truncating division by a positive divisor.
pub fn div_trunc(a: i64, b: i64) -> (r: i64)
    requires
        b > 0,
        a > i64::MIN,
    ensures
        r == tdiv(a as int, b as int),
{
    if a >= 0 {
        let q: u64 = (a as u64) / (b as u64);
        q as i64
    } else {
        let n: u64 = (-a) as u64;
        let q: u64 = n / (b as u64);
        -(q as i64)
    }
}

/// Fixed-point multiplication: `a * b / FX_ONE`, truncated toward zero.
/// The raw product is formed in `i128`, so only the product (not each
/// factor) must stay within `i64` range after rescaling.
pub fn fx_mul(a: i64, b: i64) -> (r: i64)
    requires
        -(0x7FFF_FFFF_FFFF_FFFF * 0x1_0000) <= a * b <= 0x7FFF_FFFF_FFFF_FFFF * 0x1_0000,
    ensures
        r == fx_mul_spec(a as int, b as int),
{
    proof {
        lemma_tdiv_bound((a as int) * (b as int), FX_ONE as int, 0x7FFF_FFFF_FFFF_FFFF);
    }
    let p: i128 = (a as i128) * (b as i128);
    if p >= 0 {
        let q: u128 = (p as u128) / 65536;
        q as i64
    } else {
        let n: u128 = (-p) as u128;
        let q: u128 = n / 65536;
        -(q as i64)
    }
}

/// Fixed-point division by a positive divisor: `a * FX_ONE / b`, truncated
/// toward zero.
pub fn fx_div(a: i64, b: i64) -> (r: i64)
    requires
        b > 0,
        -0x4000_0000_0000 <= a <= 0x4000_0000_0000,
    ensures
        r == fx_div_spec(a as int, b as int),
{
    let p: i128 = (a as i128) * 65536;
    if p >= 0 {
        let q: u128 = (p as u128) / (b as u128);
        assert(q <= p as u128) by {
            vstd::arithmetic::div_mod::lemma_div_nonincreasing(p as int, b as int);
        }
        q as i64
    } else {
        let n: u128 = (-p) as u128;
        let q: u128 = n / (b as u128);
        assert(q <= n) by {
            vstd::arithmetic::div_mod::lemma_div_nonincreasing(n as int, b as int);
        }
        -(q as i64)
    }
}

/// Truncating division of a wide intermediate by a positive divisor.
pub fn div_trunc128(a: i128, b: i128) -> (r: i128)
    requires
        b > 0,
        a > i128::MIN,
    ensures
        r == tdiv(a as int, b as int),
{
    if a >= 0 {
        let q: u128 = (a as u128) / (b as u128);
        proof {
            vstd::arithmetic::div_mod::lemma_div_nonincreasing(a as int, b as int);
            vstd::arithmetic::div_mod::lemma_div_pos_is_pos(a as int, b as int);
        }
        q as i128
    } else {
        let n: u128 = (-a) as u128;
        let q: u128 = n / (b as u128);
        proof {
            vstd::arithmetic::div_mod::lemma_div_nonincreasing(n as int, b as int);
            vstd::arithmetic::div_mod::lemma_div_pos_is_pos(n as int, b as int);
        }
        -(q as i128)
    }
}

/// `v` forced into the `i64` range.
pub open spec fn clamp_i64_spec(v: int) -> int {
    clamp_spec(v, i64::MIN as int, i64::MAX as int)
}

/// A wide intermediate forced into the `i64` range.
pub fn clamp_to_i64(v: i128) -> (r: i64)
    ensures
        r == clamp_i64_spec(v as int),
{
    if v < i64::MIN as i128 {
        i64::MIN
    } else if v > i64::MAX as i128 {
        i64::MAX
    } else {
        v as i64
    }
}

/// `v` forced into `[lo, hi]`.
pub fn clamp(v: i64, lo: i64, hi: i64) -> (r: i64)
    requires
        lo <= hi,
    ensures
        r == clamp_spec(v as int, lo as int, hi as int),
{
    if v < lo {
        lo
    } else if v > hi {
        hi
    } else {
        v
    }
}

/// An angle reduced into `[0, TAU_FX)`: the Euclidean remainder modulo a
/// full turn.
pub fn wrap_angle(a: i64) -> (r: i64)
    requires
        a > i64::MIN,
    ensures
        r == a as int % (TAU_FX as int),
        0 <= r < TAU_FX,
{
    if a >= 0 {
        let m: u64 = (a as u64) % (TAU_FX as u64);
        m as i64
    } else {
        let n: u64 = (-a) as u64;
        let m: u64 = n % (TAU_FX as u64);
        proof {
            let t = TAU_FX as int;
            let q = (n as int) / t;
            vstd::arithmetic::div_mod::lemma_fundamental_div_mod(n as int, t);
            if m == 0 {
                // a == -q * t, so a mod t == 0
                lemma_fundamental_div_mod_converse_mod(a as int, t, -q, 0);
            } else {
                // a == (-q - 1) * t + (t - m), with 0 <= t - m < t
                lemma_fundamental_div_mod_converse_mod(a as int, t, -q - 1, t - m);
            }
        }
        if m == 0 {
            0
        } else {
            TAU_FX - (m as i64)
        }
    }
}

/// Reducing modulo a turn, adding an offset, and reducing again is the same
/// as reducing the sum: angle arithmetic can be done on wrapped values.
pub proof fn lemma_wrap_shift(a: int, d: int)
    ensures
        (a % (TAU_FX as int) - d) % (TAU_FX as int) == (a - d) % (TAU_FX as int),
        (a % (TAU_FX as int) + d) % (TAU_FX as int) == (a + d) % (TAU_FX as int),
{
    let t = TAU_FX as int;
    lemma_sub_mod_noop(a, d, t);
    vstd::arithmetic::div_mod::lemma_add_mod_noop(a, d, t);
    vstd::arithmetic::div_mod::lemma_mod_twice(a, t);
    lemma_sub_mod_noop(a % t, d, t);
    vstd::arithmetic::div_mod::lemma_add_mod_noop(a % t, d, t);
}

/// A value already in `[0, TAU_FX)` is its own remainder.
pub proof fn lemma_wrap_identity(a: int)
    requires
        0 <= a < TAU_FX,
    ensures
        a % (TAU_FX as int) == a,
{
    lemma_small_mod(a as nat, TAU_FX as nat);
}

/// The integer square root of `n`: the unique `r >= 0` with
/// `r * r <= n < (r + 1) * (r + 1)`.
pub open spec fn isqrt_spec(n: int) -> int {
    choose|r: int| 0 <= r && #[trigger] (r * r) <= n && n < (r + 1) * (r + 1)
}

/// Two integer square roots of the same value coincide.
pub proof fn lemma_isqrt_unique(n: int, r: int)
    requires
        0 <= r,
        r * r <= n,
        n < (r + 1) * (r + 1),
    ensures
        isqrt_spec(n) == r,
{
    let c = choose|c: int| 0 <= c && #[trigger] (c * c) <= n && n < (c + 1) * (c + 1);
    assert(0 <= c && c * c <= n && n < (c + 1) * (c + 1)) by {
        assert(0 <= r && r * r <= n && n < (r + 1) * (r + 1));
    }
    assert(c == r) by (nonlinear_arith)
        requires
            0 <= r,
            r * r <= n,
            n < (r + 1) * (r + 1),
            0 <= c,
            c * c <= n,
            n < (c + 1) * (c + 1),
    ;
}

/// The integer square root exists for every nonnegative value, so
/// `isqrt_spec` denotes the actual root there.
pub proof fn lemma_isqrt_spec_props(s: int)
    requires
        0 <= s,
    ensures
        isqrt_spec(s) >= 0,
        isqrt_spec(s) * isqrt_spec(s) <= s,
        s < (isqrt_spec(s) + 1) * (isqrt_spec(s) + 1),
    decreases s,
{
    if s == 0 {
        lemma_isqrt_unique(0, 0);
    } else {
        lemma_isqrt_spec_props(s - 1);
        let r = isqrt_spec(s - 1);
        if (r + 1) * (r + 1) <= s {
            // then s - 1 < (r + 1)^2 <= s forces s == (r + 1)^2
            assert((r + 1) * (r + 1) < (r + 2) * (r + 2)) by (nonlinear_arith)
                requires
                    r >= 0,
            ;
            lemma_isqrt_unique(s, r + 1);
        } else {
            lemma_isqrt_unique(s, r);
        }
    }
}

/// Integer square root by bisection.
pub fn isqrt(n: u64) -> (r: u64)
    ensures
        r * r <= n,
        n < (r + 1) * (r + 1),
        r == isqrt_spec(n as int),
{
    let mut lo: u64 = 0;
    let mut hi: u64 = 0x1_0000_0000;
    while lo + 1 < hi
        invariant
            lo < hi,
            hi <= 0x1_0000_0000,
            lo * lo <= n,
            (n as int) < (hi as int) * (hi as int),
        decreases hi - lo,
    {
        let mid: u64 = lo + (hi - lo) / 2;
        proof {
            assert((mid as int) * (mid as int) <= 0xFFFF_FFFFint * 0xFFFF_FFFFint)
                by (nonlinear_arith)
                requires
                    0 <= mid < 0x1_0000_0000,
            ;
        }
        if mid * mid <= n {
            lo = mid;
        } else {
            hi = mid;
        }
    }
    proof {
        lemma_isqrt_unique(n as int, lo as int);
    }
    lo
}

/// Truncating division is odd in its dividend: negating the dividend negates
/// the quotient.
pub proof fn lemma_tdiv_neg(a: int, b: int)
    requires
        b > 0,
    ensures
        tdiv(-a, b) == -tdiv(a, b),
{
    if a == 0 {
        assert(tdiv(0int, b) == 0) by {
            vstd::arithmetic::div_mod::lemma_div_of0(b);
        }
    }
}

/// A truncated quotient is bounded by any bound on the dividend, scaled
/// down by the (positive) divisor.
pub proof fn lemma_tdiv_bound(a: int, b: int, m: int)
    requires
        b > 0,
        0 <= m,
        -(m * b) <= a <= m * b,
    ensures
        -m <= tdiv(a, b) <= m,
{
    assert(m * b == b * m) by (nonlinear_arith);
    if a >= 0 {
        vstd::arithmetic::div_mod::lemma_div_is_ordered(a, b * m, b);
        vstd::arithmetic::div_mod::lemma_div_multiples_vanish(m, b);
        vstd::arithmetic::div_mod::lemma_div_pos_is_pos(a, b);
    } else {
        vstd::arithmetic::div_mod::lemma_div_is_ordered(-a, b * m, b);
        vstd::arithmetic::div_mod::lemma_div_multiples_vanish(m, b);
        vstd::arithmetic::div_mod::lemma_div_pos_is_pos(-a, b);
    }
}

/// Negating one factor of a fixed-point product negates the product.
pub proof fn lemma_fx_mul_neg(a: int, b: int)
    ensures
        fx_mul_spec(a, -b) == -fx_mul_spec(a, b),
{
    assert(a * (-b) == -(a * b)) by (nonlinear_arith);
    lemma_tdiv_neg(a * b, FX_ONE as int);
}

} // verus!
