//! Three-component vectors of Q16.16 scalars, with exact contracts for the
//! component arithmetic the camera and the bodies rely on.

use crate::fixed::{div_trunc, fx_mul, fx_mul_spec, isqrt, isqrt_spec, tdiv, FX_ONE};
use vstd::prelude::*;

verus! {

/// A point or direction in world space, components in Q16.16.
#[derive(Clone, Copy, PartialEq, Eq, Structural, Debug)]
pub struct V3 {
    pub x: i64,
    pub y: i64,
    pub z: i64,
}

/// Raw component magnitudes up to this bound are safe for every vector
/// operation here.
pub const V3_LIMIT: i64 = 0x80_0000_0000;

/// All three components within `[-b, b]`.
pub open spec fn v3_bounded(v: V3, b: int) -> bool {
    -b <= v.x <= b && -b <= v.y <= b && -b <= v.z <= b
}

/// The dot product of two Q16.16 vectors, rescaled with truncation.
pub open spec fn dot_spec(a: V3, b: V3) -> int {
    tdiv(a.x * b.x + a.y * b.y + a.z * b.z, FX_ONE as int)
}

/// One component of the cross product, `p * q - r * s` rescaled.
pub open spec fn cross_term_spec(p: int, q: int, r: int, s: int) -> int {
    tdiv(p * q - r * s, FX_ONE as int)
}

/// The cross product of two Q16.16 vectors, each component rescaled.
pub open spec fn cross_spec(a: V3, b: V3) -> V3 {
    V3 {
        x: cross_term_spec(a.y as int, b.z as int, a.z as int, b.y as int) as i64,
        y: cross_term_spec(a.z as int, b.x as int, a.x as int, b.z as int) as i64,
        z: cross_term_spec(a.x as int, b.y as int, a.y as int, b.x as int) as i64,
    }
}

/// The length of the raw coordinate triple: the integer square root of the
/// sum of squares. For unit-order vectors this is about `FX_ONE`.
pub open spec fn norm_spec(v: V3) -> int {
    isqrt_spec(v.x * v.x + v.y * v.y + v.z * v.z)
}

/// `v` scaled to (approximately) unit length: each component times `FX_ONE`
/// over the length, truncated. The zero vector stays zero.
pub open spec fn normalize_spec(v: V3) -> V3 {
    if v.x == 0 && v.y == 0 && v.z == 0 {
        v
    } else {
        let n = norm_spec(v);
        V3 {
            x: tdiv(v.x * (FX_ONE as int), n) as i64,
            y: tdiv(v.y * (FX_ONE as int), n) as i64,
            z: tdiv(v.z * (FX_ONE as int), n) as i64,
        }
    }
}

pub fn v3(x: i64, y: i64, z: i64) -> (r: V3)
    ensures
        r == (V3 { x, y, z }),
{
    V3 { x, y, z }
}

/// Componentwise sum.
pub fn v3_add(a: &V3, b: &V3) -> (r: V3)
    requires
        v3_bounded(*a, V3_LIMIT as int),
        v3_bounded(*b, V3_LIMIT as int),
    ensures
        r.x == a.x + b.x,
        r.y == a.y + b.y,
        r.z == a.z + b.z,
{
    V3 { x: a.x + b.x, y: a.y + b.y, z: a.z + b.z }
}

/// Componentwise difference.
pub fn v3_sub(a: &V3, b: &V3) -> (r: V3)
    requires
        v3_bounded(*a, V3_LIMIT as int),
        v3_bounded(*b, V3_LIMIT as int),
    ensures
        r.x == a.x - b.x,
        r.y == a.y - b.y,
        r.z == a.z - b.z,
{
    V3 { x: a.x - b.x, y: a.y - b.y, z: a.z - b.z }
}

/// The vector scaled by a Q16.16 factor, componentwise.
pub fn v3_scale(v: &V3, s: i64) -> (r: V3)
    requires
        v3_bounded(*v, V3_LIMIT as int),
        -0x4000_0000 <= s <= 0x4000_0000,
    ensures
        r.x == fx_mul_spec(v.x as int, s as int),
        r.y == fx_mul_spec(v.y as int, s as int),
        r.z == fx_mul_spec(v.z as int, s as int),
{
    proof {
        lemma_scale_product_safe(v.x as int, s as int);
        lemma_scale_product_safe(v.y as int, s as int);
        lemma_scale_product_safe(v.z as int, s as int);
    }
    V3 { x: fx_mul(v.x, s), y: fx_mul(v.y, s), z: fx_mul(v.z, s) }
}

/// The dot product, rescaled to Q16.16.
pub fn v3_dot(a: &V3, b: &V3) -> (r: i64)
    requires
        v3_bounded(*a, V3_LIMIT as int),
        v3_bounded(*b, FX_ONE as int),
    ensures
        r == dot_spec(*a, *b),
{
    proof {
        lemma_unit_product_safe(a.x as int, b.x as int);
        lemma_unit_product_safe(a.y as int, b.y as int);
        lemma_unit_product_safe(a.z as int, b.z as int);
    }
    let px: i128 = (a.x as i128) * (b.x as i128);
    let py: i128 = (a.y as i128) * (b.y as i128);
    let pz: i128 = (a.z as i128) * (b.z as i128);
    let s: i128 = px + py + pz;
    if s >= 0 {
        let q: u128 = (s as u128) / 65536;
        q as i64
    } else {
        let n: u128 = (-s) as u128;
        let q: u128 = n / 65536;
        -(q as i64)
    }
}

/// The cross product, each component rescaled to Q16.16.
pub fn v3_cross(a: &V3, b: &V3) -> (r: V3)
    requires
        v3_bounded(*a, FX_ONE as int),
        v3_bounded(*b, 0x4000_0000),
    ensures
        r.x == cross_term_spec(a.y as int, b.z as int, a.z as int, b.y as int),
        r.y == cross_term_spec(a.z as int, b.x as int, a.x as int, b.z as int),
        r.z == cross_term_spec(a.x as int, b.y as int, a.y as int, b.x as int),
        r == cross_spec(*a, *b),
{
    let x = cross_term(a.y, b.z, a.z, b.y);
    let y = cross_term(a.z, b.x, a.x, b.z);
    let z = cross_term(a.x, b.y, a.y, b.x);
    V3 { x, y, z }
}

/// `p * q - r * s` rescaled to Q16.16 with truncation.
fn cross_term(p: i64, q: i64, r: i64, s: i64) -> (t: i64)
    requires
        -FX_ONE <= p <= FX_ONE,
        -0x4000_0000 <= q <= 0x4000_0000,
        -FX_ONE <= r <= FX_ONE,
        -0x4000_0000 <= s <= 0x4000_0000,
    ensures
        t == cross_term_spec(p as int, q as int, r as int, s as int),
{
    proof {
        lemma_unit_product_safe(p as int, q as int);
        lemma_unit_product_safe(r as int, s as int);
    }
    let d: i128 = (p as i128) * (q as i128) - (r as i128) * (s as i128);
    if d >= 0 {
        let u: u128 = (d as u128) / 65536;
        u as i64
    } else {
        let n: u128 = (-d) as u128;
        let u: u128 = n / 65536;
        -(u as i64)
    }
}

/// `v` scaled to (approximately) unit length. Components of the result never
/// exceed `FX_ONE` in magnitude; the zero vector is returned unchanged.
pub fn v3_normalize(v: &V3) -> (r: V3)
    requires
        v3_bounded(*v, 0x4000_0000),
    ensures
        r == normalize_spec(*v),
        v3_bounded(r, FX_ONE as int),
{
    if v.x == 0 && v.y == 0 && v.z == 0 {
        *v
    } else {
        proof {
            assert(0 <= (v.x as int) * (v.x as int) <= 0x4000_0000int * 0x4000_0000int)
                by (nonlinear_arith)
                requires
                    -0x4000_0000 <= v.x <= 0x4000_0000,
            ;
            assert(0 <= (v.y as int) * (v.y as int) <= 0x4000_0000int * 0x4000_0000int)
                by (nonlinear_arith)
                requires
                    -0x4000_0000 <= v.y <= 0x4000_0000,
            ;
            assert(0 <= (v.z as int) * (v.z as int) <= 0x4000_0000int * 0x4000_0000int)
                by (nonlinear_arith)
                requires
                    -0x4000_0000 <= v.z <= 0x4000_0000,
            ;
        }
        let sx: u64 = ((v.x as i128) * (v.x as i128)) as u64;
        let sy: u64 = ((v.y as i128) * (v.y as i128)) as u64;
        let sz: u64 = ((v.z as i128) * (v.z as i128)) as u64;
        let n: u64 = isqrt(sx + sy + sz);
        proof {
            let s = sx + sy + sz;
            assert(sx == (v.x as int) * (v.x as int));
            assert(sy == (v.y as int) * (v.y as int));
            assert(sz == (v.z as int) * (v.z as int));
            if v.x != 0 {
                lemma_square_pos(v.x as int);
            } else if v.y != 0 {
                lemma_square_pos(v.y as int);
            } else {
                lemma_square_pos(v.z as int);
            }
            assert(1 <= s);
            assert(n >= 1) by {
                assert((n as int + 1) * (n as int + 1) > s);
                if n == 0 {
                    assert((n as int + 1) * (n as int + 1) == 1);
                }
            }
            assert(n <= 0x1_0000_0000) by {
                assert((n as int) * (n as int) <= s);
                if n > 0x1_0000_0000 {
                    assert((n as int) * (n as int) > 0x1_0000_0000int * 0x1_0000_0000int)
                        by (nonlinear_arith)
                        requires
                            n > 0x1_0000_0000,
                    ;
                }
            }
            lemma_norm_dominates_component(v.x as int, sx + sy + sz, n as int);
            lemma_norm_dominates_component(v.y as int, sx + sy + sz, n as int);
            lemma_norm_dominates_component(v.z as int, sx + sy + sz, n as int);
        }
        let x = scaled_component(v.x, n);
        let y = scaled_component(v.y, n);
        let z = scaled_component(v.z, n);
        V3 { x, y, z }
    }
}

/// One normalized component: `c * FX_ONE / n`, truncated.
fn scaled_component(c: i64, n: u64) -> (r: i64)
    requires
        0 < n <= 0x1_0000_0000,
        -0x4000_0000 <= c <= 0x4000_0000,
        -(n as int) <= c <= n as int,
    ensures
        r == tdiv(c as int * (FX_ONE as int), n as int),
        -FX_ONE <= r <= FX_ONE,
{
    proof {
        assert(-(n as int) * (FX_ONE as int) <= (c as int) * (FX_ONE as int) <= (n as int) * (
        FX_ONE as int)) by (nonlinear_arith)
            requires
                -(n as int) <= c <= n as int,
                0 < FX_ONE,
        ;
        crate::fixed::lemma_tdiv_bound((c as int) * (FX_ONE as int), n as int, FX_ONE as int);
    }
    div_trunc(c * FX_ONE, n as i64)
}

/// The integer square root of a sum of squares dominates the magnitude of
/// each summand.
proof fn lemma_norm_dominates_component(c: int, s: int, n: int)
    requires
        c * c <= s,
        0 <= n,
        n * n <= s,
        s < (n + 1) * (n + 1),
    ensures
        -n <= c <= n,
{
    assert(-n <= c <= n) by (nonlinear_arith)
        requires
            c * c <= s,
            0 <= n,
            s < (n + 1) * (n + 1),
    ;
}

/// The cross product of a unit-bounded vector with a moderately bounded one
/// stays within the bound the normalization routine accepts.
pub proof fn lemma_cross_result_bounded(a: V3, b: V3)
    requires
        v3_bounded(a, FX_ONE as int),
        v3_bounded(b, 0x2000_0000),
    ensures
        v3_bounded(cross_spec(a, b), 0x4000_0000),
{
    lemma_cross_term_bounded(a.y as int, b.z as int, a.z as int, b.y as int);
    lemma_cross_term_bounded(a.z as int, b.x as int, a.x as int, b.z as int);
    lemma_cross_term_bounded(a.x as int, b.y as int, a.y as int, b.x as int);
}

/// One cross-product term under the same bounds.
proof fn lemma_cross_term_bounded(p: int, q: int, r: int, s: int)
    requires
        -FX_ONE <= p <= FX_ONE,
        -0x2000_0000 <= q <= 0x2000_0000,
        -FX_ONE <= r <= FX_ONE,
        -0x2000_0000 <= s <= 0x2000_0000,
    ensures
        -0x4000_0000 <= cross_term_spec(p, q, r, s) <= 0x4000_0000,
{
    assert(-(0x4000_0000int * (FX_ONE as int)) <= p * q - r * s <= 0x4000_0000int * (
    FX_ONE as int)) by (nonlinear_arith)
        requires
            -FX_ONE <= p <= FX_ONE,
            -0x2000_0000 <= q <= 0x2000_0000,
            -FX_ONE <= r <= FX_ONE,
            -0x2000_0000 <= s <= 0x2000_0000,
    ;
    crate::fixed::lemma_tdiv_bound(p * q - r * s, FX_ONE as int, 0x4000_0000);
}

/// The square of a nonzero integer is at least one.
proof fn lemma_square_pos(c: int)
    requires
        c != 0,
    ensures
        c * c >= 1,
{
    assert(c * c >= 1) by (nonlinear_arith)
        requires
            c != 0,
    ;
}

/// A product of a world-bounded value and a unit-order factor stays within
/// the preconditions of the fixed-point routines.
proof fn lemma_scale_product_safe(a: int, b: int)
    requires
        -V3_LIMIT <= a <= V3_LIMIT,
        -0x4000_0000 <= b <= 0x4000_0000,
    ensures
        -0x20_0000_0000_0000_0000 <= a * b <= 0x20_0000_0000_0000_0000,
{
    assert(-0x20_0000_0000_0000_0000 <= a * b <= 0x20_0000_0000_0000_0000) by (nonlinear_arith)
        requires
            -V3_LIMIT <= a <= V3_LIMIT,
            -0x4000_0000 <= b <= 0x4000_0000,
    ;
}

/// A product of two unit-order values stays small.
proof fn lemma_unit_product_safe(a: int, b: int)
    requires
        -V3_LIMIT <= a <= V3_LIMIT,
        -0x4000_0000 <= b <= 0x4000_0000,
    ensures
        -0x20_0000_0000_0000_0000 <= a * b <= 0x20_0000_0000_0000_0000,
{
    lemma_scale_product_safe(a, b);
}

} // verus!
