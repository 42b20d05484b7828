//! The perspective camera: position, a yaw/pitch-derived orthonormal-by-
//! construction basis, a clamped zoom factor, a dirty flag, and the
//! world-to-screen projection.
//!
//! The basis is always recomputed from the current yaw and pitch rather
//! than rotated incrementally, so repeated small rotations cannot make it
//! drift. The yaw is kept reduced into `[0, TAU_FX)`; its sine and cosine
//! are unchanged by the reduction.

use crate::fixed::{
    clamp, clamp_i64_spec, clamp_spec, clamp_to_i64, div_trunc128, fx_div, fx_div_spec, fx_mul,
    fx_mul_spec, isqrt, tdiv, wrap_angle, FX_ONE, HALF_PI_FX, TAU_FX,
};
use crate::trig::{atan2_fx, atan2_fx_spec, cos_fx, cos_fx_spec, sin_fx, sin_fx_spec};
use crate::vec3::{
    cross_spec, dot_spec, normalize_spec, v3_add, v3_bounded, v3_cross, v3_dot, v3_normalize,
    v3_scale, v3_sub, V3, V3_LIMIT,
};
use vstd::prelude::*;

verus! {

/// The smallest zoom factor, 0.1 in Q16.16.
pub const MIN_ZOOM_FX: i64 = 6554;

/// The largest zoom factor, 10.0 in Q16.16.
pub const MAX_ZOOM_FX: i64 = 655360;

/// The pitch clamp bound: pi/2 minus 0.1 radians, keeping the view away
/// from the poles.
pub const PITCH_LIMIT_FX: i64 = 96389;

/// World coordinates admitted to the projection; half the general vector
/// bound, so relative positions stay in range.
pub const WORLD_LIMIT: i64 = 0x40_0000_0000;

/// Coordinates admitted to the constructor; small enough for the
/// normalization of differences and cross products.
pub const CAMERA_NEW_LIMIT: i64 = 0x2000_0000;

/// A projected point: screen coordinates and a depth scalar, all Q16.16.
/// A point behind the camera projects to the sentinel `(-1.0, -1.0)` with
/// its (nonpositive) forward projection as depth.
#[derive(Clone, Copy, PartialEq, Eq, Structural, Debug)]
pub struct ScreenPoint {
    pub x: i64,
    pub y: i64,
    pub depth: i64,
}

pub struct Camera {
    pub position: V3,
    pub front: V3,
    pub up: V3,
    pub right: V3,
    pub yaw: i64,
    pub pitch: i64,
    pub zoom_factor: i64,
    pub has_changed: bool,
}

/// The camera's standing invariant: unit-bounded basis vectors, yaw reduced
/// into `[0, TAU_FX)`, pitch within a quarter turn, zoom within its clamp
/// bounds.
pub open spec fn cam_wf(c: Camera) -> bool {
    &&& v3_bounded(c.front, FX_ONE as int)
    &&& v3_bounded(c.right, FX_ONE as int)
    &&& v3_bounded(c.up, FX_ONE as int)
    &&& 0 <= c.yaw < TAU_FX
    &&& -HALF_PI_FX <= c.pitch <= HALF_PI_FX
    &&& MIN_ZOOM_FX <= c.zoom_factor <= MAX_ZOOM_FX
}

/// One zoom application: the factor multiplied in and the result clamped
/// into `[MIN_ZOOM_FX, MAX_ZOOM_FX]`.
pub open spec fn zoom_step_spec(z: int, f: int) -> int {
    clamp_spec(fx_mul_spec(z, f), MIN_ZOOM_FX as int, MAX_ZOOM_FX as int)
}

/// `n` zoom applications of the same factor, compounding.
pub open spec fn zoom_iter_spec(z: int, f: int, n: nat) -> int
    decreases n,
{
    if n == 0 {
        z
    } else {
        zoom_iter_spec(zoom_step_spec(z, f), f, (n - 1) as nat)
    }
}

/// The world up direction, `+Y`.
pub open spec fn world_up_spec() -> V3 {
    V3 { x: 0, y: FX_ONE, z: 0 }
}

/// The (normalized) front vector derived from yaw and pitch by the standard
/// spherical-to-Cartesian form.
pub open spec fn front_from_angles(yaw: int, pitch: int) -> V3 {
    let cy = cos_fx_spec(yaw);
    let sy = sin_fx_spec(yaw);
    let cp = cos_fx_spec(pitch);
    let sp = sin_fx_spec(pitch);
    normalize_spec(
        V3 { x: fx_mul_spec(cy, cp) as i64, y: sp as i64, z: fx_mul_spec(sy, cp) as i64 },
    )
}

/// The right vector: front crossed with world up, renormalized.
pub open spec fn right_from_front(front: V3) -> V3 {
    normalize_spec(cross_spec(front, world_up_spec()))
}

/// The up vector: right crossed with front, renormalized.
pub open spec fn up_from_right_front(right: V3, front: V3) -> V3 {
    normalize_spec(cross_spec(right, front))
}

/// One screen coordinate: the centre of the axis plus the projected offset,
/// `half + proj * scale * half / FX_ONE^2`, truncated stepwise and forced
/// into the `i64` range.
pub open spec fn screen_coord_spec(half: int, proj: int, scale: int) -> int {
    clamp_i64_spec(half + tdiv(tdiv(proj * scale, FX_ONE as int) * half, FX_ONE as int))
}

/// The world-to-screen projection of `p` through camera `c` onto a
/// `width * height` pixel target: coordinates relative to the camera are
/// projected onto the basis; a nonpositive forward projection yields the
/// off-screen sentinel, otherwise the perspective divide
/// `scale = zoom / forward` places the point about the screen centre, with
/// the y axis flipped.
pub open spec fn project_spec(c: Camera, p: V3, width: int, height: int) -> ScreenPoint {
    let rel = V3 {
        x: (p.x - c.position.x) as i64,
        y: (p.y - c.position.y) as i64,
        z: (p.z - c.position.z) as i64,
    };
    let rp = dot_spec(rel, c.right);
    let upj = dot_spec(rel, c.up);
    let fp = dot_spec(rel, c.front);
    if fp > 0 {
        let scale = fx_div_spec(c.zoom_factor as int, fp);
        let half_w = width * (FX_ONE as int) / 2;
        let half_h = height * (FX_ONE as int) / 2;
        ScreenPoint {
            x: screen_coord_spec(half_w, rp, scale) as i64,
            y: screen_coord_spec(half_h, -upj, scale) as i64,
            depth: fp as i64,
        }
    } else {
        ScreenPoint { x: (-FX_ONE) as i64, y: (-FX_ONE) as i64, depth: fp as i64 }
    }
}

impl Camera {
    /// A camera at `position` looking at `target`, with `up` as the up
    /// hint: the basis comes from normalized differences and cross
    /// products, and yaw and pitch are recovered from the front vector so
    /// that later rotation works purely in angle space. The zoom starts at
    /// one and the dirty flag set.
    pub fn new(position: V3, target: V3, up: V3) -> (c: Camera)
        requires
            v3_bounded(position, CAMERA_NEW_LIMIT as int),
            v3_bounded(target, CAMERA_NEW_LIMIT as int),
            v3_bounded(up, CAMERA_NEW_LIMIT as int),
        ensures
            cam_wf(c),
            c.position == position,
            c.front == normalize_spec(
                V3 {
                    x: (target.x - position.x) as i64,
                    y: (target.y - position.y) as i64,
                    z: (target.z - position.z) as i64,
                },
            ),
            c.right == normalize_spec(cross_spec(c.front, up)),
            c.up == up_from_right_front(c.right, c.front),
            c.yaw == atan2_fx_spec(c.front.z as int, c.front.x as int) % (TAU_FX as int),
            c.pitch == clamp_spec(
                atan2_fx_spec(
                    -c.front.y as int,
                    crate::fixed::isqrt_spec(
                        (FX_ONE as int) * (FX_ONE as int) - (c.front.y as int) * (
                        c.front.y as int),
                    ),
                ),
                -HALF_PI_FX as int,
                HALF_PI_FX as int,
            ),
            c.zoom_factor == FX_ONE,
            c.has_changed == true,
    {
        let diff = v3_sub(&target, &position);
        let front = v3_normalize(&diff);
        let fu = v3_cross(&front, &up);
        proof {
            crate::vec3::lemma_cross_result_bounded(front, up);
        }
        let right = v3_normalize(&fu);
        let rf = v3_cross(&right, &front);
        proof {
            crate::vec3::lemma_cross_result_bounded(right, front);
        }
        let up2 = v3_normalize(&rf);
        let yaw = wrap_angle(atan2_fx(front.z, front.x));
        proof {
            assert(0 <= (front.y as int) * (front.y as int) <= (FX_ONE as int) * (FX_ONE as int))
                by (nonlinear_arith)
                requires
                    -FX_ONE <= front.y <= FX_ONE,
            ;
        }
        let fy2: u64 = ((front.y as i128) * (front.y as i128)) as u64;
        let c: u64 = isqrt((FX_ONE as u64) * (FX_ONE as u64) - fy2);
        proof {
            assert((c as int) * (c as int) <= 0x1_0000_0000);
            assert(c <= 0x1_0000) by {
                if c > 0x1_0000 {
                    assert((c as int) * (c as int) > 0x1_0000int * 0x1_0000int)
                        by (nonlinear_arith)
                        requires
                            c > 0x1_0000,
                    ;
                }
            }
        }
        let pitch = clamp(atan2_fx(-front.y, c as i64), -HALF_PI_FX, HALF_PI_FX);
        Camera {
            position,
            front,
            up: up2,
            right,
            yaw,
            pitch,
            zoom_factor: FX_ONE,
            has_changed: true,
        }
    }

    /// The basis recomputed from the current yaw and pitch; sets the dirty
    /// flag.
    fn update_camera_vectors(&mut self)
        requires
            0 <= old(self).yaw < TAU_FX,
            -HALF_PI_FX <= old(self).pitch <= HALF_PI_FX,
        ensures
            final(self).front == front_from_angles(old(self).yaw as int, old(self).pitch as int),
            final(self).right == right_from_front(final(self).front),
            final(self).up == up_from_right_front(final(self).right, final(self).front),
            v3_bounded(final(self).front, FX_ONE as int),
            v3_bounded(final(self).right, FX_ONE as int),
            v3_bounded(final(self).up, FX_ONE as int),
            final(self).has_changed == true,
            final(self).position == old(self).position,
            final(self).yaw == old(self).yaw,
            final(self).pitch == old(self).pitch,
            final(self).zoom_factor == old(self).zoom_factor,
    {
        let cy = cos_fx(self.yaw);
        let sy = sin_fx(self.yaw);
        let cp = cos_fx(self.pitch);
        let sp = sin_fx(self.pitch);
        proof {
            lemma_unit_mul_unit(cy as int, cp as int);
            lemma_unit_mul_unit(sy as int, cp as int);
        }
        let raw = V3 { x: fx_mul(cy, cp), y: sp, z: fx_mul(sy, cp) };
        let front = v3_normalize(&raw);
        let wu = V3 { x: 0, y: FX_ONE, z: 0 };
        let fu = v3_cross(&front, &wu);
        proof {
            crate::vec3::lemma_cross_result_bounded(front, wu);
        }
        let right = v3_normalize(&fu);
        let rf = v3_cross(&right, &front);
        proof {
            crate::vec3::lemma_cross_result_bounded(right, front);
        }
        let up = v3_normalize(&rf);
        self.front = front;
        self.right = right;
        self.up = up;
        self.has_changed = true;
    }

    /// The position translated along the front vector by the signed Q16.16
    /// `delta`; sets the dirty flag.
    pub fn move_forward(&mut self, delta: i64)
        requires
            cam_wf(*old(self)),
            v3_bounded(old(self).position, V3_LIMIT as int),
            -0x4000_0000 <= delta <= 0x4000_0000,
        ensures
            cam_wf(*final(self)),
            final(self).position.x == old(self).position.x + fx_mul_spec(
                old(self).front.x as int,
                delta as int,
            ),
            final(self).position.y == old(self).position.y + fx_mul_spec(
                old(self).front.y as int,
                delta as int,
            ),
            final(self).position.z == old(self).position.z + fx_mul_spec(
                old(self).front.z as int,
                delta as int,
            ),
            final(self).has_changed == true,
            final(self).front == old(self).front,
            final(self).right == old(self).right,
            final(self).up == old(self).up,
            final(self).yaw == old(self).yaw,
            final(self).pitch == old(self).pitch,
            final(self).zoom_factor == old(self).zoom_factor,
    {
        let step = v3_scale(&self.front, delta);
        proof {
            lemma_step_bounded(self.front.x as int, delta as int);
            lemma_step_bounded(self.front.y as int, delta as int);
            lemma_step_bounded(self.front.z as int, delta as int);
        }
        self.position = v3_add(&self.position, &step);
        self.has_changed = true;
    }

    /// The position translated along the right vector by the signed Q16.16
    /// `delta`; sets the dirty flag.
    pub fn move_right(&mut self, delta: i64)
        requires
            cam_wf(*old(self)),
            v3_bounded(old(self).position, V3_LIMIT as int),
            -0x4000_0000 <= delta <= 0x4000_0000,
        ensures
            cam_wf(*final(self)),
            final(self).position.x == old(self).position.x + fx_mul_spec(
                old(self).right.x as int,
                delta as int,
            ),
            final(self).position.y == old(self).position.y + fx_mul_spec(
                old(self).right.y as int,
                delta as int,
            ),
            final(self).position.z == old(self).position.z + fx_mul_spec(
                old(self).right.z as int,
                delta as int,
            ),
            final(self).has_changed == true,
            final(self).front == old(self).front,
            final(self).right == old(self).right,
            final(self).up == old(self).up,
            final(self).yaw == old(self).yaw,
            final(self).pitch == old(self).pitch,
            final(self).zoom_factor == old(self).zoom_factor,
    {
        let step = v3_scale(&self.right, delta);
        proof {
            lemma_step_bounded(self.right.x as int, delta as int);
            lemma_step_bounded(self.right.y as int, delta as int);
            lemma_step_bounded(self.right.z as int, delta as int);
        }
        self.position = v3_add(&self.position, &step);
        self.has_changed = true;
    }

    /// The position translated strictly along world `+Y` by the signed
    /// Q16.16 `delta`, independent of orientation; sets the dirty flag.
    pub fn move_up(&mut self, delta: i64)
        requires
            v3_bounded(old(self).position, V3_LIMIT as int),
            -0x4000_0000 <= delta <= 0x4000_0000,
        ensures
            final(self).position.x == old(self).position.x,
            final(self).position.y == old(self).position.y + delta,
            final(self).position.z == old(self).position.z,
            final(self).has_changed == true,
            final(self).front == old(self).front,
            final(self).right == old(self).right,
            final(self).up == old(self).up,
            final(self).yaw == old(self).yaw,
            final(self).pitch == old(self).pitch,
            final(self).zoom_factor == old(self).zoom_factor,
            cam_wf(*old(self)) ==> cam_wf(*final(self)),
    {
        self.position = V3 { x: self.position.x, y: self.position.y + delta, z: self.position.z };
        self.has_changed = true;
    }

    /// Yaw accumulated (and kept reduced into a full turn), pitch
    /// accumulated and clamped away from the poles, and the basis
    /// recomputed from the new angles.
    pub fn rotate(&mut self, yaw_delta: i64, pitch_delta: i64)
        requires
            cam_wf(*old(self)),
            -0x1000_0000_0000_0000 <= yaw_delta <= 0x1000_0000_0000_0000,
            -0x1000_0000_0000_0000 <= pitch_delta <= 0x1000_0000_0000_0000,
        ensures
            cam_wf(*final(self)),
            final(self).yaw == (old(self).yaw + yaw_delta) % (TAU_FX as int),
            final(self).pitch == clamp_spec(
                old(self).pitch + pitch_delta,
                -PITCH_LIMIT_FX as int,
                PITCH_LIMIT_FX as int,
            ),
            -PITCH_LIMIT_FX <= final(self).pitch <= PITCH_LIMIT_FX,
            final(self).front == front_from_angles(
                final(self).yaw as int,
                final(self).pitch as int,
            ),
            final(self).right == right_from_front(final(self).front),
            final(self).up == up_from_right_front(final(self).right, final(self).front),
            final(self).has_changed == true,
            final(self).position == old(self).position,
            final(self).zoom_factor == old(self).zoom_factor,
    {
        self.yaw = wrap_angle(self.yaw + yaw_delta);
        self.pitch = clamp(self.pitch + pitch_delta, -PITCH_LIMIT_FX, PITCH_LIMIT_FX);
        self.update_camera_vectors();
    }

    /// The zoom factor multiplied by `factor` and clamped into
    /// `[MIN_ZOOM_FX, MAX_ZOOM_FX]`; repeated calls compound. Sets the
    /// dirty flag.
    pub fn zoom(&mut self, factor: i64)
        requires
            cam_wf(*old(self)),
            -0x1_0000_0000 <= factor <= 0x1_0000_0000,
        ensures
            cam_wf(*final(self)),
            final(self).zoom_factor == zoom_step_spec(
                old(self).zoom_factor as int,
                factor as int,
            ),
            final(self).has_changed == true,
            final(self).position == old(self).position,
            final(self).front == old(self).front,
            final(self).right == old(self).right,
            final(self).up == old(self).up,
            final(self).yaw == old(self).yaw,
            final(self).pitch == old(self).pitch,
    {
        proof {
            let z = self.zoom_factor as int;
            assert(-(0x1_0000_0000int * MAX_ZOOM_FX) <= z * (factor as int) <= 0x1_0000_0000int
                * MAX_ZOOM_FX) by (nonlinear_arith)
                requires
                    MIN_ZOOM_FX <= z <= MAX_ZOOM_FX,
                    -0x1_0000_0000 <= factor <= 0x1_0000_0000,
            ;
        }
        let scaled = fx_mul(self.zoom_factor, factor);
        self.zoom_factor = clamp(scaled, MIN_ZOOM_FX, MAX_ZOOM_FX);
        self.has_changed = true;
    }

    /// True, and the dirty flag cleared, exactly once per change: a second
    /// call without an intervening mutation returns false.
    pub fn check_if_changed(&mut self) -> (r: bool)
        ensures
            r == old(self).has_changed,
            final(self).has_changed == false,
            final(self).position == old(self).position,
            final(self).front == old(self).front,
            final(self).right == old(self).right,
            final(self).up == old(self).up,
            final(self).yaw == old(self).yaw,
            final(self).pitch == old(self).pitch,
            final(self).zoom_factor == old(self).zoom_factor,
            cam_wf(*old(self)) ==> cam_wf(*final(self)),
    {
        if self.has_changed {
            self.has_changed = false;
            true
        } else {
            false
        }
    }

    /// The projection of a world point onto a `width * height` pixel
    /// screen, in Q16.16 pixel coordinates plus the forward projection as
    /// depth. A point at or behind the camera plane yields the sentinel
    /// `(-1.0, -1.0)`; callers must test for it before plotting.
    pub fn world_to_screen(&self, world_pos: &V3, width: i64, height: i64) -> (r: ScreenPoint)
        requires
            cam_wf(*self),
            v3_bounded(self.position, WORLD_LIMIT as int),
            v3_bounded(*world_pos, WORLD_LIMIT as int),
            0 < width <= 32768,
            0 < height <= 32768,
        ensures
            r == project_spec(*self, *world_pos, width as int, height as int),
            r.depth == dot_spec(
                V3 {
                    x: (world_pos.x - self.position.x) as i64,
                    y: (world_pos.y - self.position.y) as i64,
                    z: (world_pos.z - self.position.z) as i64,
                },
                self.front,
            ),
            r.depth <= 0 ==> r.x == -FX_ONE && r.y == -FX_ONE,
    {
        let rel = v3_sub(world_pos, &self.position);
        let rp = v3_dot(&rel, &self.right);
        let upj = v3_dot(&rel, &self.up);
        let fp = v3_dot(&rel, &self.front);
        if fp > 0 {
            proof {
                lemma_dot_bounded(rel, self.right);
                lemma_dot_bounded(rel, self.up);
            }
            let scale = fx_div(self.zoom_factor, fp);
            proof {
                assert((MAX_ZOOM_FX as int) * (FX_ONE as int) <= (MAX_ZOOM_FX as int) * (
                FX_ONE as int) * fp) by (nonlinear_arith)
                    requires
                        fp >= 1,
                ;
                crate::fixed::lemma_tdiv_bound(
                    (self.zoom_factor as int) * (FX_ONE as int),
                    fp as int,
                    (MAX_ZOOM_FX as int) * (FX_ONE as int),
                );
            }
            let half_w: i64 = width * (FX_ONE / 2);
            let half_h: i64 = height * (FX_ONE / 2);
            let x = screen_coord(half_w, rp, scale);
            let y = screen_coord(half_h, -upj, scale);
            ScreenPoint { x, y, depth: fp }
        } else {
            ScreenPoint { x: -FX_ONE, y: -FX_ONE, depth: fp }
        }
    }
}

/// The right vector derived from any front vector is exactly horizontal:
/// its world-Y component is zero, because it comes from a cross product
/// with the world up axis, which the normalization preserves.
pub proof fn lemma_right_is_horizontal(front: V3)
    ensures
        right_from_front(front).y == 0,
{
    let c = cross_spec(front, world_up_spec());
    assert(c.y == tdiv(front.z * 0 - front.x * 0, FX_ONE as int));
    assert(tdiv(0, FX_ONE as int) == 0) by {
        vstd::arithmetic::div_mod::lemma_div_of0(FX_ONE as int);
    }
    if !(c.x == 0 && c.y == 0 && c.z == 0) {
        let s = c.x * c.x + c.y * c.y + c.z * c.z;
        assert(c.x * c.x + c.y * c.y + c.z * c.z >= 1) by (nonlinear_arith)
            requires
                c.y == 0,
                c.x != 0 || c.z != 0,
        ;
        crate::fixed::lemma_isqrt_spec_props(s);
        let n = crate::vec3::norm_spec(c);
        assert(n >= 1) by (nonlinear_arith)
            requires
                n >= 0,
                n * n <= s,
                s < (n + 1) * (n + 1),
                s >= 1,
        ;
        assert(crate::vec3::normalize_spec(c).y == tdiv(0 * (FX_ONE as int), n) as i64);
        vstd::arithmetic::div_mod::lemma_div_of0(n);
    }
}

/// One application of a shrinking factor keeps the zoom within its clamp
/// bounds and strictly decreases it until it reaches the lower bound.
pub proof fn lemma_zoom_step_down(z: int, f: int)
    requires
        MIN_ZOOM_FX <= z <= MAX_ZOOM_FX,
        0 < f < FX_ONE,
    ensures
        MIN_ZOOM_FX <= zoom_step_spec(z, f) <= MAX_ZOOM_FX,
        zoom_step_spec(z, f) == MIN_ZOOM_FX || zoom_step_spec(z, f) < z,
        zoom_step_spec(z, f) <= z,
{
    let s = FX_ONE as int;
    assert(z * f <= z * s - 1) by (nonlinear_arith)
        requires
            0 < z,
            0 < f < s,
    ;
    assert(0 <= z * f) by (nonlinear_arith)
        requires
            0 <= z,
            0 <= f,
    ;
    vstd::arithmetic::div_mod::lemma_div_is_ordered(z * f, z * s - 1, s);
    vstd::arithmetic::div_mod::lemma_fundamental_div_mod_converse(z * s - 1, s, z - 1, s - 1);
    assert(z * s - 1 == (z - 1) * s + (s - 1)) by (nonlinear_arith);
    vstd::arithmetic::div_mod::lemma_div_pos_is_pos(z * f, s);
}

/// One application of a sufficiently growing factor keeps the zoom within
/// its clamp bounds and strictly increases it until it reaches the upper
/// bound. The factor must exceed one by at least ten raw units — the
/// smallest excess whose truncated product still gains a whole unit at
/// every zoom the clamp admits (at nine, `MIN_ZOOM_FX` is a fixed point).
pub proof fn lemma_zoom_step_up(z: int, f: int)
    requires
        MIN_ZOOM_FX <= z <= MAX_ZOOM_FX,
        FX_ONE + 10 <= f,
    ensures
        MIN_ZOOM_FX <= zoom_step_spec(z, f) <= MAX_ZOOM_FX,
        zoom_step_spec(z, f) == MAX_ZOOM_FX || zoom_step_spec(z, f) > z,
        zoom_step_spec(z, f) >= z,
{
    let s = FX_ONE as int;
    assert((z + 1) * s <= z * f) by (nonlinear_arith)
        requires
            MIN_ZOOM_FX <= z,
            s + 10 <= f,
            s == 65536,
            MIN_ZOOM_FX == 6554,
    ;
    assert(s * (z + 1) == (z + 1) * s) by (nonlinear_arith);
    vstd::arithmetic::div_mod::lemma_div_is_ordered((z + 1) * s, z * f, s);
    vstd::arithmetic::div_mod::lemma_div_multiples_vanish(z + 1, s);
    vstd::arithmetic::div_mod::lemma_div_pos_is_pos(z * f, s);
}

/// Zooming out with a factor below one, repeated often enough, reaches the
/// lower clamp bound exactly: every step shrinks the zoom by at least one
/// raw unit until the clamp holds it.
pub proof fn lemma_zoom_converges_down(z: int, f: int, n: nat)
    requires
        MIN_ZOOM_FX <= z <= MAX_ZOOM_FX,
        0 < f < FX_ONE,
        z - MIN_ZOOM_FX <= n,
    ensures
        zoom_iter_spec(z, f, n) == MIN_ZOOM_FX,
    decreases n,
{
    lemma_zoom_step_down(z, f);
    if n == 0 {
    } else {
        let z1 = zoom_step_spec(z, f);
        if z1 == MIN_ZOOM_FX {
            lemma_zoom_iter_fixed_low(f, (n - 1) as nat);
        } else {
            lemma_zoom_converges_down(z1, f, (n - 1) as nat);
        }
    }
}

/// Zooming in with a factor sufficiently above one, repeated often enough,
/// reaches the upper clamp bound exactly.
pub proof fn lemma_zoom_converges_up(z: int, f: int, n: nat)
    requires
        MIN_ZOOM_FX <= z <= MAX_ZOOM_FX,
        FX_ONE + 10 <= f,
        MAX_ZOOM_FX - z <= n,
    ensures
        zoom_iter_spec(z, f, n) == MAX_ZOOM_FX,
    decreases n,
{
    lemma_zoom_step_up(z, f);
    if n == 0 {
    } else {
        let z1 = zoom_step_spec(z, f);
        if z1 == MAX_ZOOM_FX {
            lemma_zoom_iter_fixed_high(f, (n - 1) as nat);
        } else {
            lemma_zoom_converges_up(z1, f, (n - 1) as nat);
        }
    }
}

/// The lower clamp bound is a fixed point of shrinking zoom steps.
proof fn lemma_zoom_iter_fixed_low(f: int, n: nat)
    requires
        0 < f < FX_ONE,
    ensures
        zoom_iter_spec(MIN_ZOOM_FX as int, f, n) == MIN_ZOOM_FX,
    decreases n,
{
    lemma_zoom_step_down(MIN_ZOOM_FX as int, f);
    if n > 0 {
        lemma_zoom_iter_fixed_low(f, (n - 1) as nat);
    }
}

/// The upper clamp bound is a fixed point of growing zoom steps.
proof fn lemma_zoom_iter_fixed_high(f: int, n: nat)
    requires
        FX_ONE + 10 <= f,
    ensures
        zoom_iter_spec(MAX_ZOOM_FX as int, f, n) == MAX_ZOOM_FX,
    decreases n,
{
    lemma_zoom_step_up(MAX_ZOOM_FX as int, f);
    if n > 0 {
        lemma_zoom_iter_fixed_high(f, (n - 1) as nat);
    }
}

/// One screen coordinate, computed in a wide intermediate and forced into
/// the `i64` range.
fn screen_coord(half: i64, proj: i64, scale: i64) -> (r: i64)
    requires
        0 <= half <= 0x4000_0000,
        -0x400_0000_0000 <= proj <= 0x400_0000_0000,
        -0x10_0000_0000_0000 <= scale <= 0x10_0000_0000_0000,
    ensures
        r == screen_coord_spec(half as int, proj as int, scale as int),
{
    proof {
        assert(-0x400_0000_0000int * 0x10_0000_0000_0000int <= (proj as int) * (scale as int)
            <= 0x400_0000_0000int * 0x10_0000_0000_0000int) by (nonlinear_arith)
            requires
                -0x400_0000_0000 <= proj <= 0x400_0000_0000,
                -0x10_0000_0000_0000 <= scale <= 0x10_0000_0000_0000,
        ;
        crate::fixed::lemma_tdiv_bound(
            (proj as int) * (scale as int),
            FX_ONE as int,
            0x400_0000_0000int * 0x10_0000_0000_0000int,
        );
    }
    let t1: i128 = (proj as i128) * (scale as i128);
    let t2: i128 = div_trunc128(t1, 65536);
    proof {
        assert(-0x400_0000_0000int * 0x10_0000_0000_0000int * 0x4000_0000int <= (t2 as int) * (
        half as int) <= 0x400_0000_0000int * 0x10_0000_0000_0000int * 0x4000_0000int)
            by (nonlinear_arith)
            requires
                -0x400_0000_0000int * 0x10_0000_0000_0000int <= t2 <= 0x400_0000_0000int
                    * 0x10_0000_0000_0000int,
                0 <= half <= 0x4000_0000,
        ;
        crate::fixed::lemma_tdiv_bound(
            (t2 as int) * (half as int),
            FX_ONE as int,
            0x400_0000_0000int * 0x10_0000_0000_0000int * 0x4000_0000int,
        );
    }
    let t3: i128 = t2 * (half as i128);
    let t4: i128 = div_trunc128(t3, 65536);
    clamp_to_i64((half as i128) + t4)
}

/// A dot product of a relative position with a unit-bounded basis vector
/// stays within the screen-coordinate bounds.
proof fn lemma_dot_bounded(a: V3, b: V3)
    requires
        v3_bounded(a, V3_LIMIT as int),
        v3_bounded(b, FX_ONE as int),
    ensures
        -0x400_0000_0000 <= dot_spec(a, b) <= 0x400_0000_0000,
{
    assert(-3 * ((V3_LIMIT as int) * (FX_ONE as int)) <= a.x * b.x + a.y * b.y + a.z * b.z <= 3 * (
    (V3_LIMIT as int) * (FX_ONE as int))) by (nonlinear_arith)
        requires
            v3_bounded(a, V3_LIMIT as int),
            v3_bounded(b, FX_ONE as int),
    ;
    crate::fixed::lemma_tdiv_bound(
        a.x * b.x + a.y * b.y + a.z * b.z,
        FX_ONE as int,
        3 * (V3_LIMIT as int),
    );
    assert(3 * ((V3_LIMIT as int) * (FX_ONE as int)) == (3 * (V3_LIMIT as int)) * (FX_ONE as int))
        by (nonlinear_arith);
}

/// A product of two unit-bounded scalars stays within the fixed-point
/// multiplication bound, and its rescaling stays unit-bounded.
proof fn lemma_unit_mul_unit(a: int, b: int)
    requires
        -FX_ONE <= a <= FX_ONE,
        -FX_ONE <= b <= FX_ONE,
    ensures
        -(0x7FFF_FFFF_FFFF_FFFF * 0x1_0000) <= a * b <= 0x7FFF_FFFF_FFFF_FFFF * 0x1_0000,
        -FX_ONE <= fx_mul_spec(a, b) <= FX_ONE,
{
    assert(-(FX_ONE as int) * (FX_ONE as int) <= a * b <= (FX_ONE as int) * (FX_ONE as int))
        by (nonlinear_arith)
        requires
            -FX_ONE <= a <= FX_ONE,
            -FX_ONE <= b <= FX_ONE,
    ;
    crate::fixed::lemma_tdiv_bound(a * b, FX_ONE as int, FX_ONE as int);
}

/// A movement step along a unit-bounded direction is bounded by the delta.
proof fn lemma_step_bounded(c: int, delta: int)
    requires
        -FX_ONE <= c <= FX_ONE,
        -0x4000_0000 <= delta <= 0x4000_0000,
    ensures
        -0x4000_0000 <= fx_mul_spec(c, delta) <= 0x4000_0000,
{
    assert(-0x4000_0000int * (FX_ONE as int) <= c * delta <= 0x4000_0000int * (FX_ONE as int))
        by (nonlinear_arith)
        requires
            -FX_ONE <= c <= FX_ONE,
            -0x4000_0000 <= delta <= 0x4000_0000,
    ;
    crate::fixed::lemma_tdiv_bound(c * delta, FX_ONE as int, 0x4000_0000);
}

} // verus!
