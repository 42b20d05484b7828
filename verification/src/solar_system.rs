//! Orbiting bodies and the system that owns them: parametric orbital
//! updates in the XZ plane, ring and orbit-path rasterization through the
//! camera projection, and Bresenham line drawing with per-pixel clipping.

use crate::camera::{cam_wf, project_spec, Camera, WORLD_LIMIT};
use crate::fixed::{
    clamp, clamp_spec, div_trunc, fx_mul, fx_mul_spec, iabs, tdiv, wrap_angle, FX_ONE, TAU_FX,
};
use crate::framebuffer::{fb_wf, pixel_index, Framebuffer};
use crate::trig::{cos_fx, cos_fx_spec, sin_fx, sin_fx_spec};
use crate::vec3::{v3_bounded, V3};
use vstd::prelude::*;

verus! {

/// The fixed gray of orbit paths, distinct from body colors.
pub const ORBIT_COLOR: u32 = 0x444444;

/// The largest orbit or body radius a body may carry, in Q16.16 world
/// units.
pub const BODY_LIMIT: i64 = 0x2000_0000;

/// The largest angular speed a body may carry, in Q16.16 radians per
/// second.
pub const SPEED_LIMIT: i64 = 0x4000_0000;

/// The largest time step an update accepts, in Q16.16 seconds.
pub const DT_LIMIT: i64 = 0x1000_0000;

/// A body on a circular orbit in the XZ plane about the origin: the
/// central body is simply one with zero orbit radius and zero speeds.
#[derive(Clone, Copy, PartialEq, Eq, Structural, Debug)]
pub struct Planet {
    pub position: V3,
    pub radius: i64,
    pub orbit_radius: i64,
    pub orbit_speed: i64,
    pub rotation_speed: i64,
    pub current_angle: i64,
    pub rotation_angle: i64,
    pub color: u32,
}

/// A body's standing invariant: wrapped phase angles, bounded radii and
/// speeds, and a position within the orbit's reach.
pub open spec fn planet_wf(p: Planet) -> bool {
    &&& 0 <= p.current_angle < TAU_FX
    &&& 0 <= p.rotation_angle < TAU_FX
    &&& 0 <= p.radius <= BODY_LIMIT
    &&& 0 <= p.orbit_radius <= BODY_LIMIT
    &&& -SPEED_LIMIT <= p.orbit_speed <= SPEED_LIMIT
    &&& -SPEED_LIMIT <= p.rotation_speed <= SPEED_LIMIT
    &&& v3_bounded(p.position, BODY_LIMIT as int)
}

/// The body advanced by `dt`: each phase accumulates its speed times `dt`
/// and wraps into `[0, TAU_FX)`, and the position is recomputed from the
/// orbital parameters alone — never integrated, so no error accumulates.
pub open spec fn planet_update_spec(p: Planet, dt: int) -> Planet {
    let ca = (p.current_angle + fx_mul_spec(p.orbit_speed as int, dt)) % (TAU_FX as int);
    let ra = (p.rotation_angle + fx_mul_spec(p.rotation_speed as int, dt)) % (TAU_FX as int);
    Planet {
        position: V3 {
            x: fx_mul_spec(p.orbit_radius as int, cos_fx_spec(ca)) as i64,
            y: p.position.y,
            z: fx_mul_spec(p.orbit_radius as int, sin_fx_spec(ca)) as i64,
        },
        current_angle: ca as i64,
        rotation_angle: ra as i64,
        ..p
    }
}

impl Planet {
    /// A body with the given orbital parameters, phase angles at zero, and
    /// its position at angle zero on the orbit: `(orbit_radius, 0, 0)`.
    pub fn new(orbit_radius: i64, radius: i64, orbit_speed: i64, rotation_speed: i64, color: u32)
        -> (p: Planet)
        requires
            0 <= orbit_radius <= BODY_LIMIT,
            0 <= radius <= BODY_LIMIT,
            -SPEED_LIMIT <= orbit_speed <= SPEED_LIMIT,
            -SPEED_LIMIT <= rotation_speed <= SPEED_LIMIT,
        ensures
            planet_wf(p),
            p.position == (V3 { x: orbit_radius, y: 0, z: 0 }),
            p.radius == radius,
            p.orbit_radius == orbit_radius,
            p.orbit_speed == orbit_speed,
            p.rotation_speed == rotation_speed,
            p.current_angle == 0,
            p.rotation_angle == 0,
            p.color == color,
    {
        Planet {
            position: V3 { x: orbit_radius, y: 0, z: 0 },
            radius,
            orbit_radius,
            orbit_speed,
            rotation_speed,
            current_angle: 0,
            rotation_angle: 0,
            color,
        }
    }

    /// A ring of 32 samples around the projected centre, plotted in the
    /// framebuffer's current color: the screen-space radius is the body's
    /// radius scaled by the camera's zoom, and `width` and `height` are
    /// the framebuffer's own dimensions. The buffer afterwards is exactly
    /// the old buffer with the ring samples painted over it, each clipped
    /// against the screen; when the projected centre falls off screen (or
    /// behind the camera, where the projection yields its off-screen
    /// sentinel), nothing is drawn at all.
    pub fn draw(&self, framebuffer: &mut Framebuffer, camera: &Camera, width: i64, height: i64)
        requires
            fb_wf(*old(framebuffer)),
            planet_wf(*self),
            cam_wf(*camera),
            v3_bounded(camera.position, WORLD_LIMIT as int),
            0 < width <= 32768,
            0 < height <= 32768,
            width == old(framebuffer).width,
            height == old(framebuffer).height,
        ensures
            fb_wf(*final(framebuffer)),
            final(framebuffer).width == old(framebuffer).width,
            final(framebuffer).height == old(framebuffer).height,
            final(framebuffer).current_color == old(framebuffer).current_color,
            final(framebuffer).buffer.len() == old(framebuffer).buffer.len(),
            final(framebuffer).buffer@ == planet_draw_spec(
                old(framebuffer).buffer@,
                *self,
                *camera,
                width as int,
                height as int,
                old(framebuffer).current_color,
            ),
            forall|i: int|
                0 <= i < final(framebuffer).buffer.len() ==> final(framebuffer).buffer[i] == old(framebuffer).buffer[i] || final(framebuffer).buffer[i] == old(framebuffer).current_color,
    {
        let screen_pos = camera.world_to_screen(&self.position, width, height);
        let wfx: i64 = width * FX_ONE;
        let hfx: i64 = height * FX_ONE;
        if screen_pos.x >= 0 && screen_pos.x < wfx && screen_pos.y >= 0 && screen_pos.y < hfx {
            let mut i: u64 = 0;
            while i < 32
                invariant
                    i <= 32,
                    fb_wf(*framebuffer),
                    framebuffer.width == old(framebuffer).width,
                    framebuffer.height == old(framebuffer).height,
                    framebuffer.current_color == old(framebuffer).current_color,
                    framebuffer.buffer.len() == old(framebuffer).buffer.len(),
                    forall|j: int|
                        0 <= j < framebuffer.buffer.len() ==> framebuffer.buffer[j] == old(framebuffer).buffer[j] || framebuffer.buffer[j] == old(framebuffer).current_color,
                    paint_fx_spec(
                        framebuffer.buffer@,
                        width as int,
                        height as int,
                        old(framebuffer).current_color,
                        ring_pts_from(*self, *camera, width as int, height as int, i as int),
                    ) == paint_fx_spec(
                        old(framebuffer).buffer@,
                        width as int,
                        height as int,
                        old(framebuffer).current_color,
                        ring_pts_from(*self, *camera, width as int, height as int, 0),
                    ),
                    planet_wf(*self),
                    cam_wf(*camera),
                    0 < width <= 32768,
                    0 < height <= 32768,
                    width == old(framebuffer).width,
                    height == old(framebuffer).height,
                    wfx == width * FX_ONE,
                    hfx == height * FX_ONE,
                    screen_pos == project_spec(
                        *camera,
                        self.position,
                        width as int,
                        height as int,
                    ),
                    0 <= screen_pos.x <= 32768 * FX_ONE,
                    0 <= screen_pos.y <= 32768 * FX_ONE,
                decreases 32 - i,
            {
                proof {
                    assert(i * (TAU_FX as u64) <= 32 * (TAU_FX as u64)) by (nonlinear_arith)
                        requires
                            i <= 32,
                    ;
                    vstd::arithmetic::div_mod::lemma_div_is_ordered(
                        (i * (TAU_FX as u64)) as int,
                        32 * (TAU_FX as int),
                        32,
                    );
                    vstd::arithmetic::div_mod::lemma_div_pos_is_pos(
                        (i * (TAU_FX as u64)) as int,
                        32,
                    );
                }
                let ang: i64 = ((i * (TAU_FX as u64)) / 32) as i64;
                let c = cos_fx(ang);
                let s = sin_fx(ang);
                proof {
                    lemma_radius_scale_bounded(self.radius as int, c as int);
                    lemma_radius_scale_bounded(self.radius as int, s as int);
                }
                let rc = fx_mul(self.radius, c);
                let rs = fx_mul(self.radius, s);
                proof {
                    lemma_zoom_scale_bounded(rc as int, camera.zoom_factor as int);
                    lemma_zoom_scale_bounded(rs as int, camera.zoom_factor as int);
                }
                let ox = fx_mul(rc, camera.zoom_factor);
                let oy = fx_mul(rs, camera.zoom_factor);
                let px: i64 = screen_pos.x + ox;
                let py: i64 = screen_pos.y + oy;
                let ghost pre = *framebuffer;
                plot_fx(framebuffer, px, py, wfx, hfx, width, height, screen_pos.depth);
                proof {
                    assert forall|j: int| 0 <= j < framebuffer.buffer.len() implies (
                    framebuffer.buffer[j] == old(framebuffer).buffer[j] || framebuffer.buffer[j]
                        == old(framebuffer).current_color) by {
                        assert(framebuffer.buffer[j] == pre.buffer[j] || framebuffer.buffer[j]
                            == pre.current_color);
                    }
                    let wi = width as int;
                    let hi = height as int;
                    let col = old(framebuffer).current_color;
                    assert((px as int, py as int) == ring_sample_spec(
                        *self,
                        *camera,
                        wi,
                        hi,
                        i as int,
                    ));
                    let rest = ring_pts_from(*self, *camera, wi, hi, i as int + 1);
                    assert(ring_pts_from(*self, *camera, wi, hi, i as int) == seq![
                        ring_sample_spec(*self, *camera, wi, hi, i as int),
                    ] + rest);
                    assert((seq![ring_sample_spec(*self, *camera, wi, hi, i as int)] + rest)[0]
                        == ring_sample_spec(*self, *camera, wi, hi, i as int));
                    assert((seq![ring_sample_spec(*self, *camera, wi, hi, i as int)]
                        + rest).drop_first() =~= rest);
                    reveal_with_fuel(paint_fx_spec, 2);
                    assert(paint_fx_spec(
                        pre.buffer@,
                        wi,
                        hi,
                        col,
                        ring_pts_from(*self, *camera, wi, hi, i as int),
                    ) == paint_fx_spec(framebuffer.buffer@, wi, hi, col, rest));
                }
                i += 1;
            }
            proof {
                let wi = width as int;
                let hi = height as int;
                let col = old(framebuffer).current_color;
                assert(ring_pts_from(*self, *camera, wi, hi, 32) =~= Seq::<(int, int)>::empty());
                assert(paint_fx_spec(
                    framebuffer.buffer@,
                    wi,
                    hi,
                    col,
                    ring_pts_from(*self, *camera, wi, hi, 32),
                ) == framebuffer.buffer@);
            }
        }
    }

    /// The orbit path: 64 equally spaced samples of the orbit circle in
    /// the XZ plane, projected and joined by Bresenham segments (the last
    /// back to the first), drawn in the fixed orbit gray, which stays the
    /// current color afterwards. The buffer afterwards is exactly the old
    /// buffer with the 64 segments painted over it in order.
    pub fn draw_orbit(
        &self,
        framebuffer: &mut Framebuffer,
        camera: &Camera,
        width: i64,
        height: i64,
    )
        requires
            fb_wf(*old(framebuffer)),
            planet_wf(*self),
            cam_wf(*camera),
            v3_bounded(camera.position, WORLD_LIMIT as int),
            0 < width <= 32768,
            0 < height <= 32768,
        ensures
            fb_wf(*final(framebuffer)),
            final(framebuffer).width == old(framebuffer).width,
            final(framebuffer).height == old(framebuffer).height,
            final(framebuffer).current_color == ORBIT_COLOR,
            final(framebuffer).buffer.len() == old(framebuffer).buffer.len(),
            final(framebuffer).buffer@ == paint_spec(
                old(framebuffer).buffer@,
                old(framebuffer).width as int,
                old(framebuffer).height as int,
                ORBIT_COLOR,
                orbit_pts_from(*self, *camera, width as int, height as int, 0),
            ),
            forall|i: int|
                0 <= i < final(framebuffer).buffer.len() ==> final(framebuffer).buffer[i] == old(framebuffer).buffer[i] || final(framebuffer).buffer[i] == ORBIT_COLOR,
    {
        framebuffer.set_current_color(ORBIT_COLOR);
        let mut i: u64 = 0;
        while i < 64
            invariant
                i <= 64,
                fb_wf(*framebuffer),
                framebuffer.width == old(framebuffer).width,
                framebuffer.height == old(framebuffer).height,
                framebuffer.current_color == ORBIT_COLOR,
                framebuffer.buffer.len() == old(framebuffer).buffer.len(),
                forall|j: int|
                    0 <= j < framebuffer.buffer.len() ==> framebuffer.buffer[j] == old(framebuffer).buffer[j] || framebuffer.buffer[j] == ORBIT_COLOR,
                paint_spec(
                    framebuffer.buffer@,
                    old(framebuffer).width as int,
                    old(framebuffer).height as int,
                    ORBIT_COLOR,
                    orbit_pts_from(*self, *camera, width as int, height as int, i as int),
                ) == paint_spec(
                    old(framebuffer).buffer@,
                    old(framebuffer).width as int,
                    old(framebuffer).height as int,
                    ORBIT_COLOR,
                    orbit_pts_from(*self, *camera, width as int, height as int, 0),
                ),
                planet_wf(*self),
                cam_wf(*camera),
                v3_bounded(camera.position, WORLD_LIMIT as int),
                0 < width <= 32768,
                0 < height <= 32768,
            decreases 64 - i,
        {
            proof {
                assert(i * (TAU_FX as u64) <= 64 * (TAU_FX as u64) && (i + 1) * (TAU_FX as u64)
                    <= 64 * (TAU_FX as u64)) by (nonlinear_arith)
                    requires
                        i < 64,
                ;
                vstd::arithmetic::div_mod::lemma_div_is_ordered(
                    (i * (TAU_FX as u64)) as int,
                    64 * (TAU_FX as int),
                    64,
                );
                vstd::arithmetic::div_mod::lemma_div_is_ordered(
                    ((i + 1) * (TAU_FX as u64)) as int,
                    64 * (TAU_FX as int),
                    64,
                );
                vstd::arithmetic::div_mod::lemma_div_pos_is_pos((i * (TAU_FX as u64)) as int, 64);
                vstd::arithmetic::div_mod::lemma_div_pos_is_pos(
                    ((i + 1) * (TAU_FX as u64)) as int,
                    64,
                );
            }
            let ang: i64 = ((i * (TAU_FX as u64)) / 64) as i64;
            let next_ang: i64 = (((i + 1) * (TAU_FX as u64)) / 64) as i64;
            let orbit_point = self.orbit_sample(ang);
            let next_orbit_point = self.orbit_sample(next_ang);
            let sp = camera.world_to_screen(&orbit_point, width, height);
            let nsp = camera.world_to_screen(&next_orbit_point, width, height);
            let ghost pre = *framebuffer;
            proof {
                assert(orbit_point == orbit_sample_spec(*self, i as int));
                assert(next_orbit_point == orbit_sample_spec(*self, i as int + 1));
            }
            draw_line(
                framebuffer,
                to_pixel(sp.x),
                to_pixel(sp.y),
                to_pixel(nsp.x),
                to_pixel(nsp.y),
                sp.depth,
            );
            proof {
                assert forall|j: int| 0 <= j < framebuffer.buffer.len() implies (
                framebuffer.buffer[j] == old(framebuffer).buffer[j] || framebuffer.buffer[j]
                    == ORBIT_COLOR) by {
                    assert(framebuffer.buffer[j] == pre.buffer[j] || framebuffer.buffer[j]
                        == pre.current_color);
                }
                let wi = width as int;
                let hi = height as int;
                let fbw = old(framebuffer).width as int;
                let fbh = old(framebuffer).height as int;
                let seg = orbit_segment_spec(*self, *camera, wi, hi, i as int);
                let rest = orbit_pts_from(*self, *camera, wi, hi, i as int + 1);
                assert(framebuffer.buffer@ == paint_spec(pre.buffer@, fbw, fbh, ORBIT_COLOR, seg));
                assert(orbit_pts_from(*self, *camera, wi, hi, i as int) == seg + rest);
                lemma_paint_concat(pre.buffer@, fbw, fbh, ORBIT_COLOR, seg, rest);
                assert(paint_spec(
                    pre.buffer@,
                    fbw,
                    fbh,
                    ORBIT_COLOR,
                    orbit_pts_from(*self, *camera, wi, hi, i as int),
                ) == paint_spec(framebuffer.buffer@, fbw, fbh, ORBIT_COLOR, rest));
            }
            i += 1;
        }
        proof {
            let wi = width as int;
            let hi = height as int;
            let fbw = old(framebuffer).width as int;
            let fbh = old(framebuffer).height as int;
            assert(orbit_pts_from(*self, *camera, wi, hi, 64) =~= Seq::<(int, int)>::empty());
            assert(paint_spec(
                framebuffer.buffer@,
                fbw,
                fbh,
                ORBIT_COLOR,
                orbit_pts_from(*self, *camera, wi, hi, 64),
            ) == framebuffer.buffer@);
        }
    }

    /// The point of the orbit circle at the given phase angle, in the XZ
    /// plane.
    fn orbit_sample(&self, ang: i64) -> (r: V3)
        requires
            planet_wf(*self),
            0 <= ang <= TAU_FX,
        ensures
            r.x == fx_mul_spec(self.orbit_radius as int, cos_fx_spec(ang as int)),
            r.y == 0,
            r.z == fx_mul_spec(self.orbit_radius as int, sin_fx_spec(ang as int)),
            v3_bounded(r, BODY_LIMIT as int),
    {
        let c = cos_fx(ang);
        let s = sin_fx(ang);
        proof {
            lemma_radius_scale_bounded(self.orbit_radius as int, c as int);
            lemma_radius_scale_bounded(self.orbit_radius as int, s as int);
        }
        V3 { x: fx_mul(self.orbit_radius, c), y: 0, z: fx_mul(self.orbit_radius, s) }
    }

    /// The body advanced by the Q16.16 time step `dt`; both phase angles
    /// end wrapped into `[0, TAU_FX)`.
    pub fn update(&mut self, delta_time: i64)
        requires
            planet_wf(*old(self)),
            -DT_LIMIT <= delta_time <= DT_LIMIT,
        ensures
            planet_wf(*final(self)),
            *final(self) == planet_update_spec(*old(self), delta_time as int),
            0 <= final(self).current_angle < TAU_FX,
            0 <= final(self).rotation_angle < TAU_FX,
    {
        proof {
            lemma_speed_step_bounded(self.orbit_speed as int, delta_time as int);
            lemma_speed_step_bounded(self.rotation_speed as int, delta_time as int);
        }
        let ca = wrap_angle(self.current_angle + fx_mul(self.orbit_speed, delta_time));
        let ra = wrap_angle(self.rotation_angle + fx_mul(self.rotation_speed, delta_time));
        let c = cos_fx(ca);
        let s = sin_fx(ca);
        proof {
            lemma_radius_scale_bounded(self.orbit_radius as int, c as int);
            lemma_radius_scale_bounded(self.orbit_radius as int, s as int);
        }
        let px = fx_mul(self.orbit_radius, c);
        let pz = fx_mul(self.orbit_radius, s);
        self.current_angle = ca;
        self.rotation_angle = ra;
        self.position = V3 { x: px, y: self.position.y, z: pz };
    }
}

/// `v` taken from Q16.16 screen coordinates to whole pixels: the
/// saturating-to-32-bit truncation the rasterizer consumes.
pub open spec fn to_pixel_spec(v: int) -> int {
    tdiv(clamp_spec(v, -0x8000_0000 * (FX_ONE as int), 0x7FFF_FFFF * (FX_ONE as int)), FX_ONE as int)
}

/// Q16.16 screen coordinates to whole pixels, truncating toward zero and
/// saturating at the 32-bit pixel range.
pub fn to_pixel(v: i64) -> (r: i64)
    ensures
        r == to_pixel_spec(v as int),
        -0x8000_0000 <= r <= 0x7FFF_FFFF,
{
    let c = clamp(v, -0x8000_0000 * FX_ONE, 0x7FFF_FFFF * FX_ONE);
    proof {
        crate::fixed::lemma_tdiv_bound(c as int, FX_ONE as int, 0x8000_0000);
    }
    div_trunc(c, FX_ONE)
}

/// The buffer with one sample written: the pixel at `p`, when it lies on a
/// `w * h` screen, set to `color`; a sample off screen leaves the buffer as
/// it is.
pub open spec fn paint_pixel_spec(s: Seq<u32>, w: int, h: int, color: u32, p: (int, int)) -> Seq<
    u32,
> {
    if 0 <= p.0 < w && 0 <= p.1 < h {
        s.update(p.1 * w + p.0, color)
    } else {
        s
    }
}

/// The buffer with every sample of `pts` written in order, each clipped
/// against the screen.
pub open spec fn paint_spec(s: Seq<u32>, w: int, h: int, color: u32, pts: Seq<(int, int)>) -> Seq<
    u32,
>
    decreases pts.len(),
{
    if pts.len() == 0 {
        s
    } else {
        paint_spec(paint_pixel_spec(s, w, h, color, pts[0]), w, h, color, pts.drop_first())
    }
}

/// One Bresenham step: from cursor `(cx, cy)` with error term `e`, the next
/// cursor and error. The doubled error decides which axes advance; an axis
/// that has reached its target no longer advances, and if neither guarded
/// step fires the cursor still moves one step toward the target.
pub open spec fn bres_next_spec(
    cx: int,
    cy: int,
    e: int,
    x2: int,
    y2: int,
    dx: int,
    dy: int,
    sx: int,
    sy: int,
) -> (int, int, int) {
    let e2 = 2 * e;
    let go_x = e2 >= dy && cx != x2;
    let go_y = e2 <= dx && cy != y2;
    let nx = if go_x {
        cx + sx
    } else {
        cx
    };
    let e1 = if go_x {
        e + dy
    } else {
        e
    };
    let ny = if go_y {
        cy + sy
    } else {
        cy
    };
    let e3 = if go_y {
        e1 + dx
    } else {
        e1
    };
    if go_x || go_y {
        (nx, ny, e3)
    } else if cx != x2 {
        (cx + sx, cy, e)
    } else {
        (cx, cy + sy, e)
    }
}

/// The samples the Bresenham walk visits from the given cursor until it
/// reaches `(x2, y2)` (or the fuel runs out, which a sufficient fuel rules
/// out), the cursor itself included.
pub open spec fn bres_pts_spec(
    cx: int,
    cy: int,
    e: int,
    x2: int,
    y2: int,
    dx: int,
    dy: int,
    sx: int,
    sy: int,
    fuel: nat,
) -> Seq<(int, int)>
    decreases fuel,
{
    if (cx == x2 && cy == y2) || fuel == 0 {
        seq![(cx, cy)]
    } else {
        let n = bres_next_spec(cx, cy, e, x2, y2, dx, dy, sx, sy);
        seq![(cx, cy)] + bres_pts_spec(n.0, n.1, n.2, x2, y2, dx, dy, sx, sy, (fuel - 1) as nat)
    }
}

/// The full 8-connected Bresenham path from `(x1, y1)` to `(x2, y2)`, both
/// endpoints included.
pub open spec fn bres_path_spec(x1: int, y1: int, x2: int, y2: int) -> Seq<(int, int)> {
    let dx = iabs(x2 - x1);
    let dy = -iabs(y2 - y1);
    let sx: int = if x1 < x2 {
        1
    } else {
        -1
    };
    let sy: int = if y1 < y2 {
        1
    } else {
        -1
    };
    bres_pts_spec(x1, y1, dx + dy, x2, y2, dx, dy, sx, sy, (iabs(x2 - x1) + iabs(y2 - y1)) as nat)
}

/// Two consecutive samples of a path differ by at most one step along
/// each axis: they are 8-adjacent.
pub open spec fn step_adjacent(pts: Seq<(int, int)>, i: int) -> bool {
    iabs(pts[i + 1].0 - pts[i].0) <= 1 && iabs(pts[i + 1].1 - pts[i].1) <= 1
}

/// Painting a concatenation of sample runs is painting one run after the
/// other.
proof fn lemma_paint_concat(
    s: Seq<u32>,
    w: int,
    h: int,
    color: u32,
    a: Seq<(int, int)>,
    b: Seq<(int, int)>,
)
    ensures
        paint_spec(s, w, h, color, a + b) == paint_spec(paint_spec(s, w, h, color, a), w, h, color, b),
    decreases a.len(),
{
    if a.len() == 0 {
        assert(a + b =~= b);
        assert(paint_spec(s, w, h, color, a) == s);
    } else {
        assert((a + b)[0] == a[0]);
        assert((a + b).drop_first() =~= a.drop_first() + b);
        lemma_paint_concat(paint_pixel_spec(s, w, h, color, a[0]), w, h, color, a.drop_first(), b);
    }
}

/// The buffer with one Q16.16 screen sample written: a sample within the
/// `w * h` screen (both in whole pixels, the sample in fixed units) colors
/// the pixel it falls on; one off screen leaves the buffer as it is.
pub open spec fn paint_fx_pixel_spec(s: Seq<u32>, w: int, h: int, color: u32, p: (int, int)) -> Seq<
    u32,
> {
    if 0 <= p.0 < w * (FX_ONE as int) && 0 <= p.1 < h * (FX_ONE as int) {
        s.update((p.1 / (FX_ONE as int)) * w + p.0 / (FX_ONE as int), color)
    } else {
        s
    }
}

/// The buffer with every Q16.16 sample of `pts` written in order, each
/// clipped against the screen.
pub open spec fn paint_fx_spec(s: Seq<u32>, w: int, h: int, color: u32, pts: Seq<(int, int)>) -> Seq<
    u32,
>
    decreases pts.len(),
{
    if pts.len() == 0 {
        s
    } else {
        paint_fx_spec(paint_fx_pixel_spec(s, w, h, color, pts[0]), w, h, color, pts.drop_first())
    }
}

/// The Q16.16 screen position of the `i`-th of the 32 ring samples around
/// a body's projected centre: the projection of the body's position,
/// offset by its radius times the sample angle's cosine and sine, scaled
/// by the camera's zoom.
pub open spec fn ring_sample_spec(p: Planet, c: Camera, width: int, height: int, i: int) -> (
    int,
    int,
) {
    let sp = project_spec(c, p.position, width, height);
    let ang = i * (TAU_FX as int) / 32;
    let ox = fx_mul_spec(fx_mul_spec(p.radius as int, cos_fx_spec(ang)), c.zoom_factor as int);
    let oy = fx_mul_spec(fx_mul_spec(p.radius as int, sin_fx_spec(ang)), c.zoom_factor as int);
    (sp.x + ox, sp.y + oy)
}

/// The ring samples from index `i` up to 32, in draw order.
pub open spec fn ring_pts_from(p: Planet, c: Camera, width: int, height: int, i: int) -> Seq<
    (int, int),
>
    decreases 32 - i,
{
    if i < 0 || i >= 32 {
        Seq::empty()
    } else {
        seq![ring_sample_spec(p, c, width, height, i)] + ring_pts_from(p, c, width, height, i + 1)
    }
}

/// A body drawn through the camera onto a `width * height` buffer: when
/// the projected centre lies on screen, the 32 clipped ring samples
/// painted in `color`; otherwise the buffer untouched.
pub open spec fn planet_draw_spec(
    buf: Seq<u32>,
    p: Planet,
    c: Camera,
    width: int,
    height: int,
    color: u32,
) -> Seq<u32> {
    let sp = project_spec(c, p.position, width, height);
    if 0 <= sp.x < width * (FX_ONE as int) && 0 <= sp.y < height * (FX_ONE as int) {
        paint_fx_spec(buf, width, height, color, ring_pts_from(p, c, width, height, 0))
    } else {
        buf
    }
}

/// The world point of a body's orbit circle at sample index `i` of 64, in
/// the XZ plane.
pub open spec fn orbit_sample_spec(p: Planet, i: int) -> V3 {
    let ang = i * (TAU_FX as int) / 64;
    V3 {
        x: fx_mul_spec(p.orbit_radius as int, cos_fx_spec(ang)) as i64,
        y: 0,
        z: fx_mul_spec(p.orbit_radius as int, sin_fx_spec(ang)) as i64,
    }
}

/// The pixel-level Bresenham segment joining the projections of orbit
/// samples `i` and `i + 1` (sample 64 closing the circle back at angle
/// `TAU_FX`).
pub open spec fn orbit_segment_spec(p: Planet, c: Camera, width: int, height: int, i: int) -> Seq<
    (int, int),
> {
    let sp = project_spec(c, orbit_sample_spec(p, i), width, height);
    let np = project_spec(c, orbit_sample_spec(p, i + 1), width, height);
    bres_path_spec(
        to_pixel_spec(sp.x as int),
        to_pixel_spec(sp.y as int),
        to_pixel_spec(np.x as int),
        to_pixel_spec(np.y as int),
    )
}

/// The pixels of the orbit segments from index `i` up to 64, in draw
/// order.
pub open spec fn orbit_pts_from(p: Planet, c: Camera, width: int, height: int, i: int) -> Seq<
    (int, int),
>
    decreases 64 - i,
{
    if i < 0 || i >= 64 {
        Seq::empty()
    } else {
        orbit_segment_spec(p, c, width, height, i) + orbit_pts_from(p, c, width, height, i + 1)
    }
}

/// The buffer with the orbit paths of the bodies from index `j` on drawn
/// over it, in insertion order, all in the orbit gray.
pub open spec fn system_orbits_spec(
    buf: Seq<u32>,
    s: SolarSystem,
    c: Camera,
    w: int,
    h: int,
    j: int,
) -> Seq<u32>
    decreases s.planets.len() - j,
{
    if j < 0 || j >= s.planets.len() {
        buf
    } else {
        system_orbits_spec(
            paint_spec(buf, w, h, ORBIT_COLOR, orbit_pts_from(s.planets[j], c, w, h, 0)),
            s,
            c,
            w,
            h,
            j + 1,
        )
    }
}

/// The buffer with the bodies from index `j` on drawn over it, in
/// insertion order, each in its own color.
pub open spec fn system_bodies_spec(
    buf: Seq<u32>,
    s: SolarSystem,
    c: Camera,
    w: int,
    h: int,
    j: int,
) -> Seq<u32>
    decreases s.planets.len() - j,
{
    if j < 0 || j >= s.planets.len() {
        buf
    } else {
        system_bodies_spec(
            planet_draw_spec(buf, s.planets[j], c, w, h, s.planets[j].color),
            s,
            c,
            w,
            h,
            j + 1,
        )
    }
}

/// The whole scene drawn over a buffer: every orbit path, then the central
/// body in its color, then each orbiting body in insertion order in its
/// color — the painter's algorithm, later draws over earlier ones.
pub open spec fn system_draw_spec(buf: Seq<u32>, s: SolarSystem, c: Camera, w: int, h: int) -> Seq<
    u32,
> {
    system_bodies_spec(
        planet_draw_spec(system_orbits_spec(buf, s, c, w, h, 0), s.sun, c, w, h, s.sun.color),
        s,
        c,
        w,
        h,
        0,
    )
}

/// The Bresenham walk, started with its cursor correctly oriented toward
/// the target and enough fuel, visits a chain of 8-adjacent samples from
/// the cursor to the target.
#[verifier::rlimit(50)]
proof fn lemma_bres_pts_chain(
    cx: int,
    cy: int,
    e: int,
    x2: int,
    y2: int,
    dx: int,
    dy: int,
    sx: int,
    sy: int,
    fuel: nat,
)
    requires
        sx == 1 || sx == -1,
        sy == 1 || sy == -1,
        sx == 1 ==> cx <= x2,
        sx == -1 ==> x2 <= cx,
        sy == 1 ==> cy <= y2,
        sy == -1 ==> y2 <= cy,
        fuel >= iabs(x2 - cx) + iabs(y2 - cy),
    ensures
        bres_pts_spec(cx, cy, e, x2, y2, dx, dy, sx, sy, fuel).len() >= 1,
        bres_pts_spec(cx, cy, e, x2, y2, dx, dy, sx, sy, fuel)[0] == (cx, cy),
        bres_pts_spec(cx, cy, e, x2, y2, dx, dy, sx, sy, fuel).last() == (x2, y2),
        forall|i: int|
            0 <= i < bres_pts_spec(cx, cy, e, x2, y2, dx, dy, sx, sy, fuel).len() - 1
                ==> #[trigger] step_adjacent(bres_pts_spec(cx, cy, e, x2, y2, dx, dy, sx, sy, fuel), i),
    decreases fuel,
{
    let pts = bres_pts_spec(cx, cy, e, x2, y2, dx, dy, sx, sy, fuel);
    if cx == x2 && cy == y2 {
        assert(pts == seq![(cx, cy)]);
    } else {
        let n = bres_next_spec(cx, cy, e, x2, y2, dx, dy, sx, sy);
        let rest = bres_pts_spec(n.0, n.1, n.2, x2, y2, dx, dy, sx, sy, (fuel - 1) as nat);
        lemma_bres_pts_chain(n.0, n.1, n.2, x2, y2, dx, dy, sx, sy, (fuel - 1) as nat);
        assert(pts == seq![(cx, cy)] + rest);
        assert(pts.last() == rest.last());
        assert forall|i: int| 0 <= i < pts.len() - 1 implies #[trigger] step_adjacent(pts, i) by {
            if i == 0 {
                assert(pts[0] == (cx, cy));
                assert(pts[1] == rest[0]);
                assert(rest[0] == (n.0, n.1));
            } else {
                assert(pts[i] == rest[i - 1]);
                assert(pts[i + 1] == rest[i]);
                assert(step_adjacent(rest, i - 1));
            }
        }
    }
}

/// The rasterized path is an 8-connected chain: it starts at the first
/// endpoint, ends at the second, and every consecutive pair of samples
/// differs by at most one step along each axis.
#[verifier::rlimit(50)]
pub proof fn lemma_bres_path_connects(x1: int, y1: int, x2: int, y2: int)
    ensures
        bres_path_spec(x1, y1, x2, y2).len() >= 1,
        bres_path_spec(x1, y1, x2, y2)[0] == (x1, y1),
        bres_path_spec(x1, y1, x2, y2).last() == (x2, y2),
        forall|i: int|
            0 <= i < bres_path_spec(x1, y1, x2, y2).len() - 1 ==> #[trigger] step_adjacent(
                bres_path_spec(x1, y1, x2, y2),
                i,
            ),
{
    let dx = iabs(x2 - x1);
    let dy = -iabs(y2 - y1);
    let sx: int = if x1 < x2 {
        1
    } else {
        -1
    };
    let sy: int = if y1 < y2 {
        1
    } else {
        -1
    };
    lemma_bres_pts_chain(
        x1,
        y1,
        dx + dy,
        x2,
        y2,
        dx,
        dy,
        sx,
        sy,
        (iabs(x2 - x1) + iabs(y2 - y1)) as nat,
    );
}

/// Every pixel on the 8-connected Bresenham path from `(x1, y1)` to
/// `(x2, y2)` plotted in the current color at the given depth, with any
/// sample outside the screen silently clipped: the buffer afterwards is
/// exactly the old buffer with the path painted over it.
pub fn draw_line(framebuffer: &mut Framebuffer, x1: i64, y1: i64, x2: i64, y2: i64, depth: i64)
    requires
        fb_wf(*old(framebuffer)),
        -0x8000_0000 <= x1 <= 0x8000_0000,
        -0x8000_0000 <= y1 <= 0x8000_0000,
        -0x8000_0000 <= x2 <= 0x8000_0000,
        -0x8000_0000 <= y2 <= 0x8000_0000,
    ensures
        fb_wf(*final(framebuffer)),
        final(framebuffer).width == old(framebuffer).width,
        final(framebuffer).height == old(framebuffer).height,
        final(framebuffer).current_color == old(framebuffer).current_color,
        final(framebuffer).buffer.len() == old(framebuffer).buffer.len(),
        final(framebuffer).buffer@ == paint_spec(
            old(framebuffer).buffer@,
            old(framebuffer).width as int,
            old(framebuffer).height as int,
            old(framebuffer).current_color,
            bres_path_spec(x1 as int, y1 as int, x2 as int, y2 as int),
        ),
        forall|i: int|
            0 <= i < final(framebuffer).buffer.len() ==> final(framebuffer).buffer[i] == old(framebuffer).buffer[i] || final(framebuffer).buffer[i] == old(framebuffer).current_color,
        0 <= x2 < old(framebuffer).width && 0 <= y2 < old(framebuffer).height ==> final(framebuffer).buffer[pixel_index(*old(framebuffer), x2 as int, y2 as int)] == old(framebuffer).current_color,
{
    let dx: i64 = if x2 >= x1 {
        x2 - x1
    } else {
        x1 - x2
    };
    let dy: i64 = if y2 >= y1 {
        -(y2 - y1)
    } else {
        -(y1 - y2)
    };
    let sx: i64 = if x1 < x2 {
        1
    } else {
        -1
    };
    let sy: i64 = if y1 < y2 {
        1
    } else {
        -1
    };
    let mut err: i128 = (dx + dy) as i128;
    let mut cx: i64 = x1;
    let mut cy: i64 = y1;
    let ghost m0: int = iabs(x2 - x1) + iabs(y2 - y1);
    let ghost mut fuel: nat = m0 as nat;
    proof {
        assert(bres_path_spec(x1 as int, y1 as int, x2 as int, y2 as int) == bres_pts_spec(
            cx as int,
            cy as int,
            err as int,
            x2 as int,
            y2 as int,
            dx as int,
            dy as int,
            sx as int,
            sy as int,
            fuel,
        ));
    }
    loop
        invariant_except_break
            fb_wf(*framebuffer),
            framebuffer.width == old(framebuffer).width,
            framebuffer.height == old(framebuffer).height,
            framebuffer.current_color == old(framebuffer).current_color,
            framebuffer.buffer.len() == old(framebuffer).buffer.len(),
            forall|i: int|
                0 <= i < framebuffer.buffer.len() ==> framebuffer.buffer[i] == old(framebuffer).buffer[i] || framebuffer.buffer[i] == old(framebuffer).current_color,
            paint_spec(
                framebuffer.buffer@,
                old(framebuffer).width as int,
                old(framebuffer).height as int,
                old(framebuffer).current_color,
                bres_pts_spec(
                    cx as int,
                    cy as int,
                    err as int,
                    x2 as int,
                    y2 as int,
                    dx as int,
                    dy as int,
                    sx as int,
                    sy as int,
                    fuel,
                ),
            ) == paint_spec(
                old(framebuffer).buffer@,
                old(framebuffer).width as int,
                old(framebuffer).height as int,
                old(framebuffer).current_color,
                bres_path_spec(x1 as int, y1 as int, x2 as int, y2 as int),
            ),
            fuel >= iabs(x2 - cx) + iabs(y2 - cy),
            sx == 1 || sx == -1,
            sy == 1 || sy == -1,
            sx == 1 ==> cx <= x2 && x1 <= cx,
            sx == -1 ==> x2 <= cx && cx <= x1,
            sy == 1 ==> cy <= y2 && y1 <= cy,
            sy == -1 ==> y2 <= cy && cy <= y1,
            -0x8000_0000 <= x1 <= 0x8000_0000,
            -0x8000_0000 <= y1 <= 0x8000_0000,
            -0x8000_0000 <= x2 <= 0x8000_0000,
            -0x8000_0000 <= y2 <= 0x8000_0000,
            -0x8000_0000 <= cx <= 0x8000_0000,
            -0x8000_0000 <= cy <= 0x8000_0000,
            0 <= dx <= 0x1_0000_0000,
            -0x1_0000_0000 <= dy <= 0,
            m0 == iabs(x2 - x1) + iabs(y2 - y1),
            iabs(x2 - cx) + iabs(y2 - cy) <= m0,
            -0x8_0000_0000int * (1 + m0 - (iabs(x2 - cx) + iabs(y2 - cy))) - 0x8_0000_0000 <= err
                <= 0x8_0000_0000int * (1 + m0 - (iabs(x2 - cx) + iabs(y2 - cy)))
                + 0x8_0000_0000,
        ensures
            fb_wf(*framebuffer),
            framebuffer.width == old(framebuffer).width,
            framebuffer.height == old(framebuffer).height,
            framebuffer.current_color == old(framebuffer).current_color,
            framebuffer.buffer.len() == old(framebuffer).buffer.len(),
            framebuffer.buffer@ == paint_spec(
                old(framebuffer).buffer@,
                old(framebuffer).width as int,
                old(framebuffer).height as int,
                old(framebuffer).current_color,
                bres_path_spec(x1 as int, y1 as int, x2 as int, y2 as int),
            ),
            forall|i: int|
                0 <= i < framebuffer.buffer.len() ==> framebuffer.buffer[i] == old(framebuffer).buffer[i] || framebuffer.buffer[i] == old(framebuffer).current_color,
            0 <= x2 < old(framebuffer).width && 0 <= y2 < old(framebuffer).height ==>
                framebuffer.buffer[pixel_index(*old(framebuffer), x2 as int, y2 as int)] == old(framebuffer).current_color,
        decreases iabs(x2 - cx) + iabs(y2 - cy),
    {
        let ghost pre = *framebuffer;
        let ghost w = old(framebuffer).width as int;
        let ghost h = old(framebuffer).height as int;
        let ghost col = old(framebuffer).current_color;
        let ghost cx0: i64 = cx;
        let ghost cy0: i64 = cy;
        let ghost err0: i128 = err;
        let ghost rem = bres_pts_spec(
            cx as int,
            cy as int,
            err as int,
            x2 as int,
            y2 as int,
            dx as int,
            dy as int,
            sx as int,
            sy as int,
            fuel,
        );
        if cx >= 0 && cy >= 0 && (cx as usize) < framebuffer.width && (cy as usize)
            < framebuffer.height {
            framebuffer.point(cx as usize, cy as usize, depth);
            proof {
                let idx = pixel_index(pre, cx as int, cy as int);
                vstd::arithmetic::mul::lemma_mul_inequality(
                    cy as int + 1,
                    pre.height as int,
                    pre.width as int,
                );
                vstd::arithmetic::mul::lemma_mul_is_distributive_add_other_way(
                    pre.width as int,
                    cy as int,
                    1,
                );
                vstd::arithmetic::mul::lemma_mul_is_commutative(cy as int, pre.width as int);
                vstd::arithmetic::mul::lemma_mul_is_commutative(pre.height as int, pre.width as int);
                assert(0 <= idx < pre.buffer.len());
                assert(framebuffer.buffer@ == pre.buffer@.update(idx, pre.current_color));
                assert(framebuffer.buffer[idx] == pre.current_color);
                assert forall|i: int| 0 <= i < framebuffer.buffer.len() implies (
                framebuffer.buffer[i] == pre.buffer[i] || framebuffer.buffer[i]
                    == pre.current_color) by {
                    if i != idx {
                        assert(framebuffer.buffer@[i] == pre.buffer@[i]);
                    }
                }
                assert forall|i: int| 0 <= i < framebuffer.buffer.len() implies (
                framebuffer.buffer[i] == old(framebuffer).buffer[i] || framebuffer.buffer[i] == old(
                    framebuffer,
                ).current_color) by {
                    if i != idx {
                        assert(framebuffer.buffer@[i] == pre.buffer@[i]);
                    }
                }
            }
        }
        proof {
            assert(framebuffer.buffer@ == paint_pixel_spec(
                pre.buffer@,
                w,
                h,
                col,
                (cx as int, cy as int),
            ));
        }
        if cx == x2 && cy == y2 {
            proof {
                if 0 <= x2 < old(framebuffer).width && 0 <= y2 < old(framebuffer).height {
                    assert(pixel_index(pre, cx as int, cy as int) == pixel_index(
                        *old(framebuffer),
                        x2 as int,
                        y2 as int,
                    ));
                }
                reveal_with_fuel(paint_spec, 3);
                assert(rem == seq![(cx as int, cy as int)]);
                assert(rem.drop_first() =~= Seq::<(int, int)>::empty());
                assert(paint_spec(pre.buffer@, w, h, col, rem) == framebuffer.buffer@);
            }
            break ;
        }
        let e2: i128 = 2 * err;
        let mut stepped = false;
        if e2 >= dy as i128 && cx != x2 {
            err = err + dy as i128;
            cx = cx + sx;
            stepped = true;
        }
        if e2 <= dx as i128 && cy != y2 {
            err = err + dx as i128;
            cy = cy + sy;
            stepped = true;
        }
        if !stepped {
            // The error bookkeeping always fires one of the guarded steps
            // on the standard path; this keeps the step count finite
            // without relying on that.
            if cx != x2 {
                cx = cx + sx;
            } else {
                cy = cy + sy;
            }
        }
        proof {
            let n = bres_next_spec(
                cx0 as int,
                cy0 as int,
                err0 as int,
                x2 as int,
                y2 as int,
                dx as int,
                dy as int,
                sx as int,
                sy as int,
            );
            assert(n == (cx as int, cy as int, err as int));
            assert(fuel > 0);
            let rest = bres_pts_spec(
                cx as int,
                cy as int,
                err as int,
                x2 as int,
                y2 as int,
                dx as int,
                dy as int,
                sx as int,
                sy as int,
                (fuel - 1) as nat,
            );
            assert(rem == seq![(cx0 as int, cy0 as int)] + rest);
            assert((seq![(cx0 as int, cy0 as int)] + rest)[0] == (cx0 as int, cy0 as int));
            assert((seq![(cx0 as int, cy0 as int)] + rest).drop_first() =~= rest);
            reveal_with_fuel(paint_spec, 2);
            assert(paint_spec(pre.buffer@, w, h, col, rem) == paint_spec(
                framebuffer.buffer@,
                w,
                h,
                col,
                rest,
            ));
            fuel = (fuel - 1) as nat;
        }
    }
}

/// A Q16.16 screen position plotted as a whole pixel in the current color,
/// clipped against the screen: positions outside `[0, wfx) x [0, hfx)`
/// leave the buffer untouched.
fn plot_fx(
    framebuffer: &mut Framebuffer,
    px: i64,
    py: i64,
    wfx: i64,
    hfx: i64,
    width: i64,
    height: i64,
    depth: i64,
)
    requires
        fb_wf(*old(framebuffer)),
        0 < width <= 32768,
        0 < height <= 32768,
        wfx == width * FX_ONE,
        hfx == height * FX_ONE,
        width == old(framebuffer).width,
        height == old(framebuffer).height,
    ensures
        fb_wf(*final(framebuffer)),
        final(framebuffer).width == old(framebuffer).width,
        final(framebuffer).height == old(framebuffer).height,
        final(framebuffer).current_color == old(framebuffer).current_color,
        final(framebuffer).buffer.len() == old(framebuffer).buffer.len(),
        final(framebuffer).buffer@ == paint_fx_pixel_spec(
            old(framebuffer).buffer@,
            width as int,
            height as int,
            old(framebuffer).current_color,
            (px as int, py as int),
        ),
        forall|i: int|
            0 <= i < final(framebuffer).buffer.len() ==> final(framebuffer).buffer[i] == old(framebuffer).buffer[i] || final(framebuffer).buffer[i] == old(framebuffer).current_color,
{
    if px >= 0 && px < wfx && py >= 0 && py < hfx {
        let xpix: u64 = (px as u64) / 65536;
        let ypix: u64 = (py as u64) / 65536;
        proof {
            lemma_fx_pixel_in_range(px as int, width as int);
            lemma_fx_pixel_in_range(py as int, height as int);
        }
        let ghost pre = *framebuffer;
        framebuffer.point(xpix as usize, ypix as usize, depth);
        proof {
            assert(xpix < pre.width && ypix < pre.height);
            let idx = pixel_index(pre, xpix as int, ypix as int);
            vstd::arithmetic::mul::lemma_mul_inequality(
                ypix as int + 1,
                pre.height as int,
                pre.width as int,
            );
            vstd::arithmetic::mul::lemma_mul_is_distributive_add_other_way(
                pre.width as int,
                ypix as int,
                1,
            );
            vstd::arithmetic::mul::lemma_mul_is_commutative(ypix as int, pre.width as int);
            vstd::arithmetic::mul::lemma_mul_is_commutative(pre.height as int, pre.width as int);
            assert(0 <= idx < pre.buffer.len());
            assert(framebuffer.buffer@ == pre.buffer@.update(idx, pre.current_color));
            assert(xpix as int == (px as int) / (FX_ONE as int));
            assert(ypix as int == (py as int) / (FX_ONE as int));
            assert(idx == ((py as int) / (FX_ONE as int)) * (width as int) + (px as int) / (
            FX_ONE as int));
            assert(framebuffer.buffer@ == paint_fx_pixel_spec(
                pre.buffer@,
                width as int,
                height as int,
                pre.current_color,
                (px as int, py as int),
            ));
            assert forall|i: int| 0 <= i < framebuffer.buffer.len() implies (
            framebuffer.buffer[i] == pre.buffer[i] || framebuffer.buffer[i] == pre.current_color) by {
                if i != idx {
                    assert(framebuffer.buffer@[i] == pre.buffer@[i]);
                }
            }
        }
    }
}

/// A nonnegative Q16.16 coordinate below `bound * FX_ONE` lands on a pixel
/// row or column below `bound`.
proof fn lemma_fx_pixel_in_range(v: int, bound: int)
    requires
        0 <= v,
        0 < bound,
        v < bound * FX_ONE,
    ensures
        0 <= v / (FX_ONE as int) < bound,
{
    vstd::arithmetic::div_mod::lemma_div_pos_is_pos(v, FX_ONE as int);
    vstd::arithmetic::div_mod::lemma_div_is_ordered(v, bound * (FX_ONE as int) - 1, FX_ONE as int);
    vstd::arithmetic::div_mod::lemma_fundamental_div_mod_converse(
        bound * (FX_ONE as int) - 1,
        FX_ONE as int,
        bound - 1,
        FX_ONE - 1,
    );
    assert(bound * (FX_ONE as int) - 1 == (bound - 1) * (FX_ONE as int) + (FX_ONE - 1))
        by (nonlinear_arith);
}

/// A radius-scaled ring offset times the zoom factor stays within safe
/// screen-offset bounds.
proof fn lemma_zoom_scale_bounded(rc: int, zoom: int)
    requires
        -BODY_LIMIT <= rc <= BODY_LIMIT,
        0 < zoom <= crate::camera::MAX_ZOOM_FX,
    ensures
        -(0x7FFF_FFFF_FFFF_FFFF * 0x1_0000) <= rc * zoom <= 0x7FFF_FFFF_FFFF_FFFF * 0x1_0000,
        -0x2_0000_0000_0000 <= fx_mul_spec(rc, zoom) <= 0x2_0000_0000_0000,
{
    assert(-(BODY_LIMIT as int) * (crate::camera::MAX_ZOOM_FX as int) <= rc * zoom <= (
    BODY_LIMIT as int) * (crate::camera::MAX_ZOOM_FX as int)) by (nonlinear_arith)
        requires
            -BODY_LIMIT <= rc <= BODY_LIMIT,
            0 < zoom <= crate::camera::MAX_ZOOM_FX,
    ;
    crate::fixed::lemma_tdiv_bound(rc * zoom, FX_ONE as int, 0x2_0000_0000_0000);
}

/// A bounded angular speed times a bounded time step stays a safe angle
/// increment.
proof fn lemma_speed_step_bounded(speed: int, dt: int)
    requires
        -SPEED_LIMIT <= speed <= SPEED_LIMIT,
        -DT_LIMIT <= dt <= DT_LIMIT,
    ensures
        -(0x7FFF_FFFF_FFFF_FFFF * 0x1_0000) <= speed * dt <= 0x7FFF_FFFF_FFFF_FFFF * 0x1_0000,
        -0x4000_0000_0000 <= fx_mul_spec(speed, dt) <= 0x4000_0000_0000,
{
    assert(-(SPEED_LIMIT as int) * (DT_LIMIT as int) <= speed * dt <= (SPEED_LIMIT as int) * (
    DT_LIMIT as int)) by (nonlinear_arith)
        requires
            -SPEED_LIMIT <= speed <= SPEED_LIMIT,
            -DT_LIMIT <= dt <= DT_LIMIT,
    ;
    crate::fixed::lemma_tdiv_bound(speed * dt, FX_ONE as int, 0x4000_0000_0000);
}

/// A bounded radius scaled by a sine or cosine stays within the radius.
proof fn lemma_radius_scale_bounded(radius: int, t: int)
    requires
        0 <= radius <= BODY_LIMIT,
        -FX_ONE <= t <= FX_ONE,
    ensures
        -(0x7FFF_FFFF_FFFF_FFFF * 0x1_0000) <= radius * t <= 0x7FFF_FFFF_FFFF_FFFF * 0x1_0000,
        -radius <= fx_mul_spec(radius, t) <= radius,
{
    assert(-radius * (FX_ONE as int) <= radius * t <= radius * (FX_ONE as int))
        by (nonlinear_arith)
        requires
            0 <= radius,
            -FX_ONE <= t <= FX_ONE,
    ;
    crate::fixed::lemma_tdiv_bound(radius * t, FX_ONE as int, radius);
}

/// Advancing a body by `dt` and then by `-dt` returns both phase angles to
/// their original values: the update is reversible in time, because the
/// truncating fixed-point product is odd in the time step and wrapping
/// commutes with the shift.
pub proof fn lemma_update_time_reversal(p: Planet, dt: int)
    requires
        planet_wf(p),
    ensures
        planet_update_spec(planet_update_spec(p, dt), -dt).current_angle == p.current_angle,
        planet_update_spec(planet_update_spec(p, dt), -dt).rotation_angle == p.rotation_angle,
{
    let t = TAU_FX as int;
    let d1 = fx_mul_spec(p.orbit_speed as int, dt);
    let d2 = fx_mul_spec(p.rotation_speed as int, dt);
    crate::fixed::lemma_fx_mul_neg(p.orbit_speed as int, dt);
    crate::fixed::lemma_fx_mul_neg(p.rotation_speed as int, dt);
    crate::fixed::lemma_wrap_shift(p.current_angle + d1, d1);
    crate::fixed::lemma_wrap_shift(p.rotation_angle + d2, d2);
    crate::fixed::lemma_wrap_identity(p.current_angle as int);
    crate::fixed::lemma_wrap_identity(p.rotation_angle as int);
}

/// The central body plus the ordered orbiting bodies; insertion order is
/// draw order.
pub struct SolarSystem {
    pub sun: Planet,
    pub planets: Vec<Planet>,
}

/// Every body of the system well formed.
pub open spec fn system_wf(s: SolarSystem) -> bool {
    &&& planet_wf(s.sun)
    &&& forall|k: int| 0 <= k < s.planets.len() ==> planet_wf(#[trigger] s.planets[k])
}

impl SolarSystem {
    /// A system with a central body of the given radius and color, fixed
    /// at the origin (zero orbit radius and speeds), and no orbiting
    /// bodies yet.
    pub fn new(sun_radius: i64, sun_color: u32) -> (s: SolarSystem)
        requires
            0 <= sun_radius <= BODY_LIMIT,
        ensures
            system_wf(s),
            s.sun.radius == sun_radius,
            s.sun.color == sun_color,
            s.sun.orbit_radius == 0,
            s.sun.orbit_speed == 0,
            s.sun.rotation_speed == 0,
            s.sun.position == (V3 { x: 0, y: 0, z: 0 }),
            s.sun.current_angle == 0,
            s.sun.rotation_angle == 0,
            s.planets.len() == 0,
    {
        SolarSystem { sun: Planet::new(0, sun_radius, 0, 0, sun_color), planets: Vec::new() }
    }

    /// The body appended after all bodies added so far.
    pub fn add_planet(&mut self, planet: Planet)
        ensures
            final(self).sun == old(self).sun,
            final(self).planets@ == old(self).planets@.push(planet),
    {
        self.planets.push(planet);
    }

    /// Every orbiting body advanced by `dt`; the central body is never
    /// advanced.
    pub fn update(&mut self, delta_time: i64)
        requires
            system_wf(*old(self)),
            -DT_LIMIT <= delta_time <= DT_LIMIT,
        ensures
            system_wf(*final(self)),
            final(self).sun == old(self).sun,
            final(self).planets.len() == old(self).planets.len(),
            forall|k: int|
                0 <= k < final(self).planets.len() ==> final(self).planets[k]
                    == planet_update_spec(#[trigger] old(self).planets[k], delta_time as int),
    {
        let n = self.planets.len();
        let mut j: usize = 0;
        while j < n
            invariant
                n == self.planets.len(),
                j <= n,
                self.sun == old(self).sun,
                -DT_LIMIT <= delta_time <= DT_LIMIT,
                forall|k: int| 0 <= k < n ==> planet_wf(#[trigger] self.planets[k]),
                planet_wf(self.sun),
                forall|k: int|
                    0 <= k < j ==> self.planets[k] == planet_update_spec(
                        #[trigger] old(self).planets[k],
                        delta_time as int,
                    ),
                forall|k: int| j <= k < n ==> #[trigger] self.planets[k] == old(self).planets[k],
            decreases n - j,
        {
            let mut p = self.planets[j];
            p.update(delta_time);
            self.planets.set(j, p);
            j += 1;
        }
    }

    /// The whole scene in fixed draw order: every orbit path first, then
    /// the central body, then each orbiting body in insertion order, each
    /// preceded by setting the current color to its own color. The buffer
    /// afterwards is exactly the sequential composition of those draws —
    /// painter's-algorithm occlusion, later draws overwrite earlier ones,
    /// with no per-pixel depth comparison — and the current color ends at
    /// the last body drawn.
    pub fn draw(&self, framebuffer: &mut Framebuffer, camera: &Camera)
        requires
            fb_wf(*old(framebuffer)),
            system_wf(*self),
            cam_wf(*camera),
            v3_bounded(camera.position, WORLD_LIMIT as int),
            0 < old(framebuffer).width <= 32768,
            0 < old(framebuffer).height <= 32768,
        ensures
            fb_wf(*final(framebuffer)),
            final(framebuffer).width == old(framebuffer).width,
            final(framebuffer).height == old(framebuffer).height,
            final(framebuffer).buffer.len() == old(framebuffer).buffer.len(),
            final(framebuffer).buffer@ == system_draw_spec(
                old(framebuffer).buffer@,
                *self,
                *camera,
                old(framebuffer).width as int,
                old(framebuffer).height as int,
            ),
            forall|i: int|
                0 <= i < final(framebuffer).buffer.len() ==> final(framebuffer).buffer[i] == old(framebuffer).buffer[i] || final(framebuffer).buffer[i] == ORBIT_COLOR || final(framebuffer).buffer[i] == self.sun.color || exists|k: int| 0 <= k < self.planets.len() && final(framebuffer).buffer[i] == #[trigger] self.planets[k].color,
            final(framebuffer).current_color == (if self.planets.len() == 0 {
                self.sun.color
            } else {
                self.planets[self.planets.len() - 1].color
            }),
    {
        let width: i64 = framebuffer.width as i64;
        let height: i64 = framebuffer.height as i64;
        let n = self.planets.len();
        let mut j: usize = 0;
        while j < n
            invariant
                n == self.planets.len(),
                j <= n,
                system_wf(*self),
                cam_wf(*camera),
                v3_bounded(camera.position, WORLD_LIMIT as int),
                fb_wf(*framebuffer),
                framebuffer.width == old(framebuffer).width,
                framebuffer.height == old(framebuffer).height,
                framebuffer.buffer.len() == old(framebuffer).buffer.len(),
                width == old(framebuffer).width,
                height == old(framebuffer).height,
                0 < width <= 32768,
                0 < height <= 32768,
                forall|i: int|
                    0 <= i < framebuffer.buffer.len() ==> framebuffer.buffer[i] == old(framebuffer).buffer[i] || framebuffer.buffer[i] == ORBIT_COLOR,
                system_orbits_spec(
                    framebuffer.buffer@,
                    *self,
                    *camera,
                    old(framebuffer).width as int,
                    old(framebuffer).height as int,
                    j as int,
                ) == system_orbits_spec(
                    old(framebuffer).buffer@,
                    *self,
                    *camera,
                    old(framebuffer).width as int,
                    old(framebuffer).height as int,
                    0,
                ),
            decreases n - j,
        {
            let ghost pre = *framebuffer;
            let p = &self.planets[j];
            p.draw_orbit(framebuffer, camera, width, height);
            proof {
                assert forall|i: int| 0 <= i < framebuffer.buffer.len() implies (
                framebuffer.buffer[i] == old(framebuffer).buffer[i] || framebuffer.buffer[i]
                    == ORBIT_COLOR) by {
                    assert(framebuffer.buffer[i] == pre.buffer[i] || framebuffer.buffer[i]
                        == ORBIT_COLOR);
                }
                let wi = old(framebuffer).width as int;
                let hi = old(framebuffer).height as int;
                assert(framebuffer.buffer@ == paint_spec(
                    pre.buffer@,
                    wi,
                    hi,
                    ORBIT_COLOR,
                    orbit_pts_from(self.planets[j as int], *camera, wi, hi, 0),
                ));
                assert(system_orbits_spec(pre.buffer@, *self, *camera, wi, hi, j as int)
                    == system_orbits_spec(framebuffer.buffer@, *self, *camera, wi, hi, j as int + 1));
            }
            j += 1;
        }
        proof {
            let wi = old(framebuffer).width as int;
            let hi = old(framebuffer).height as int;
            assert(system_orbits_spec(framebuffer.buffer@, *self, *camera, wi, hi, n as int)
                == framebuffer.buffer@);
        }
        framebuffer.set_current_color(self.sun.color);
        let ghost pre_sun = *framebuffer;
        self.sun.draw(framebuffer, camera, width, height);
        proof {
            assert forall|i: int| 0 <= i < framebuffer.buffer.len() implies (
            framebuffer.buffer[i] == old(framebuffer).buffer[i] || framebuffer.buffer[i]
                == ORBIT_COLOR || framebuffer.buffer[i] == self.sun.color) by {
                assert(framebuffer.buffer[i] == pre_sun.buffer[i] || framebuffer.buffer[i]
                    == self.sun.color);
            }
            let wi = old(framebuffer).width as int;
            let hi = old(framebuffer).height as int;
            assert(framebuffer.buffer@ == planet_draw_spec(
                system_orbits_spec(old(framebuffer).buffer@, *self, *camera, wi, hi, 0),
                self.sun,
                *camera,
                wi,
                hi,
                self.sun.color,
            ));
        }
        let mut j2: usize = 0;
        while j2 < n
            invariant
                n == self.planets.len(),
                j2 <= n,
                system_wf(*self),
                cam_wf(*camera),
                v3_bounded(camera.position, WORLD_LIMIT as int),
                fb_wf(*framebuffer),
                framebuffer.width == old(framebuffer).width,
                framebuffer.height == old(framebuffer).height,
                framebuffer.buffer.len() == old(framebuffer).buffer.len(),
                width == old(framebuffer).width,
                height == old(framebuffer).height,
                0 < width <= 32768,
                0 < height <= 32768,
                framebuffer.current_color == (if j2 == 0 {
                    self.sun.color
                } else {
                    self.planets[j2 - 1].color
                }),
                forall|i: int|
                    0 <= i < framebuffer.buffer.len() ==> framebuffer.buffer[i] == old(framebuffer).buffer[i] || framebuffer.buffer[i] == ORBIT_COLOR || framebuffer.buffer[i] == self.sun.color || exists|k: int| 0 <= k < n && framebuffer.buffer[i] == #[trigger] self.planets[k].color,
                system_bodies_spec(
                    framebuffer.buffer@,
                    *self,
                    *camera,
                    old(framebuffer).width as int,
                    old(framebuffer).height as int,
                    j2 as int,
                ) == system_draw_spec(
                    old(framebuffer).buffer@,
                    *self,
                    *camera,
                    old(framebuffer).width as int,
                    old(framebuffer).height as int,
                ),
            decreases n - j2,
        {
            let p = &self.planets[j2];
            framebuffer.set_current_color(p.color);
            let ghost pre_p = *framebuffer;
            p.draw(framebuffer, camera, width, height);
            proof {
                assert forall|i: int| 0 <= i < framebuffer.buffer.len() implies (
                framebuffer.buffer[i] == old(framebuffer).buffer[i] || framebuffer.buffer[i]
                    == ORBIT_COLOR || framebuffer.buffer[i] == self.sun.color || exists|k: int|
                    0 <= k < n && framebuffer.buffer[i] == #[trigger] self.planets[k].color) by {
                    assert(framebuffer.buffer[i] == pre_p.buffer[i] || framebuffer.buffer[i]
                        == self.planets[j2 as int].color);
                    if framebuffer.buffer[i] == self.planets[j2 as int].color {
                        assert(0 <= j2 as int && (j2 as int) < n && framebuffer.buffer[i]
                            == self.planets[j2 as int].color);
                    }
                }
                let wi = old(framebuffer).width as int;
                let hi = old(framebuffer).height as int;
                assert(framebuffer.buffer@ == planet_draw_spec(
                    pre_p.buffer@,
                    self.planets[j2 as int],
                    *camera,
                    wi,
                    hi,
                    self.planets[j2 as int].color,
                ));
                assert(system_bodies_spec(pre_p.buffer@, *self, *camera, wi, hi, j2 as int)
                    == system_bodies_spec(framebuffer.buffer@, *self, *camera, wi, hi, j2 as int + 1));
            }
            j2 += 1;
        }
        proof {
            let wi = old(framebuffer).width as int;
            let hi = old(framebuffer).height as int;
            assert(system_bodies_spec(framebuffer.buffer@, *self, *camera, wi, hi, n as int)
                == framebuffer.buffer@);
        }
    }
}

} // verus!
