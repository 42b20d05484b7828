use solar_system::camera::{Camera, MAX_ZOOM_FX, MIN_ZOOM_FX, PITCH_LIMIT_FX};
use solar_system::fixed::{FX_ONE, HALF_PI_FX, TAU_FX};
use solar_system::vec3::{v3, V3};

fn test_camera() -> Camera {
    Camera::new(
        v3(0, 150 * FX_ONE, 400 * FX_ONE),
        v3(0, 0, 0),
        v3(0, FX_ONE, 0),
    )
}

fn axis_camera() -> Camera {
    // on the +Z axis looking back at the origin: the basis comes out exact
    Camera::new(v3(0, 0, 400 * FX_ONE), v3(0, 0, 0), v3(0, FX_ONE, 0))
}

#[test]
fn new_camera_derives_exact_axis_basis() {
    let c = axis_camera();
    assert_eq!(c.front, V3 { x: 0, y: 0, z: -FX_ONE });
    assert_eq!(c.right, V3 { x: FX_ONE, y: 0, z: 0 });
    assert_eq!(c.up, V3 { x: 0, y: FX_ONE, z: 0 });
    // yaw = atan2(-1, 0) = -pi/2, stored wrapped into [0, TAU)
    assert_eq!(c.yaw, TAU_FX - HALF_PI_FX);
    assert_eq!(c.pitch, 0);
    assert_eq!(c.zoom_factor, FX_ONE);
}

#[test]
fn dirty_flag_set_on_construction_and_cleared_once() {
    let mut c = test_camera();
    assert!(c.has_changed);
    assert!(c.check_if_changed());
    assert!(!c.check_if_changed());
    assert!(!c.check_if_changed());
    c.move_forward(FX_ONE);
    assert!(c.check_if_changed());
    assert!(!c.check_if_changed());
    c.zoom(FX_ONE / 2);
    assert!(c.check_if_changed());
    c.rotate(1000, 0);
    assert!(c.check_if_changed());
    c.move_up(FX_ONE);
    assert!(c.check_if_changed());
    c.move_right(FX_ONE);
    assert!(c.check_if_changed());
    assert!(!c.check_if_changed());
}

#[test]
fn movement_translates_along_basis() {
    let mut c = axis_camera();
    c.move_forward(10 * FX_ONE);
    assert_eq!(c.position, V3 { x: 0, y: 0, z: 390 * FX_ONE });
    c.move_right(5 * FX_ONE);
    assert_eq!(c.position, V3 { x: 5 * FX_ONE, y: 0, z: 390 * FX_ONE });
    c.move_up(-3 * FX_ONE);
    assert_eq!(c.position, V3 { x: 5 * FX_ONE, y: -3 * FX_ONE, z: 390 * FX_ONE });
    // backward undoes forward exactly for an axis-aligned front
    c.move_forward(-10 * FX_ONE);
    assert_eq!(c.position.z, 400 * FX_ONE);
}

#[test]
fn zoom_single_call_is_clamped_product() {
    let mut c = test_camera();
    c.zoom(3 * FX_ONE / 2);
    assert_eq!(c.zoom_factor, 3 * FX_ONE / 2);
    c.zoom(FX_ONE / 2);
    assert_eq!(c.zoom_factor, 3 * FX_ONE / 4);
    let mut d = test_camera();
    d.zoom(100 * FX_ONE);
    assert_eq!(d.zoom_factor, MAX_ZOOM_FX);
    let mut e = test_camera();
    e.zoom(100);
    assert_eq!(e.zoom_factor, MIN_ZOOM_FX);
}

#[test]
fn zoom_out_converges_to_lower_bound() {
    let mut c = test_camera();
    for _ in 0..40 {
        c.zoom(FX_ONE / 2);
    }
    assert_eq!(c.zoom_factor, MIN_ZOOM_FX);
}

#[test]
fn zoom_in_converges_to_upper_bound() {
    let mut c = test_camera();
    let doubled = 2 * FX_ONE;
    c.zoom(doubled);
    assert_eq!(c.zoom_factor, 2 * FX_ONE);
    c.zoom(doubled);
    c.zoom(doubled);
    assert_eq!(c.zoom_factor, 8 * FX_ONE);
    c.zoom(doubled);
    assert_eq!(c.zoom_factor, MAX_ZOOM_FX);
    c.zoom(doubled);
    assert_eq!(c.zoom_factor, MAX_ZOOM_FX);
}

#[test]
fn rotate_clamps_pitch_and_keeps_basis_orthonormal() {
    let mut c = test_camera();
    c.rotate(0, 10 * FX_ONE);
    assert_eq!(c.pitch, PITCH_LIMIT_FX);
    c.rotate(0, -100 * FX_ONE);
    assert_eq!(c.pitch, -PITCH_LIMIT_FX);

    let angles: [(i64, i64); 5] = [
        (1000, 500),
        (-30000, 20000),
        (TAU_FX / 3, -HALF_PI_FX / 2),
        (7 * TAU_FX, 0),
        (123456, -7890),
    ];
    let mut d = test_camera();
    for (dy, dp) in angles {
        d.rotate(dy, dp);
        assert!(0 <= d.yaw && d.yaw < TAU_FX);
        assert!(-PITCH_LIMIT_FX <= d.pitch && d.pitch <= PITCH_LIMIT_FX);
        let f = to_unit(d.front);
        let r = to_unit(d.right);
        let u = to_unit(d.up);
        assert!((norm(f) - 1.0).abs() < 0.01, "front not unit: {:?}", f);
        assert!((norm(r) - 1.0).abs() < 0.01, "right not unit: {:?}", r);
        assert!((norm(u) - 1.0).abs() < 0.01, "up not unit: {:?}", u);
        assert!(dot(f, r).abs() < 0.01);
        assert!(dot(f, u).abs() < 0.01);
        assert!(dot(r, u).abs() < 0.01);
    }
}

#[test]
fn world_to_screen_centre_point_is_exact() {
    let c = axis_camera();
    let r = c.world_to_screen(&v3(0, 0, 0), 800, 600);
    assert_eq!(r.x, 400 * FX_ONE);
    assert_eq!(r.y, 300 * FX_ONE);
    assert_eq!(r.depth, 400 * FX_ONE);
}

#[test]
fn world_to_screen_behind_camera_is_sentinel() {
    let c = axis_camera();
    // behind the camera along +Z
    let r = c.world_to_screen(&v3(0, 0, 500 * FX_ONE), 800, 600);
    assert!(r.depth <= 0);
    assert_eq!(r.x, -FX_ONE);
    assert_eq!(r.y, -FX_ONE);
    // exactly on the camera plane also hits the sentinel
    let r2 = c.world_to_screen(&v3(123 * FX_ONE, 0, 400 * FX_ONE), 800, 600);
    assert_eq!(r2.depth, 0);
    assert_eq!(r2.x, -FX_ONE);
    assert_eq!(r2.y, -FX_ONE);
}

#[test]
fn world_to_screen_in_front_never_returns_sentinel_depth() {
    let c = axis_camera();
    for z in [399, 200, 1, -500] {
        let r = c.world_to_screen(&v3(7 * FX_ONE, 3 * FX_ONE, z * FX_ONE), 800, 600);
        assert!(r.depth > 0);
    }
}

#[test]
fn world_to_screen_offsets_follow_perspective() {
    let c = axis_camera();
    // a point right of centre (world +X) lands right of the screen centre,
    // a point above centre (world +Y) lands above it (smaller y)
    let r = c.world_to_screen(&v3(10 * FX_ONE, 0, 0), 800, 600);
    assert!(r.x > 400 * FX_ONE);
    let u = c.world_to_screen(&v3(0, 10 * FX_ONE, 0), 800, 600);
    assert!(u.y < 300 * FX_ONE);
    // twice as far means half the offset (perspective divide), via zoom 1
    let near = c.world_to_screen(&v3(10 * FX_ONE, 0, 200 * FX_ONE), 800, 600);
    let far = c.world_to_screen(&v3(20 * FX_ONE, 0, 0), 800, 600);
    let off_near = near.x - 400 * FX_ONE;
    let off_far = far.x - 400 * FX_ONE;
    assert!((off_near - off_far).abs() <= FX_ONE / 4);
}

fn to_unit(v: V3) -> [f64; 3] {
    [
        v.x as f64 / FX_ONE as f64,
        v.y as f64 / FX_ONE as f64,
        v.z as f64 / FX_ONE as f64,
    ]
}

fn norm(v: [f64; 3]) -> f64 {
    (v[0] * v[0] + v[1] * v[1] + v[2] * v[2]).sqrt()
}

fn dot(a: [f64; 3], b: [f64; 3]) -> f64 {
    a[0] * b[0] + a[1] * b[1] + a[2] * b[2]
}
