use solar_system::camera::Camera;
use solar_system::fixed::{FX_ONE, PI_FX, TAU_FX};
use solar_system::framebuffer::{Framebuffer, BACKGROUND_COLOR};
use solar_system::solar_system::{draw_line, Planet, SolarSystem, ORBIT_COLOR};
use solar_system::vec3::v3;

fn fx(v: f64) -> i64 {
    (v * FX_ONE as f64).round() as i64
}

#[test]
fn new_planet_starts_at_angle_zero_on_orbit() {
    let p = Planet::new(150 * FX_ONE, 15 * FX_ONE, fx(0.8), fx(2.0), 0x00FF00);
    assert_eq!(p.position.x, 150 * FX_ONE);
    assert_eq!(p.position.y, 0);
    assert_eq!(p.position.z, 0);
    assert_eq!(p.current_angle, 0);
    assert_eq!(p.rotation_angle, 0);
    assert_eq!(p.color, 0x00FF00);
}

#[test]
fn update_wraps_angles_into_a_turn() {
    let mut p = Planet::new(150 * FX_ONE, 15 * FX_ONE, fx(0.8), fx(2.0), 0x00FF00);
    for _ in 0..50 {
        p.update(fx(1.0));
        assert!(0 <= p.current_angle && p.current_angle < TAU_FX);
        assert!(0 <= p.rotation_angle && p.rotation_angle < TAU_FX);
    }
    let mut q = Planet::new(150 * FX_ONE, 15 * FX_ONE, fx(0.8), fx(2.0), 0x00FF00);
    q.update(fx(-1.5));
    assert!(0 <= q.current_angle && q.current_angle < TAU_FX);
    assert!(0 <= q.rotation_angle && q.rotation_angle < TAU_FX);
}

#[test]
fn update_angle_is_exact_speed_times_time() {
    let mut p = Planet::new(100 * FX_ONE, FX_ONE, FX_ONE / 2, FX_ONE / 4, 0xFF0000);
    p.update(FX_ONE);
    // 0.5 rad/s for 1 s
    assert_eq!(p.current_angle, FX_ONE / 2);
    assert_eq!(p.rotation_angle, FX_ONE / 4);
}

#[test]
fn update_reversed_in_time_restores_angles() {
    let mut p = Planet::new(150 * FX_ONE, 15 * FX_ONE, fx(0.8), fx(2.0), 0x00FF00);
    p.update(fx(0.7));
    let ca = p.current_angle;
    let ra = p.rotation_angle;
    p.update(fx(1.3));
    p.update(-fx(1.3));
    assert_eq!(p.current_angle, ca);
    assert_eq!(p.rotation_angle, ra);
}

#[test]
fn half_orbit_lands_on_the_far_side() {
    // orbit_radius 150, orbit_speed 0.8 rad/s, dt = pi / 0.8 s
    let mut p = Planet::new(150 * FX_ONE, 15 * FX_ONE, fx(0.8), fx(1.8), 0xFF00FF);
    p.update(fx(std::f64::consts::PI / 0.8));
    let angle = p.current_angle as f64 / FX_ONE as f64;
    assert!((angle - std::f64::consts::PI).abs() < 0.01, "angle {}", angle);
    let x = p.position.x as f64 / FX_ONE as f64;
    let z = p.position.z as f64 / FX_ONE as f64;
    assert!((x + 150.0).abs() < 0.5, "x {}", x);
    assert!(z.abs() < 0.5, "z {}", z);
    assert_eq!(p.position.y, 0);
}

#[test]
fn horizontal_line_plots_exactly_its_six_points() {
    let mut fb = Framebuffer::new(10, 5);
    fb.set_current_color(0xABCDEF);
    draw_line(&mut fb, 0, 0, 5, 0, 0);
    for x in 0..10usize {
        for y in 0..5usize {
            let expect = if y == 0 && x <= 5 { 0xABCDEF } else { BACKGROUND_COLOR };
            assert_eq!(fb.buffer[y * 10 + x], expect, "pixel ({}, {})", x, y);
        }
    }
}

#[test]
fn diagonal_line_plots_the_diagonal() {
    let mut fb = Framebuffer::new(6, 6);
    fb.set_current_color(0x123456);
    draw_line(&mut fb, 0, 0, 3, 3, 0);
    for x in 0..6usize {
        for y in 0..6usize {
            let expect = if x == y && x <= 3 { 0x123456 } else { BACKGROUND_COLOR };
            assert_eq!(fb.buffer[y * 6 + x], expect, "pixel ({}, {})", x, y);
        }
    }
}

#[test]
fn line_reversed_endpoints_plots_the_same_pixels() {
    let mut fb1 = Framebuffer::new(8, 8);
    fb1.set_current_color(0xFF);
    draw_line(&mut fb1, 1, 2, 6, 5, 0);
    let mut fb2 = Framebuffer::new(8, 8);
    fb2.set_current_color(0xFF);
    draw_line(&mut fb2, 6, 5, 1, 2, 0);
    let lit1: Vec<usize> = (0..64).filter(|&i| fb1.buffer[i] != 0).collect();
    let lit2: Vec<usize> = (0..64).filter(|&i| fb2.buffer[i] != 0).collect();
    assert_eq!(lit1, lit2);
}

#[test]
fn line_clips_samples_outside_the_screen() {
    let mut fb = Framebuffer::new(3, 2);
    fb.set_current_color(0x7);
    draw_line(&mut fb, -2, 0, 4, 0, 0);
    assert_eq!(&fb.buffer[0..3], &[0x7, 0x7, 0x7]);
    assert_eq!(&fb.buffer[3..6], &[0, 0, 0]);
}

#[test]
fn framebuffer_new_clear_and_point() {
    let mut fb = Framebuffer::new(4, 3);
    assert_eq!(fb.width, 4);
    assert_eq!(fb.height, 3);
    assert_eq!(fb.buffer.len(), 12);
    assert!(fb.buffer.iter().all(|&p| p == BACKGROUND_COLOR));
    fb.set_current_color(0x55AA55);
    fb.point(2, 1, 0);
    assert_eq!(fb.buffer[1 * 4 + 2], 0x55AA55);
    // out-of-range writes are silently clipped
    fb.point(4, 0, 0);
    fb.point(0, 3, 0);
    assert_eq!(fb.buffer.iter().filter(|&&p| p != BACKGROUND_COLOR).count(), 1);
    fb.clear();
    assert!(fb.buffer.iter().all(|&p| p == BACKGROUND_COLOR));
    assert_eq!(fb.current_color, 0x55AA55);
}

#[test]
fn system_updates_every_planet_but_not_the_sun() {
    let mut s = SolarSystem::new(30 * FX_ONE, 0xFFFF00);
    s.add_planet(Planet::new(150 * FX_ONE, 15 * FX_ONE, fx(0.8), fx(2.0), 0x00FF00));
    s.add_planet(Planet::new(250 * FX_ONE, 20 * FX_ONE, fx(0.6), fx(1.5), 0x0000FF));
    let sun_before = s.sun;
    s.update(FX_ONE);
    assert_eq!(s.sun, sun_before);
    assert_eq!(s.planets[0].current_angle, fx(0.8));
    assert_eq!(s.planets[1].current_angle, fx(0.6));
}

#[test]
fn sun_sits_at_the_origin_for_the_whole_run() {
    let mut s = SolarSystem::new(30 * FX_ONE, 0xFFFF00);
    assert_eq!(s.sun.position.x, 0);
    assert_eq!(s.sun.position.y, 0);
    assert_eq!(s.sun.position.z, 0);
    assert_eq!(s.sun.current_angle, 0);
    assert_eq!(s.sun.rotation_angle, 0);
    s.add_planet(Planet::new(150 * FX_ONE, 15 * FX_ONE, fx(0.8), fx(2.0), 0x00FF00));
    for _ in 0..10 {
        s.update(fx(0.37));
        assert_eq!(s.sun.position.x, 0);
        assert_eq!(s.sun.position.y, 0);
        assert_eq!(s.sun.position.z, 0);
        assert_eq!(s.sun.current_angle, 0);
        assert_eq!(s.sun.rotation_angle, 0);
    }
}

#[test]
fn system_draw_uses_only_scene_colors() {
    let mut s = SolarSystem::new(30 * FX_ONE, 0xFFFF00);
    s.add_planet(Planet::new(150 * FX_ONE, 15 * FX_ONE, fx(0.8), fx(2.0), 0x00FF00));
    s.add_planet(Planet::new(250 * FX_ONE, 20 * FX_ONE, fx(0.6), fx(1.5), 0x0000FF));
    let camera = Camera::new(
        v3(0, 150 * FX_ONE, 400 * FX_ONE),
        v3(0, 0, 0),
        v3(0, FX_ONE, 0),
    );
    let mut fb = Framebuffer::new(200, 150);
    s.update(FX_ONE / 2);
    s.draw(&mut fb, &camera);
    let mut painted = 0usize;
    for &p in fb.buffer.iter() {
        assert!(
            p == BACKGROUND_COLOR || p == ORBIT_COLOR || p == 0xFFFF00 || p == 0x00FF00
                || p == 0x0000FF,
            "unexpected color {:#x}",
            p
        );
        if p != BACKGROUND_COLOR {
            painted += 1;
        }
    }
    assert!(painted > 0, "nothing was drawn");
    // current color ends at the last body drawn
    assert_eq!(fb.current_color, 0x0000FF);
}

#[test]
fn planet_draw_uses_current_color_only() {
    let p = Planet::new(0, 30 * FX_ONE, 0, 0, 0xFFFF00);
    let camera = Camera::new(v3(0, 0, 400 * FX_ONE), v3(0, 0, 0), v3(0, FX_ONE, 0));
    let mut fb = Framebuffer::new(100, 80);
    fb.set_current_color(0xFFFF00);
    p.draw(&mut fb, &camera, 100, 80);
    let painted = fb.buffer.iter().filter(|&&c| c != BACKGROUND_COLOR).count();
    assert!(painted > 0, "central body not drawn");
    assert!(fb.buffer.iter().all(|&c| c == BACKGROUND_COLOR || c == 0xFFFF00));
}
