use solar_system::fixed::{
    clamp, div_trunc, fx_div, fx_mul, isqrt, wrap_angle, FX_ONE, HALF_PI_FX, PI_FX, TAU_FX,
};
use solar_system::trig::{atan2_fx, cos_fx, sin_fx};

const TOL: i64 = 400;

#[test]
fn fx_mul_exact_values() {
    assert_eq!(fx_mul(3 * FX_ONE, 2 * FX_ONE), 6 * FX_ONE);
    assert_eq!(fx_mul(-3 * FX_ONE, 2 * FX_ONE), -6 * FX_ONE);
    assert_eq!(fx_mul(FX_ONE / 2, FX_ONE / 2), FX_ONE / 4);
    // truncation is toward zero on both sides
    assert_eq!(fx_mul(1, 1), 0);
    assert_eq!(fx_mul(-1, 1), 0);
}

#[test]
fn fx_div_exact_values() {
    assert_eq!(fx_div(6 * FX_ONE, 2 * FX_ONE), 3 * FX_ONE);
    assert_eq!(fx_div(-6 * FX_ONE, 2 * FX_ONE), -3 * FX_ONE);
    assert_eq!(fx_div(FX_ONE, 3 * FX_ONE), 21845);
}

#[test]
fn div_trunc_rounds_toward_zero() {
    assert_eq!(div_trunc(7, 2), 3);
    assert_eq!(div_trunc(-7, 2), -3);
    assert_eq!(div_trunc(0, 5), 0);
}

#[test]
fn clamp_forces_range() {
    assert_eq!(clamp(5, 0, 10), 5);
    assert_eq!(clamp(-5, 0, 10), 0);
    assert_eq!(clamp(15, 0, 10), 10);
}

#[test]
fn isqrt_exact_values() {
    assert_eq!(isqrt(0), 0);
    assert_eq!(isqrt(1), 1);
    assert_eq!(isqrt(10), 3);
    assert_eq!(isqrt(16), 4);
    assert_eq!(isqrt(u64::MAX), 0xFFFF_FFFF);
}

#[test]
fn wrap_angle_reduces_into_turn() {
    assert_eq!(wrap_angle(0), 0);
    assert_eq!(wrap_angle(TAU_FX), 0);
    assert_eq!(wrap_angle(-1), TAU_FX - 1);
    assert_eq!(wrap_angle(PI_FX + TAU_FX), PI_FX);
    assert_eq!(wrap_angle(-TAU_FX), 0);
    let w = wrap_angle(123_456_789);
    assert!(0 <= w && w < TAU_FX);
}

#[test]
fn sine_special_values() {
    assert_eq!(sin_fx(0), 0);
    assert_eq!(sin_fx(PI_FX), 0);
    assert!((sin_fx(HALF_PI_FX) - FX_ONE).abs() <= TOL);
    assert!((sin_fx(PI_FX + HALF_PI_FX) + FX_ONE).abs() <= TOL);
    // odd half-wave symmetry about pi
    assert_eq!(sin_fx(PI_FX + 1000), -sin_fx(1000));
}

#[test]
fn cosine_special_values() {
    assert!((cos_fx(0) - FX_ONE).abs() <= TOL);
    assert!(cos_fx(HALF_PI_FX).abs() <= TOL);
    assert!((cos_fx(PI_FX) + FX_ONE).abs() <= TOL);
    // range never leaves [-1, 1]
    for k in 0..64 {
        let a = k * TAU_FX / 64;
        assert!(-FX_ONE <= sin_fx(a) && sin_fx(a) <= FX_ONE);
        assert!(-FX_ONE <= cos_fx(a) && cos_fx(a) <= FX_ONE);
    }
}

#[test]
fn sine_matches_reference_within_tolerance() {
    for k in 0..128 {
        let a = k * TAU_FX / 128;
        let approx = sin_fx(a) as f64 / FX_ONE as f64;
        let exact = (a as f64 / FX_ONE as f64).sin();
        assert!(
            (approx - exact).abs() < 0.005,
            "sin at {} raw: {} vs {}",
            a,
            approx,
            exact
        );
    }
}

#[test]
fn atan2_special_values() {
    assert_eq!(atan2_fx(0, 0), 0);
    assert_eq!(atan2_fx(0, FX_ONE), 0);
    assert_eq!(atan2_fx(FX_ONE, 0), HALF_PI_FX);
    assert_eq!(atan2_fx(-FX_ONE, 0), -HALF_PI_FX);
    assert!((atan2_fx(0, -FX_ONE).abs() - PI_FX).abs() <= TOL);
    // 45 degrees
    assert!((atan2_fx(1000, 1000) - PI_FX / 4).abs() <= TOL);
}
