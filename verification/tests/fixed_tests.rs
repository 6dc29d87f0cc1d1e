use evosim::fixed::fx_add;
use evosim::fixed::fx_clamp;
use evosim::fixed::fx_mul;
use evosim::fixed::isqrt;
use evosim::fixed::wrap_unit;
use evosim::trig::atan2_fp;
use evosim::trig::cos_fp;
use evosim::trig::sin_fp;
use evosim::trig::wrap_pi;
use evosim::trig::HALF_PI_FP;
use evosim::trig::PI_FP;
use evosim::trig::QUARTER_PI_FP;
use evosim::trig::TAU_FP;

const UNIT: i64 = 1_000_000;
const VAL_MAX: i64 = 1_000_000_000_000;

#[test]
fn fixed_point_products_truncate_toward_zero() {
    assert_eq!(fx_mul(500_000, 500_000), 250_000);
    assert_eq!(fx_mul(-500_000, 500_000), -250_000);
    assert_eq!(fx_mul(1, 1), 0);
    assert_eq!(fx_mul(-1, 1), 0);
    assert_eq!(fx_mul(UNIT, 123_456), 123_456);
}

#[test]
fn fixed_point_arithmetic_saturates() {
    assert_eq!(fx_add(VAL_MAX, VAL_MAX), VAL_MAX);
    assert_eq!(fx_add(-VAL_MAX, -VAL_MAX), -VAL_MAX);
    assert_eq!(fx_mul(VAL_MAX, VAL_MAX), VAL_MAX);
    assert_eq!(fx_mul(VAL_MAX, -VAL_MAX), -VAL_MAX);
    assert_eq!(fx_add(1, 2), 3);
}

#[test]
fn clamping_works_on_both_sides() {
    assert_eq!(fx_clamp(5, 0, 10), 5);
    assert_eq!(fx_clamp(-5, 0, 10), 0);
    assert_eq!(fx_clamp(15, 0, 10), 10);
}

#[test]
fn integer_square_roots_are_exact() {
    assert_eq!(isqrt(0), 0);
    assert_eq!(isqrt(1), 1);
    assert_eq!(isqrt(3), 1);
    assert_eq!(isqrt(4), 2);
    assert_eq!(isqrt(999_999), 999);
    assert_eq!(isqrt(1_000_000), 1000);
    assert_eq!(isqrt(250_000_000_000), 500_000);
    assert_eq!(isqrt(u64::MAX), 4_294_967_295);
}

#[test]
fn coordinates_wrap_onto_the_torus() {
    assert_eq!(wrap_unit(0), 0);
    assert_eq!(wrap_unit(999_999), 999_999);
    assert_eq!(wrap_unit(1_000_000), 0);
    assert_eq!(wrap_unit(1_500_000), 500_000);
    assert_eq!(wrap_unit(-1), 999_999);
    assert_eq!(wrap_unit(-1_000_000), 0);
}

#[test]
fn angles_wrap_into_the_half_open_turn() {
    assert_eq!(wrap_pi(0), 0);
    assert_eq!(wrap_pi(PI_FP as i128), PI_FP);
    assert_eq!(wrap_pi(PI_FP as i128 + 1), 1 - PI_FP);
    assert_eq!(wrap_pi(TAU_FP as i128), 0);
    assert_eq!(wrap_pi(-(PI_FP as i128)), PI_FP);
}

#[test]
fn sine_is_exact_at_the_quarter_turns() {
    assert_eq!(sin_fp(0), 0);
    assert_eq!(sin_fp(HALF_PI_FP), UNIT);
    assert_eq!(sin_fp(PI_FP), 0);
    assert_eq!(sin_fp(-HALF_PI_FP), -UNIT);
    assert_eq!(cos_fp(0), UNIT);
    assert_eq!(cos_fp(HALF_PI_FP), 0);
    assert_eq!(cos_fp(PI_FP), -UNIT);
}

#[test]
fn sine_tracks_the_real_function() {
    let mut a: i64 = -TAU_FP;
    while a <= TAU_FP {
        let expected = ((a as f64) / 1_000_000.0).sin();
        let got = sin_fp(a) as f64 / 1_000_000.0;
        assert!((got - expected).abs() < 0.005);
        a += 100_000;
    }
}

#[test]
fn arctangent_is_exact_on_axes_and_diagonal() {
    assert_eq!(atan2_fp(0, 0), 0);
    assert_eq!(atan2_fp(0, UNIT), 0);
    assert_eq!(atan2_fp(UNIT, 0), HALF_PI_FP);
    assert_eq!(atan2_fp(0, -UNIT), PI_FP);
    assert_eq!(atan2_fp(-UNIT, 0), -HALF_PI_FP);
    assert_eq!(atan2_fp(UNIT, UNIT), QUARTER_PI_FP);
    assert_eq!(atan2_fp(-UNIT, -UNIT), -(PI_FP - QUARTER_PI_FP));
}

#[test]
fn arctangent_tracks_the_real_function() {
    let points: [(i64, i64); 8] = [
        (300_000, 400_000),
        (-300_000, 400_000),
        (300_000, -400_000),
        (-300_000, -400_000),
        (10_000, 990_000),
        (990_000, 10_000),
        (-750_000, 250_000),
        (600_000, -600_000),
    ];
    for (y, x) in points {
        let expected = (y as f64).atan2(x as f64);
        let got = atan2_fp(y, x) as f64 / 1_000_000.0;
        assert!((got - expected).abs() < 0.01);
    }
}
