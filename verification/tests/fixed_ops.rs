//! Exact-value checks of the fixed-point scalar operations.

use raytracing_basic::fixed::{fadd, fdiv, fmul, fpow, fsqrt, fsub, SCALE, VMAX};

#[test]
fn add_and_sub_are_exact_in_range() {
    assert_eq!(fadd(250_000, 750_000), SCALE);
    assert_eq!(fsub(250_000, 750_000), -500_000);
}

#[test]
fn add_saturates_at_the_domain_bound() {
    assert_eq!(fadd(VMAX, VMAX), VMAX);
    assert_eq!(fsub(-VMAX, VMAX), -VMAX);
}

#[test]
fn mul_scales_products_down() {
    // 2.0 * 3.5 == 7.0
    assert_eq!(fmul(2_000_000, 3_500_000), 7_000_000);
    // (-1.5) * 0.5 == -0.75
    assert_eq!(fmul(-1_500_000, 500_000), -750_000);
}

#[test]
fn mul_rounds_toward_negative_infinity() {
    // 0.000001 * 0.5 rounds down to 0
    assert_eq!(fmul(1, 500_000), 0);
    // -0.000001 * 0.5 rounds down to -0.000001
    assert_eq!(fmul(-1, 500_000), -1);
}

#[test]
fn div_is_exact_on_divisible_values() {
    // 7.0 / 2.0 == 3.5
    assert_eq!(fdiv(7_000_000, 2_000_000), 3_500_000);
}

#[test]
fn div_truncates_thirds() {
    // (1/SCALE) / 3 in fixed point: (1 * SCALE) / 3_000_000 rounds down
    assert_eq!(fdiv(1_000_000, 3_000_000), 333_333);
}

#[test]
fn sqrt_of_perfect_squares_is_exact() {
    // sqrt(4.0) == 2.0
    assert_eq!(fsqrt(4_000_000), 2_000_000);
    // sqrt(1.0) == 1.0
    assert_eq!(fsqrt(SCALE), SCALE);
    assert_eq!(fsqrt(0), 0);
}

#[test]
fn sqrt_of_two_rounds_down() {
    // sqrt(2.0) = 1.41421356..., floor in fixed point
    assert_eq!(fsqrt(2_000_000), 1_414_213);
}

#[test]
fn pow_halves_cube_exactly() {
    // 0.5^3 == 0.125
    assert_eq!(fpow(500_000, 3), 125_000);
    // x^0 == 1.0
    assert_eq!(fpow(123_456, 0), SCALE);
}
