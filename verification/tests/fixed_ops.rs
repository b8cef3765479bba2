use raytrace::fixed::FP_MAX;
use raytrace::fixed::SCALE;
use raytrace::fixed::fp_add;
use raytrace::fixed::fp_div;
use raytrace::fixed::fp_mul;
use raytrace::fixed::fp_neg;
use raytrace::fixed::fp_sqrt;
use raytrace::fixed::fp_sub;
use raytrace::fixed::isqrt_u128;

#[test]
fn add_and_sub_are_exact_in_range() {
    assert_eq!(fp_add(2 * SCALE, 3 * SCALE), 5 * SCALE);
    assert_eq!(fp_sub(2 * SCALE, 3 * SCALE), -SCALE);
    assert_eq!(fp_neg(7), -7);
}

#[test]
fn add_saturates_at_the_bound() {
    assert_eq!(fp_add(FP_MAX, FP_MAX), FP_MAX);
    assert_eq!(fp_sub(-FP_MAX, FP_MAX), -FP_MAX);
}

#[test]
fn mul_scales_once() {
    assert_eq!(fp_mul(2 * SCALE, 3 * SCALE), 6 * SCALE);
    assert_eq!(fp_mul(-2 * SCALE, 3 * SCALE), -6 * SCALE);
    assert_eq!(fp_mul(500_000, 500_000), 250_000);
}

#[test]
fn div_truncates_toward_zero() {
    assert_eq!(fp_div(SCALE, 3 * SCALE), 333_333);
    assert_eq!(fp_div(-SCALE, 3 * SCALE), -333_333);
    assert_eq!(fp_div(SCALE, -3 * SCALE), -333_333);
}

#[test]
fn isqrt_small_values() {
    assert_eq!(isqrt_u128(0), 0);
    assert_eq!(isqrt_u128(1), 1);
    assert_eq!(isqrt_u128(3), 1);
    assert_eq!(isqrt_u128(4), 2);
    assert_eq!(isqrt_u128(1_000_000_000_000), 1_000_000);
}

#[test]
fn sqrt_of_one_is_one() {
    assert_eq!(fp_sqrt(SCALE), SCALE);
    assert_eq!(fp_sqrt(0), 0);
    assert_eq!(fp_sqrt(500_000), 707_106);
}
