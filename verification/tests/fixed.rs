use spectro_cam_rs::fixed::{floor_div, minus, plus, quotient, saturate, scale, ONE};

#[test]
fn floor_division_rounds_towards_negative_infinity() {
    assert_eq!(floor_div(7, 2), 3);
    assert_eq!(floor_div(-7, 2), -4);
    assert_eq!(floor_div(-8, 2), -4);
    assert_eq!(floor_div(0, 5), 0);
    assert_eq!(floor_div(-1, 1_000_000), -1);
    assert_eq!(floor_div(i128::MIN, 1), i128::MIN);
    assert_eq!(floor_div(i128::MIN, 2), i128::MIN / 2);
    assert_eq!(floor_div(i128::MIN, 3), i128::MIN / 3 - 1);
    assert_eq!(floor_div(i128::MAX, i128::MAX), 1);
    assert_eq!(floor_div(i128::MIN, i128::MAX), -2);
}

#[test]
fn saturation_limits_to_sixty_four_bits() {
    assert_eq!(saturate(5), 5);
    assert_eq!(saturate(i64::MAX as i128 + 1), i64::MAX);
    assert_eq!(saturate(i64::MIN as i128 - 1), i64::MIN);
    assert_eq!(plus(i64::MAX, 1), i64::MAX);
    assert_eq!(plus(2, 3), 5);
    assert_eq!(minus(i64::MIN, 1), i64::MIN);
    assert_eq!(minus(2, 3), -1);
}

#[test]
fn fixed_point_product() {
    assert_eq!(scale(2 * ONE, 3 * ONE), 6 * ONE);
    assert_eq!(scale(5, ONE), 5);
    assert_eq!(scale(-5, ONE), -5);
    assert_eq!(scale(1, ONE / 2), 0);
    assert_eq!(scale(-1, ONE / 2), -1);
    assert_eq!(scale(3, 500_000), 1);
    assert_eq!(scale(1000, 212_600), 212);
    assert_eq!(scale(i64::MAX, 2 * ONE), i64::MAX);
    assert_eq!(scale(i64::MIN, 2 * ONE), i64::MIN);
    assert_eq!(scale(i64::MIN, -2 * ONE), i64::MAX);
}

#[test]
fn fixed_point_quotient() {
    assert_eq!(quotient(6, 3), 2 * ONE);
    assert_eq!(quotient(1, 3), 333_333);
    assert_eq!(quotient(-1, 3), -333_334);
    assert_eq!(quotient(1, -3), -333_334);
    assert_eq!(quotient(-1, -3), 333_333);
    assert_eq!(quotient(0, 7), 0);
    assert_eq!(quotient(i64::MAX, 1), i64::MAX);
    assert_eq!(quotient(i64::MIN, -1), i64::MAX);
}

#[test]
fn division_by_zero_saturates_by_the_sign_of_the_numerator() {
    assert_eq!(quotient(5, 0), i64::MAX);
    assert_eq!(quotient(1, 0), i64::MAX);
    assert_eq!(quotient(-5, 0), i64::MIN);
    assert_eq!(quotient(0, 0), 0);
}
