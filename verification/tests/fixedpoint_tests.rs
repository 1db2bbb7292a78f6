use quadrature::fixedpoint::{
    magnitude, midpoint, negate, product, quotient, root, saturate, saturate_unsigned, ONE,
};
use quadrature::transform::{downward, paired, ray, upward, weighed};

#[test]
fn one_is_two_to_the_fortieth() {
    assert_eq!(ONE, 1i64 << 40);
}

#[test]
fn magnitude_of_the_least_value_is_representable() {
    assert_eq!(magnitude(i64::MIN), 1u64 << 63);
    assert_eq!(magnitude(-5), 5);
    assert_eq!(magnitude(7), 7);
    assert_eq!(magnitude(0), 0);
}

#[test]
fn saturate_clamps_at_both_ends() {
    assert_eq!(saturate(i128::MAX), i64::MAX);
    assert_eq!(saturate(i128::MIN), i64::MIN);
    assert_eq!(saturate(-12), -12);
    assert_eq!(saturate(i64::MAX as i128 + 1), i64::MAX);
    assert_eq!(saturate_unsigned(u128::MAX), u64::MAX);
    assert_eq!(saturate_unsigned(99), 99);
}

#[test]
fn negate_maps_the_least_value_to_the_largest() {
    assert_eq!(negate(i64::MIN), i64::MAX);
    assert_eq!(negate(3), -3);
    assert_eq!(negate(-3), 3);
}

#[test]
fn product_rounds_toward_zero() {
    assert_eq!(product(3 * ONE, 2 * ONE), 6 * ONE);
    assert_eq!(product(ONE / 2, ONE / 2), ONE / 4);
    assert_eq!(product(1, 1), 0);
    assert_eq!(product(-1, 1), 0);
    assert_eq!(product(-3 * ONE, ONE / 2), -3 * ONE / 2);
    assert_eq!(product(3, ONE / 2), 1);
    assert_eq!(product(-3, ONE / 2), -1);
}

#[test]
fn product_saturates() {
    assert_eq!(product(i64::MAX, i64::MAX), i64::MAX);
    assert_eq!(product(i64::MIN, i64::MAX), i64::MIN);
    assert_eq!(product(i64::MIN, i64::MIN), i64::MAX);
}

#[test]
fn quotient_rounds_toward_zero_and_keeps_the_sign() {
    assert_eq!(quotient(6 * ONE, 2 * ONE), 3 * ONE);
    assert_eq!(quotient(ONE, 3 * ONE), ONE / 3);
    assert_eq!(quotient(-ONE, 3 * ONE), -(ONE / 3));
    assert_eq!(quotient(ONE, -3 * ONE), -(ONE / 3));
    assert_eq!(quotient(-ONE, -3 * ONE), ONE / 3);
    assert_eq!(quotient(0, 5), 0);
}

#[test]
fn quotient_saturates() {
    assert_eq!(quotient(i64::MAX, 1), i64::MAX);
    assert_eq!(quotient(i64::MIN, 1), i64::MIN);
    assert_eq!(quotient(i64::MAX, -1), i64::MIN);
}

#[test]
fn midpoint_rounds_toward_the_lower_bound() {
    assert_eq!(midpoint(0, 10), 5);
    assert_eq!(midpoint(0, 11), 5);
    assert_eq!(midpoint(-11, 0), -6);
    assert_eq!(midpoint(7, 7), 7);
    assert_eq!(midpoint(i64::MIN, i64::MAX), -1);
}

#[test]
fn root_is_the_integer_part_of_the_square_root() {
    assert_eq!(root(0), 0);
    assert_eq!(root(1), 1);
    assert_eq!(root(3), 1);
    assert_eq!(root(4), 2);
    assert_eq!(root(99), 9);
    assert_eq!(root(100), 10);
    assert_eq!(root(u128::MAX), u64::MAX);
    assert_eq!(root(1u128 << 64), 1u64 << 32);
    assert_eq!(root((1u128 << 64) - 1), (1u64 << 32) - 1);
}

#[test]
fn ray_maps_the_unit_range_onto_the_half_line() {
    assert_eq!(ray(ONE), 0);
    assert_eq!(ray(ONE / 2), ONE);
    assert_eq!(ray(ONE / 4), 3 * ONE);
    assert_eq!(ray(1), i64::MAX);
}

#[test]
fn upward_and_downward_start_at_the_finite_end() {
    assert_eq!(upward(5 * ONE, ONE), 5 * ONE);
    assert_eq!(upward(5 * ONE, ONE / 2), 6 * ONE);
    assert_eq!(downward(5 * ONE, ONE), 5 * ONE);
    assert_eq!(downward(5 * ONE, ONE / 2), 4 * ONE);
    assert_eq!(upward(i64::MAX, ONE / 2), i64::MAX);
    assert_eq!(downward(i64::MIN, ONE / 2), i64::MIN);
}

#[test]
fn weighed_divides_by_the_square_of_the_parameter() {
    assert_eq!(weighed(ONE, ONE), ONE);
    assert_eq!(weighed(ONE, ONE / 2), 4 * ONE);
    assert_eq!(weighed(-3 * ONE, ONE / 2), -12 * ONE);
    assert_eq!(weighed(0, 1), 0);
}

#[test]
fn paired_adds_and_saturates() {
    assert_eq!(paired(2, 3), 5);
    assert_eq!(paired(i64::MAX, 1), i64::MAX);
    assert_eq!(paired(i64::MIN, -1), i64::MIN);
}
