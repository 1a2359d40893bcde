use rusty_planets::fixed::{
    add_sat, div_trunc, isqrt, mass_mu, mul_sat, saturate, sub_sat, DIST_FLOOR, G_DEN, G_NUM,
    LIMIT, MASS_LIMIT, SCALE,
};

#[test]
fn saturate_clamps_at_limit() {
    assert_eq!(saturate(LIMIT + 1), LIMIT);
    assert_eq!(saturate(-(LIMIT + 1)), -LIMIT);
    assert_eq!(saturate(12345), 12345);
    assert_eq!(saturate(-12345), -12345);
}

#[test]
fn add_sub_saturate() {
    assert_eq!(add_sat(LIMIT, LIMIT), LIMIT);
    assert_eq!(add_sat(-LIMIT, -LIMIT), -LIMIT);
    assert_eq!(add_sat(1, 2), 3);
    assert_eq!(sub_sat(-LIMIT, LIMIT), -LIMIT);
    assert_eq!(sub_sat(5, 7), -2);
}

#[test]
fn division_truncates_toward_zero() {
    assert_eq!(div_trunc(7, 2), 3);
    assert_eq!(div_trunc(-7, 2), -3);
    assert_eq!(div_trunc(0, 5), 0);
    assert_eq!(div_trunc(-1, 1_000_000), 0);
}

#[test]
fn integer_square_roots_are_exact() {
    assert_eq!(isqrt(0), 0);
    assert_eq!(isqrt(1), 1);
    assert_eq!(isqrt(2), 1);
    assert_eq!(isqrt(3), 1);
    assert_eq!(isqrt(4), 2);
    assert_eq!(isqrt(999_999), 999);
    assert_eq!(isqrt(1_000_000), 1000);
    assert_eq!(isqrt(10u128.pow(24)), 10u128.pow(12));
    assert_eq!(isqrt(u128::MAX), (1u128 << 64) - 1);
}

#[test]
fn fixed_point_products_rescale() {
    // 3.0 * 2.0 == 6.0
    assert_eq!(mul_sat(3 * SCALE, 2 * SCALE), 6 * SCALE);
    assert_eq!(mul_sat(-3 * SCALE, 2 * SCALE), -6 * SCALE);
    // 0.5 * 0.5 == 0.25
    assert_eq!(mul_sat(SCALE / 2, SCALE / 2), SCALE / 4);
    // saturation
    assert_eq!(mul_sat(LIMIT, LIMIT), LIMIT);
    assert_eq!(mul_sat(-LIMIT, LIMIT), -LIMIT);
}

#[test]
fn gravitational_parameter_is_g_times_mass() {
    // a raw mass of 1e36 (1e30 kg) times G = 66743 / 1e15
    assert_eq!(
        mass_mu(1_000_000_000_000_000_000_000_000_000_000_000_000),
        66_743_000_000_000_000_000_000_000,
    );
    assert_eq!(mass_mu(0), 0);
    // one kilogram: G is far below the fixed-point resolution
    assert_eq!(mass_mu(SCALE), 0);
    // the split used internally changes nothing: exact for odd values too
    let m = 123_456_789_012_345_678_901_234_567;
    assert_eq!(mass_mu(m), m * G_NUM / G_DEN);
}

#[test]
fn numeric_constants_hold() {
    assert_eq!(SCALE, 1_000_000);
    assert_eq!(DIST_FLOOR, 1_000);
    assert!(MASS_LIMIT > 0 && LIMIT > 0);
}
