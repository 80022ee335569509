use polarust::fixed::{div_floor, mul_fixed, mul_time, ONE, UNITS_PER_GRID};

#[test]
fn div_floor_rounds_down() {
    assert_eq!(div_floor(7, 2), 3);
    assert_eq!(div_floor(-7, 2), -4);
    assert_eq!(div_floor(-8, 2), -4);
    assert_eq!(div_floor(8, 2), 4);
    assert_eq!(div_floor(0, 5), 0);
    assert_eq!(div_floor(-1, 1_000_000_000), -1);
    assert_eq!(div_floor(-1_000_000_000, 1_000_000_000), -1);
    assert_eq!(div_floor(-1_000_000_001, 1_000_000_000), -2);
    assert_eq!(div_floor(999_999_999, 1_000_000_000), 0);
    assert_eq!(div_floor(i128::MIN, 1), i128::MIN);
    assert_eq!(div_floor(i128::MAX, 1), i128::MAX);
    assert_eq!(div_floor(i128::MIN, 3), i128::MIN.div_euclid(3));
    assert_eq!(div_floor(i128::MIN + 1, i128::MAX), -1);
}

#[test]
fn mul_time_is_the_product_over_one() {
    // 50 per second over 16 ms is 0.8.
    assert_eq!(mul_time(50_000_000_000, 16_000_000), 800_000_000);
    assert_eq!(mul_time(500_000_000, 16_000_000), 8_000_000);
    assert_eq!(mul_time(0, u64::MAX), 0);
    assert_eq!(mul_time(i64::MAX, 0), 0);
    // -0.1 per second over one nanosecond rounds down to the next step.
    assert_eq!(mul_time(-100_000_000, 1), -1);
    assert_eq!(mul_time(100_000_000, 1), 0);
    assert_eq!(mul_time(i64::MIN, u64::MAX), -170141183460469231722463931680);
    assert_eq!(
        mul_time(i64::MAX, u64::MAX),
        (i64::MAX as i128 * u64::MAX as i128) / 1_000_000_000
    );
}

#[test]
fn mul_fixed_is_the_product_over_one() {
    assert_eq!(mul_fixed(3 * ONE, -ONE / 2), -1_500_000_000);
    assert_eq!(mul_fixed(ONE, ONE), ONE as i128);
    assert_eq!(mul_fixed(1, 1), 0);
    assert_eq!(mul_fixed(-1, 1), -1);
    assert_eq!(mul_fixed(-1, -1), 0);
    assert_eq!(mul_fixed(4975, 500_000_000), 2487);
    assert_eq!(mul_fixed(-4975, 500_000_000), -2488);
    assert_eq!(
        mul_fixed(i64::MIN, i64::MIN),
        (i64::MIN as i128 * i64::MIN as i128) / 1_000_000_000
    );
    assert_eq!(
        mul_fixed(i64::MIN, i64::MAX),
        (i64::MIN as i128 * i64::MAX as i128).div_euclid(1_000_000_000)
    );
}

#[test]
fn the_scales() {
    assert_eq!(ONE, 1_000_000_000);
    assert_eq!(UNITS_PER_GRID, 1_000_000);
}
