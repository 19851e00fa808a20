use tinyray::fx::{
    add_fx, clamp_unit_fx, div_fx, isqrt, max0_fx, mul_fx, pow_fx, sub_fx, RANGE, SCALE,
};

#[test]
fn mul_whole_units() {
    // 2.0 * 3.0 == 6.0
    assert_eq!(mul_fx(2 * SCALE, 3 * SCALE), 6 * SCALE);
    // -1.5 * 2.0 == -3.0
    assert_eq!(mul_fx(-3 * SCALE / 2, 2 * SCALE), -3 * SCALE);
}

#[test]
fn mul_truncates_toward_zero() {
    // one step times one step is far below a step: truncates to zero
    assert_eq!(mul_fx(1, 1), 0);
    assert_eq!(mul_fx(-1, 1), 0);
    // 0.5 * 0.5 == 0.25 exactly
    assert_eq!(mul_fx(SCALE / 2, SCALE / 2), SCALE / 4);
}

#[test]
fn add_saturates_at_range() {
    assert_eq!(add_fx(RANGE, RANGE), RANGE);
    assert_eq!(sub_fx(-RANGE, RANGE), -RANGE);
    assert_eq!(add_fx(3, 4), 7);
}

#[test]
fn div_exact_and_truncated() {
    // 1.0 / 2.0 == 0.5
    assert_eq!(div_fx(SCALE, 2 * SCALE), SCALE / 2);
    // one step over three: 65536 / 3 truncated
    assert_eq!(div_fx(1, 3), 21845);
}

#[test]
fn isqrt_small_and_large() {
    assert_eq!(isqrt(0), 0);
    assert_eq!(isqrt(15), 3);
    assert_eq!(isqrt(16), 4);
    assert_eq!(isqrt(u128::MAX), u64::MAX);
}

#[test]
fn pow_of_one_and_half() {
    // 1.0 to any power stays 1.0 exactly
    assert_eq!(pow_fx(SCALE, 0), SCALE);
    assert_eq!(pow_fx(SCALE, 1425), SCALE);
    // 0.5 squared is 0.25
    assert_eq!(pow_fx(SCALE / 2, 2), SCALE / 4);
    // 2.0 to the tenth is 1024.0
    assert_eq!(pow_fx(2 * SCALE, 10), 1024 * SCALE);
}

#[test]
fn clamp_and_max0() {
    assert_eq!(clamp_unit_fx(200000), SCALE);
    assert_eq!(clamp_unit_fx(-200000), -SCALE);
    assert_eq!(clamp_unit_fx(5), 5);
    assert_eq!(max0_fx(-5), 0);
    assert_eq!(max0_fx(7), 7);
}
