use skeletal_animation::scalar::{Scalar, SCALE};

fn s(raw: i64) -> Scalar {
    Scalar::from_raw(raw)
}

#[test]
fn one_is_a_million_raw_units() {
    assert_eq!(SCALE, 1_000_000);
    assert_eq!(Scalar::one().raw, 1_000_000);
    assert_eq!(Scalar::zero().raw, 0);
    assert_eq!(Scalar::from_int(3).raw, 3_000_000);
    assert_eq!(Scalar::from_int(-3).raw, -3_000_000);
    assert_eq!(Scalar::from_count(10).raw, 10_000_000);
}

#[test]
fn whole_numbers_saturate() {
    assert_eq!(Scalar::from_int(i64::MAX).raw, i64::MAX);
    assert_eq!(Scalar::from_int(i64::MIN).raw, i64::MIN);
    assert_eq!(Scalar::from_count(usize::MAX).raw, i64::MAX);
    assert_eq!(Scalar::from_wide(i128::MAX).raw, i64::MAX);
    assert_eq!(Scalar::from_wide(i128::MIN).raw, i64::MIN);
    assert_eq!(Scalar::from_wide(-7).raw, -7);
}

#[test]
fn sums_and_differences_saturate() {
    assert_eq!(s(1_500_000).add(s(250_000)).raw, 1_750_000);
    assert_eq!(s(1_500_000).sub(s(2_000_000)).raw, -500_000);
    assert_eq!(s(i64::MAX).add(s(1)).raw, i64::MAX);
    assert_eq!(s(i64::MIN).add(s(-1)).raw, i64::MIN);
    assert_eq!(s(i64::MIN).sub(s(1)).raw, i64::MIN);
    assert_eq!(s(0).sub(s(i64::MIN)).raw, i64::MAX);
}

#[test]
fn products_round_down() {
    assert_eq!(s(1_500_000).mul(s(2_000_000)).raw, 3_000_000);
    assert_eq!(s(333_333).mul(s(3_000_000)).raw, 999_999);
    assert_eq!(s(1).mul(s(1)).raw, 0);
    assert_eq!(s(-1).mul(s(1)).raw, -1);
    assert_eq!(s(-1_500_000).mul(s(500_000)).raw, -750_000);
    assert_eq!(s(i64::MAX).mul(s(2_000_000)).raw, i64::MAX);
    assert_eq!(s(i64::MAX).mul(s(-2_000_000)).raw, i64::MIN);
    assert_eq!(s(i64::MIN).mul(s(i64::MIN)).raw, i64::MAX);
}

#[test]
fn quotients_round_down() {
    assert_eq!(s(1_000_000).div(s(3_000_000)).raw, 333_333);
    assert_eq!(s(-1_000_000).div(s(3_000_000)).raw, -333_334);
    assert_eq!(s(1_000_000).div(s(-3_000_000)).raw, -333_334);
    assert_eq!(s(-1_000_000).div(s(-3_000_000)).raw, 333_333);
    assert_eq!(s(10_000_000).div(s(25_000_000)).raw, 400_000);
    assert_eq!(s(i64::MAX).div(s(1)).raw, i64::MAX);
    assert_eq!(s(i64::MIN).div(s(-1)).raw, i64::MAX);
}

#[test]
fn division_by_zero_saturates() {
    assert_eq!(s(5).div(s(0)).raw, i64::MAX);
    assert_eq!(s(-5).div(s(0)).raw, i64::MIN);
    assert_eq!(s(0).div(s(0)).raw, 0);
}

#[test]
fn floor_and_fract_split_a_number() {
    assert_eq!(s(2_750_000).floor(), 2);
    assert_eq!(s(2_750_000).fract().raw, 750_000);
    assert_eq!(s(-250_000).floor(), -1);
    assert_eq!(s(-250_000).fract().raw, 750_000);
    assert_eq!(s(-2_000_000).floor(), -2);
    assert_eq!(s(-2_000_000).fract().raw, 0);
    assert_eq!(s(i64::MIN).floor(), -9_223_372_036_855);
    assert_eq!(s(i64::MIN).fract().raw, 224_192);
}

#[test]
fn clamp_unit_holds_to_zero_and_one() {
    assert_eq!(s(-1).clamp_unit().raw, 0);
    assert_eq!(s(0).clamp_unit().raw, 0);
    assert_eq!(s(300_000).clamp_unit().raw, 300_000);
    assert_eq!(s(1_000_000).clamp_unit().raw, 1_000_000);
    assert_eq!(s(1_000_001).clamp_unit().raw, 1_000_000);
}
