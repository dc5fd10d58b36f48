use pixie::scalar::{isqrt, quotient_toward_zero, Scalar, LIMIT, SCALE};

fn s(micros: i64) -> Scalar {
    Scalar::from_micros(micros)
}

#[test]
fn constructors_scale_and_saturate() {
    assert_eq!(Scalar::zero().micros(), 0);
    assert_eq!(Scalar::one().micros(), SCALE);
    assert_eq!(Scalar::from_units(3).micros(), 3_000_000);
    assert_eq!(Scalar::from_units(-2).micros(), -2_000_000);
    assert_eq!(Scalar::from_units(i64::MAX).micros(), LIMIT);
    assert_eq!(Scalar::from_units(i64::MIN).micros(), -LIMIT);
    assert_eq!(Scalar::from_micros(LIMIT + 1).micros(), LIMIT);
    assert_eq!(Scalar::from_micros(-LIMIT - 1).micros(), -LIMIT);
    assert_eq!(Scalar::from_micros(123).micros(), 123);
    assert_eq!(Scalar::default(), Scalar::zero());
    assert_eq!(Scalar::saturate(i128::MAX).micros(), LIMIT);
    assert_eq!(Scalar::saturate(-7).micros(), -7);
}

#[test]
fn ratios_round_toward_zero() {
    assert_eq!(Scalar::from_ratio(1, 3).micros(), 333_333);
    assert_eq!(Scalar::from_ratio(-1, 3).micros(), -333_333);
    assert_eq!(Scalar::from_ratio(1, -3).micros(), -333_333);
    assert_eq!(Scalar::from_ratio(-2, -3).micros(), 666_666);
    assert_eq!(Scalar::from_ratio(5, 0).micros(), 0);
    assert_eq!(Scalar::from_ratio(1, 60).micros(), 16_666);
}

#[test]
fn sums_and_differences_saturate() {
    assert_eq!(s(1_500_000).add(s(2_250_000)).micros(), 3_750_000);
    assert_eq!(s(1_500_000).sub(s(2_250_000)).micros(), -750_000);
    assert_eq!(s(LIMIT).add(s(1)).micros(), LIMIT);
    assert_eq!(s(-LIMIT).sub(s(1)).micros(), -LIMIT);
    assert_eq!(Scalar { raw: i64::MAX }.add(Scalar { raw: i64::MAX }).micros(), LIMIT);
    assert_eq!(Scalar { raw: i64::MIN }.neg().micros(), LIMIT);
    assert_eq!(s(42).neg().micros(), -42);
}

#[test]
fn products_round_toward_zero_and_saturate() {
    assert_eq!(s(1_500_000).mul(s(2_000_000)).micros(), 3_000_000);
    assert_eq!(s(333_333).mul(s(3_000_000)).micros(), 999_999);
    assert_eq!(s(-9_800_000).mul(s(16_667)).micros(), -163_336);
    assert_eq!(s(1).mul(s(999_999)).micros(), 0);
    assert_eq!(s(-1).mul(s(999_999)).micros(), 0);
    assert_eq!(s(LIMIT).mul(s(LIMIT)).micros(), LIMIT);
    assert_eq!(s(LIMIT).mul(s(-LIMIT)).micros(), -LIMIT);
}

#[test]
fn quotients_round_toward_zero_and_saturate() {
    assert_eq!(s(1_000_000).div(s(3_000_000)).micros(), 333_333);
    assert_eq!(s(-1_000_000).div(s(3_000_000)).micros(), -333_333);
    assert_eq!(s(1_000_000).div(s(-3_000_000)).micros(), -333_333);
    assert_eq!(s(7_000_000).div(s(2_000_000)).micros(), 3_500_000);
    assert_eq!(s(LIMIT).div(s(1)).micros(), LIMIT);
}

#[test]
fn division_by_zero_keeps_the_sign_of_the_dividend() {
    assert_eq!(s(5).div(s(0)).micros(), LIMIT);
    assert_eq!(s(-5).div(s(0)).micros(), -LIMIT);
    assert_eq!(s(0).div(s(0)).micros(), 0);
}

#[test]
fn halves_absolute_values_and_extrema() {
    assert_eq!(s(5).half().micros(), 2);
    assert_eq!(s(-5).half().micros(), -2);
    assert_eq!(s(1_000_000).half().micros(), 500_000);
    assert_eq!(s(-3).abs().micros(), 3);
    assert_eq!(s(3).abs().micros(), 3);
    assert_eq!(Scalar { raw: i64::MIN }.abs().micros(), LIMIT);
    assert_eq!(s(2).min(s(3)).micros(), 2);
    assert_eq!(s(3).min(s(2)).micros(), 2);
    assert_eq!(s(2).max(s(3)).micros(), 3);
    assert_eq!(s(3).max(s(2)).micros(), 3);
}

#[test]
fn integer_square_root_rounds_down() {
    assert_eq!(isqrt(0), 0);
    assert_eq!(isqrt(1), 1);
    assert_eq!(isqrt(3), 1);
    assert_eq!(isqrt(4), 2);
    assert_eq!(isqrt(810_000_000_000), 900_000);
    assert_eq!(isqrt(809_999_999_999), 899_999);
    assert_eq!(isqrt(u128::MAX), 18_446_744_073_709_551_615);
    let big: u128 = 2_000_000_000_000_000_000_000_000_000_000;
    let root = isqrt(big);
    assert!(root * root <= big && big < (root + 1) * (root + 1));
}

#[test]
fn wide_quotient_rounds_toward_zero_for_every_sign() {
    assert_eq!(quotient_toward_zero(7, 2), 3);
    assert_eq!(quotient_toward_zero(-7, 2), -3);
    assert_eq!(quotient_toward_zero(7, -2), -3);
    assert_eq!(quotient_toward_zero(-7, -2), 3);
}

#[test]
fn products_and_quotients_can_round_away_from_zero() {
    let s = Scalar::from_micros;
    // 0.000001 * 1.2 = 0.0000012
    assert_eq!(s(1).mul(s(1_200_000)), s(1));
    assert_eq!(s(1).mul_away(s(1_200_000)), s(2));
    assert_eq!(s(-1).mul_away(s(1_200_000)), s(-2));
    assert_eq!(s(1).mul_away(s(-500_000)), s(-1));
    assert_eq!(s(-1).mul_away(s(-500_000)), s(1));
    assert_eq!(s(1).mul(s(500_000)), s(0));
    // exact results are left as they are
    assert_eq!(s(3_000_000).mul_away(s(500_000)), s(1_500_000));
    assert_eq!(s(0).mul_away(s(500_000)), s(0));
    // 1 / 3 = 0.333333...
    assert_eq!(s(1_000_000).div(s(3_000_000)), s(333_333));
    assert_eq!(s(1_000_000).div_away(s(3_000_000)), s(333_334));
    assert_eq!(s(-1_000_000).div_away(s(3_000_000)), s(-333_334));
    assert_eq!(s(1_000_000).div_away(s(-3_000_000)), s(-333_334));
    assert_eq!(s(1_000_000).div_away(s(2_000_000)), s(500_000));
    assert_eq!(s(0).div_away(s(7)), s(0));
    // division by zero saturates toward the sign of the dividend
    assert_eq!(s(5).div_away(s(0)), s(1_000_000_000_000_000));
    assert_eq!(s(-5).div_away(s(0)), s(-1_000_000_000_000_000));
    assert_eq!(s(0).div_away(s(0)), s(0));
    // results saturate
    assert_eq!(s(1_000_000_000_000_000).mul_away(s(2_000_000)), s(1_000_000_000_000_000));
}
