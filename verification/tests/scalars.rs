use receding_horizon::scalar::{scale_trunc, Scalar, SCALE};

#[test]
fn fixed_point_product_is_exact() {
    // 0.5 * -0.3 == -0.15
    let r = Scalar::new(500_000).mul(Scalar::new(-300_000));
    assert_eq!(r.raw, -150_000);
    // 0.9 * 1.0 == 0.9
    let r = Scalar::new(900_000).mul(Scalar::new(SCALE));
    assert_eq!(r.raw, 900_000);
}

#[test]
fn fixed_point_product_truncates_toward_zero() {
    // the smallest positive raw value times 0.5 truncates to zero
    let r = Scalar::new(1).mul(Scalar::new(500_000));
    assert_eq!(r.raw, 0);
    // and so does its negation: no rounding toward minus infinity
    let r = Scalar::new(-1).mul(Scalar::new(500_000));
    assert_eq!(r.raw, 0);
}

#[test]
fn scale_trunc_takes_the_whole_part() {
    assert_eq!(scale_trunc(2_700_000), 2);
    assert_eq!(scale_trunc(-2_700_000), -2);
    assert_eq!(scale_trunc(999_999), 0);
    assert_eq!(scale_trunc(i64::MIN), -9_223_372_036_854);
}

#[test]
fn scalar_sums_and_units() {
    assert_eq!(Scalar::from_units(3).raw, 3_000_000);
    assert_eq!(Scalar::one().add(Scalar::new(-250_000)).raw, 750_000);
    assert_eq!(Scalar::zero().raw, 0);
    assert_eq!(Scalar::one().neg().raw, -SCALE);
}
