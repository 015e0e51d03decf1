use raytracing_in_one_weekend::Scalar;
use raytracing_in_one_weekend::SCALE;

fn s(raw: i64) -> Scalar {
    Scalar::new(raw)
}

#[test]
fn from_int_scales() {
    assert_eq!(Scalar::from_int(3).raw, 3 * SCALE);
    assert_eq!(Scalar::from_int(-7).raw, -7 * SCALE);
    assert_eq!(Scalar::from_int(0).raw, 0);
}

#[test]
fn add_and_sub_are_exact_in_range() {
    assert_eq!(s(100).add(s(23)).raw, 123);
    assert_eq!(s(100).sub(s(123)).raw, -23);
    assert_eq!(s(-5).neg().raw, 5);
}

#[test]
fn add_saturates_at_the_raw_bounds() {
    let max = 9223372036854775807i64;
    assert_eq!(s(max).add(s(1)).raw, max);
    assert_eq!(s(-max).sub(s(1)).raw, -max);
}

#[test]
fn mul_matches_exact_products() {
    assert_eq!(Scalar::from_int(3).mul(Scalar::from_int(4)).raw, 12 * SCALE);
    assert_eq!(Scalar::from_int(-3).mul(Scalar::from_int(4)).raw, -12 * SCALE);
    // one half times one half is one quarter
    assert_eq!(s(SCALE / 2).mul(s(SCALE / 2)).raw, SCALE / 4);
}

#[test]
fn mul_truncates_toward_zero() {
    // 3 * 3 raw units make 9 / 2^32, which truncates to zero...
    assert_eq!(s(3).mul(s(3)).raw, 0);
    // ... from both sides of zero.
    assert_eq!(s(-3).mul(s(3)).raw, 0);
}

#[test]
fn div_truncates_toward_zero() {
    let third = Scalar::from_int(1).div(Scalar::from_int(3));
    assert_eq!(third.raw, 1431655765);
    let neg_third = Scalar::from_int(-1).div(Scalar::from_int(3));
    assert_eq!(neg_third.raw, -1431655765);
}

#[test]
fn sqrt_is_exact_on_squares() {
    assert_eq!(Scalar::from_int(4).sqrt().raw, 2 * SCALE);
    assert_eq!(Scalar::from_int(25).sqrt().raw, 5 * SCALE);
    assert_eq!(Scalar::from_int(0).sqrt().raw, 0);
}

#[test]
fn random_unit_scalar_stays_in_range() {
    for _ in 0..1000 {
        let r = raytracing_in_one_weekend::rng::random_unit_scalar();
        assert!(0 <= r.raw && r.raw < SCALE);
    }
}

#[test]
fn random_symmetric_scalar_stays_in_range() {
    for _ in 0..1000 {
        let r = raytracing_in_one_weekend::rng::random_symmetric_scalar();
        assert!(-SCALE <= r.raw && r.raw < SCALE);
    }
}

#[test]
fn sqrt_rounds_down() {
    // sqrt(2) is irrational: the result must be the floor of the real root.
    let r = Scalar::from_int(2).sqrt().raw as i128;
    let x = 2i128 * (SCALE as i128) * (SCALE as i128);
    assert!(r * r <= x);
    assert!((r + 1) * (r + 1) > x);
}
