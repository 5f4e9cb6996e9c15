use skeletal_anim::fixed::{clamp_i64, euclid_rem, fx_lerp, isqrt_u64, mul_div, FX_ONE};

#[test]
fn mul_div_rounds_toward_zero() {
    assert_eq!(mul_div(7, 3, 2), 10);
    assert_eq!(mul_div(-7, 3, 2), -10);
    assert_eq!(mul_div(7, -3, 2), -10);
    assert_eq!(mul_div(-7, -3, 2), 10);
    assert_eq!(mul_div(1, 1, 2), 0);
    assert_eq!(mul_div(-1, 1, 2), 0);
}

#[test]
fn lerp_hits_endpoints_exactly() {
    assert_eq!(fx_lerp(250, 750, 0), 250);
    assert_eq!(fx_lerp(250, 750, FX_ONE), 750);
    assert_eq!(fx_lerp(0, 1_000_000, 700_000), 700_000);
    assert_eq!(fx_lerp(1_000_000, 0, 250_000), 750_000);
}

#[test]
fn isqrt_brackets_the_root() {
    assert_eq!(isqrt_u64(0), 0);
    assert_eq!(isqrt_u64(1), 1);
    assert_eq!(isqrt_u64(3), 1);
    assert_eq!(isqrt_u64(4), 2);
    assert_eq!(isqrt_u64(999_999), 999);
    assert_eq!(isqrt_u64(1_000_000_000_000), 1_000_000);
    assert_eq!(isqrt_u64(u64::MAX), 4_294_967_295);
}

#[test]
fn euclid_rem_is_nonnegative() {
    assert_eq!(euclid_rem(5, 3), 2);
    assert_eq!(euclid_rem(-1, 3), 2);
    assert_eq!(euclid_rem(-3, 3), 0);
    assert_eq!(euclid_rem(-4, 3), 2);
    assert_eq!(euclid_rem(2_500_000, 2_000_000), 500_000);
}

#[test]
fn clamp_forces_into_range() {
    assert_eq!(clamp_i64(5, 0, 10), 5);
    assert_eq!(clamp_i64(-5, 0, 10), 0);
    assert_eq!(clamp_i64(15, 0, 10), 10);
}
