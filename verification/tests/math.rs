use nbody::math::{clamp_to_fix, isqrt, FIX_LIMIT};

#[test]
fn isqrt_small_values() {
    assert_eq!(isqrt(0), 0);
    assert_eq!(isqrt(1), 1);
    assert_eq!(isqrt(2), 1);
    assert_eq!(isqrt(3), 1);
    assert_eq!(isqrt(4), 2);
    assert_eq!(isqrt(99), 9);
    assert_eq!(isqrt(100), 10);
}

#[test]
fn isqrt_large_values() {
    assert_eq!(isqrt(10_000_000_000_000_000), 100_000_000);
    assert_eq!(isqrt(u128::MAX), u64::MAX);
    let r = isqrt((1u128 << 100) - 1);
    assert_eq!(r, (1u64 << 50) - 1);
}

#[test]
fn clamp_to_fix_is_symmetric() {
    assert_eq!(clamp_to_fix(0), 0);
    assert_eq!(clamp_to_fix(12345), 12345);
    assert_eq!(clamp_to_fix(-12345), -12345);
    assert_eq!(clamp_to_fix(i128::MAX), FIX_LIMIT);
    assert_eq!(clamp_to_fix(i128::MIN), -FIX_LIMIT);
    assert_eq!(clamp_to_fix(FIX_LIMIT as i128 + 1), FIX_LIMIT);
    assert_eq!(clamp_to_fix(-(FIX_LIMIT as i128) - 1), -FIX_LIMIT);
}
