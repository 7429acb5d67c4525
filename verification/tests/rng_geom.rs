use city_core::geom::{clamp_i64, floor_div, isqrt, Vec3i};
use city_core::rng::{hash2, XorShift64};

#[test]
fn xorshift_is_deterministic() {
    let mut a = XorShift64::new(0xA11CE);
    let mut b = XorShift64::new(0xA11CE);
    for _ in 0..64 {
        assert_eq!(a.next(), b.next());
    }
}

#[test]
fn xorshift_seed_zero_is_nonzero_stream() {
    let mut r = XorShift64::new(0);
    let v = r.next();
    assert_ne!(v, 0);
}

#[test]
fn next_below_is_in_range() {
    let mut r = XorShift64::new(7);
    for _ in 0..100 {
        let v = r.next_below(13);
        assert!(v < 13);
    }
}

#[test]
fn hash2_matches_fixed_values() {
    assert_eq!(hash2(0, 0), hash2(0, 0));
    assert_ne!(hash2(0, 0), hash2(1, 0));
    assert_ne!(hash2(0, 1), hash2(1, 0));
    assert_ne!(hash2(-1, 0), hash2(0, -1));
}

#[test]
fn floor_div_rounds_toward_negative_infinity() {
    assert_eq!(floor_div(7, 3), 2);
    assert_eq!(floor_div(-7, 3), -3);
    assert_eq!(floor_div(-6, 3), -2);
    assert_eq!(floor_div(0, 5), 0);
    assert_eq!(floor_div(-1, 102_400), -1);
}

#[test]
fn isqrt_exact_values() {
    assert_eq!(isqrt(0), 0);
    assert_eq!(isqrt(1), 1);
    assert_eq!(isqrt(3), 1);
    assert_eq!(isqrt(4), 2);
    assert_eq!(isqrt(999_999), 999);
    assert_eq!(isqrt(1_000_000), 1000);
    assert_eq!(isqrt(u64::MAX), 0xFFFF_FFFF);
}

#[test]
fn clamp_behaves() {
    assert_eq!(clamp_i64(5, 0, 10), 5);
    assert_eq!(clamp_i64(-5, 0, 10), 0);
    assert_eq!(clamp_i64(50, 0, 10), 10);
}

#[test]
fn vec3i_equality_is_fieldwise() {
    assert_eq!(Vec3i::new(1, 2, 3), Vec3i { x: 1, y: 2, z: 3 });
    assert_ne!(Vec3i::new(1, 2, 3), Vec3i { x: 1, y: 2, z: 4 });
}
