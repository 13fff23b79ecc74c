use starwalk::coord::get_coord;
use starwalk::math::{cos_fix, isqrt, sin_fix};
use starwalk::quat::Quat;
use starwalk::vec3::Vec3;

#[test]
fn isqrt_exact_values() {
    assert_eq!(isqrt(0), 0);
    assert_eq!(isqrt(1), 1);
    assert_eq!(isqrt(2), 1);
    assert_eq!(isqrt(4), 2);
    assert_eq!(isqrt(12_499_999_999), 111_803);
    assert_eq!(isqrt(1_000_000_000_000), 1_000_000);
}

#[test]
fn sine_peaks_and_zeroes() {
    assert_eq!(sin_fix(0), 0);
    assert_eq!(sin_fix(90_000), 1_000_000);
    assert_eq!(sin_fix(180_000), 0);
    assert_eq!(sin_fix(270_000), -1_000_000);
    assert_eq!(cos_fix(0), 1_000_000);
    assert_eq!(cos_fix(180_000), -1_000_000);
}

#[test]
fn identity_composes_to_identity() {
    let q = Quat::identity();
    let r = q.mul(&q);
    assert_eq!(r, Quat::identity());
}

#[test]
fn scale_to_len_matches_clamp_example() {
    // Re-clamping the point (0, 100000, -50000) to a sphere of radius
    // 100000 lands at about (0, 89443, -44721).
    let v = Vec3::new(0, 100_000, -50_000);
    let r = v.scale_to_len(100_000);
    assert_eq!(r, Vec3::new(0, 89_443, -44_721));
}

#[test]
fn scale_of_zero_vector_is_zero() {
    let v = Vec3::new(0, 0, 0);
    let r = v.scale_to_len(12_345);
    assert_eq!(r, Vec3::new(0, 0, 0));
}

#[test]
fn coordinates_render_as_text() {
    let v = Vec3::new(1_500, 0, -50);
    let s = get_coord(&v);
    assert_eq!(s, "1500 0 -50");
}
