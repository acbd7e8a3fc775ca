//! The vector kernel: exact fixed-point results of every operation, the
//! algebraic laws on concrete values, and normalisation accuracy.

use raytrace::fixed::FX_MAX;
use raytrace::vec3::Vec3;

const ONE: i64 = 65536;

#[test]
fn vec3_new_and_getters() {
    let v: Vec3 = Vec3::new(1, -2, 3);
    assert_eq!(v.x(), 1);
    assert_eq!(v.y(), -2);
    assert_eq!(v.z(), 3);
}

#[test]
fn vec3_add_sub_neg() {
    let a: Vec3 = Vec3::new(1, 2, 3);
    let b: Vec3 = Vec3::new(4, 5, 6);
    assert_eq!(a.add(b), Vec3::new(5, 7, 9));
    assert_eq!(b.sub(a), Vec3::new(3, 3, 3));
    assert_eq!(a.neg(), Vec3::new(-1, -2, -3));
}

#[test]
fn vec3_componentwise_mul_div() {
    let a: Vec3 = Vec3::new(ONE, 2 * ONE, -3 * ONE);
    let b: Vec3 = Vec3::new(2 * ONE, ONE / 2, ONE);
    assert_eq!(a.mul(b), Vec3::new(2 * ONE, ONE, -3 * ONE));
    assert_eq!(a.div(b), Vec3::new(ONE / 2, 4 * ONE, -3 * ONE));
}

#[test]
fn vec3_scalar_mul_div() {
    let a: Vec3 = Vec3::new(2 * ONE, -3 * ONE, ONE / 2);
    assert_eq!(a.mul_s(ONE / 2), Vec3::new(ONE, -98304, 16384));
    let b: Vec3 = Vec3::new(ONE, ONE, 3 * ONE);
    assert_eq!(b.div_s(2 * ONE), Vec3::new(32768, 32768, 98304));
}

#[test]
fn vec3_division_by_zero_saturates() {
    let a: Vec3 = Vec3::new(ONE, -ONE, 0);
    assert_eq!(a.div_s(0), Vec3::new(FX_MAX, -FX_MAX, 0));
}

#[test]
fn vec3_dot_exact() {
    let a: Vec3 = Vec3::new(ONE, 2 * ONE, 3 * ONE);
    let b: Vec3 = Vec3::new(4 * ONE, 5 * ONE, 6 * ONE);
    assert_eq!(Vec3::dot(a, b), 32 * ONE);
}

#[test]
fn vec3_cross_exact() {
    let x_axis: Vec3 = Vec3::new(ONE, 0, 0);
    let y_axis: Vec3 = Vec3::new(0, ONE, 0);
    assert_eq!(Vec3::cross(x_axis, y_axis), Vec3::new(0, 0, ONE));
    assert_eq!(Vec3::cross(y_axis, x_axis), Vec3::new(0, 0, -ONE));
}

#[test]
fn vec3_length_exact_on_pythagorean_triple() {
    let v: Vec3 = Vec3::new(ONE, 2 * ONE, 2 * ONE);
    assert_eq!(v.squared_length(), 9 * ONE);
    assert_eq!(v.length(), 3 * ONE);
}

#[test]
fn unit_vector_components_exact() {
    let v: Vec3 = Vec3::new(3 * ONE, 0, 4 * ONE);
    assert_eq!(v.length(), 5 * ONE);
    let u: Vec3 = Vec3::unit_vector(v);
    assert_eq!(u, Vec3::new(39321, 0, 52428));
}

#[test]
fn unit_vector_has_length_one_within_tolerance() {
    let samples: Vec<Vec3> = vec![
        Vec3::new(3 * ONE, 0, 4 * ONE),
        Vec3::new(ONE, ONE, ONE),
        Vec3::new(-7 * ONE, 2 * ONE, 5 * ONE),
        Vec3::new(ONE, 0, 0),
        Vec3::new(123 * ONE + 45, -67 * ONE + 89, ONE + 1),
        Vec3::new(1000 * ONE, -1, 3),
    ];
    for v in samples {
        let u: Vec3 = Vec3::unit_vector(v);
        let sq: i64 = u.squared_length();
        assert!((sq - ONE).abs() <= 16, "squared length {} off one", sq);
    }
    // The in-place form multiplies by the truncated reciprocal of the
    // length, so its rounding grows with the length; check it on vectors of
    // modest length.
    let short_samples: Vec<Vec3> = vec![
        Vec3::new(3 * ONE, 0, 4 * ONE),
        Vec3::new(ONE, ONE, ONE),
        Vec3::new(-7 * ONE, 2 * ONE, 5 * ONE),
        Vec3::new(ONE, 0, 0),
    ];
    for v in short_samples {
        let mut w: Vec3 = v;
        w.make_unit_vector();
        let sq2: i64 = w.squared_length();
        assert!((sq2 - ONE).abs() <= 16, "in-place squared length {} off one", sq2);
    }
}

#[test]
fn dot_is_symmetric() {
    let a: Vec3 = Vec3::new(ONE + 3, -2 * ONE + 7, 5 * ONE);
    let b: Vec3 = Vec3::new(-4 * ONE, ONE / 4, 9 * ONE - 1);
    assert_eq!(Vec3::dot(a, b), Vec3::dot(b, a));
}

#[test]
fn cross_is_antisymmetric() {
    let a: Vec3 = Vec3::new(ONE + 3, -2 * ONE + 7, 5 * ONE);
    let b: Vec3 = Vec3::new(-4 * ONE, ONE / 4, 9 * ONE - 1);
    assert_eq!(Vec3::cross(a, b), Vec3::cross(b, a).neg());
}

#[test]
fn cross_with_self_is_zero() {
    let a: Vec3 = Vec3::new(ONE + 3, -2 * ONE + 7, 5 * ONE);
    assert_eq!(Vec3::cross(a, a), Vec3::new(0, 0, 0));
    let d: Vec3 = Vec3::default();
    assert_eq!(d, Vec3::new(0, 0, 0));
}
