//! The intersection engine: sphere hits down the axis, clean misses, root
//! selection against the admissible interval, and order independence of the
//! nearest-hit scan.

use raytrace::fixed::FX_MAX;
use raytrace::hitable::{hit, Sphere};
use raytrace::matter::Material;
use raytrace::ray::Ray;
use raytrace::vec3::Vec3;

const ONE: i64 = 65536;
const EPS: i64 = 66;

fn axis_ray() -> Ray {
    Ray::new(Vec3::new(0, 0, 0), Vec3::new(0, 0, -ONE))
}

fn red_lambertian() -> Material {
    Material::Lambertian(Vec3::new(52428, 19660, 19660))
}

#[test]
fn ray_at_center_hits_at_distance_minus_radius() {
    let sphere: Sphere = Sphere::new(Vec3::new(0, 0, -3 * ONE), ONE, red_lambertian());
    let rec = sphere.hit(&axis_ray(), EPS, FX_MAX).expect("must hit");
    // distance from origin to centre is 3, radius 1: the hit is at t = 2.
    assert_eq!(rec.t, 2 * ONE);
    assert_eq!(rec.p, Vec3::new(0, 0, -2 * ONE));
    // The normal is outward and unit length.
    assert_eq!(rec.normal, Vec3::new(0, 0, ONE));
    assert_eq!(rec.normal.length(), ONE);
    assert_eq!(rec.mat_ptr, Some(red_lambertian()));
}

#[test]
fn ray_with_offset_beyond_radius_misses() {
    // The ray runs down -z; the sphere sits two units up: a clean miss.
    let sphere: Sphere = Sphere::new(Vec3::new(0, 2 * ONE, -3 * ONE), ONE, red_lambertian());
    assert!(sphere.hit(&axis_ray(), EPS, FX_MAX).is_none());
}

#[test]
fn hit_rejects_roots_outside_interval() {
    let sphere: Sphere = Sphere::new(Vec3::new(0, 0, -3 * ONE), ONE, red_lambertian());
    // Both roots (2 and 4) sit at or beyond the shrunken upper bound.
    assert!(sphere.hit(&axis_ray(), EPS, 2 * ONE).is_none());
    // With the lower bound past the near root, the far root is chosen.
    let rec = sphere.hit(&axis_ray(), 3 * ONE, FX_MAX).expect("far root");
    assert_eq!(rec.t, 4 * ONE);
}

#[test]
fn scene_hit_returns_closer_sphere_in_either_order() {
    let near: Sphere = Sphere::new(Vec3::new(0, 0, -3 * ONE), ONE, red_lambertian());
    let far: Sphere = Sphere::new(
        Vec3::new(0, 0, -4 * ONE),
        98304,
        Material::Metal(Vec3::new(ONE, ONE, ONE), 0),
    );
    // Alone, the far sphere is first met at t = 2.5.
    let far_rec = far.hit(&axis_ray(), EPS, FX_MAX).expect("far hit");
    assert_eq!(far_rec.t, 163840);
    let world_a: Vec<Sphere> = vec![near, far];
    let world_b: Vec<Sphere> = vec![far, near];
    let rec_a = hit(&world_a, &axis_ray(), EPS, FX_MAX).expect("hit a");
    let rec_b = hit(&world_b, &axis_ray(), EPS, FX_MAX).expect("hit b");
    assert_eq!(rec_a.t, 2 * ONE);
    assert_eq!(rec_b.t, 2 * ONE);
    assert_eq!(rec_a.p, rec_b.p);
    assert_eq!(rec_a.normal, rec_b.normal);
    assert_eq!(rec_a.mat_ptr, Some(red_lambertian()));
    assert_eq!(rec_b.mat_ptr, Some(red_lambertian()));
}

#[test]
fn empty_world_never_hits() {
    let world: Vec<Sphere> = Vec::new();
    assert!(hit(&world, &axis_ray(), EPS, FX_MAX).is_none());
}

#[test]
fn point_at_parameter_is_affine() {
    let r: Ray = Ray::new(Vec3::new(ONE, 0, 0), Vec3::new(0, 0, -2 * ONE));
    assert_eq!(r.origin(), Vec3::new(ONE, 0, 0));
    assert_eq!(r.direction(), Vec3::new(0, 0, -2 * ONE));
    assert_eq!(r.point_at_parameter(ONE / 2), Vec3::new(ONE, 0, -ONE));
    assert_eq!(r.point_at_parameter(0), Vec3::new(ONE, 0, 0));
}
