//! The scattering model: reflection and refraction on exact values, the
//! Schlick reflectance, the absorption conditions of each material, and the
//! unit-sphere sampler.

use raytrace::hitable::HitRecord;
use raytrace::matter::{reflect, refract, schlick, Material};
use raytrace::random_in_unit_sphere;
use raytrace::ray::Ray;
use raytrace::rng::Rng;
use raytrace::vec3::Vec3;

const ONE: i64 = 65536;

fn surface_hit() -> HitRecord {
    // A hit on a horizontal-facing surface at the origin of the test rays.
    HitRecord {
        t: ONE,
        p: Vec3::new(0, 0, -ONE),
        normal: Vec3::new(0, 0, ONE),
        mat_ptr: None,
    }
}

#[test]
fn reflect_about_normal_is_exact() {
    let v: Vec3 = Vec3::new(0, 0, -ONE);
    let n: Vec3 = Vec3::new(0, 0, ONE);
    assert_eq!(reflect(v, n), Vec3::new(0, 0, ONE));
    // A 45-degree incidence keeps its tangential part.
    let d: Vec3 = Vec3::new(ONE, 0, -ONE);
    assert_eq!(reflect(d, n), Vec3::new(ONE, 0, ONE));
}

#[test]
fn refract_with_unit_ratio_does_not_bend() {
    let v: Vec3 = Vec3::new(0, 0, -ONE);
    let n: Vec3 = Vec3::new(0, 0, ONE);
    let (refracted, ok) = refract(v, n, ONE);
    assert!(ok);
    assert_eq!(refracted, Vec3::new(0, 0, -ONE));
}

#[test]
fn refract_reports_total_internal_reflection() {
    // A grazing ray against a high index ratio: the discriminant goes
    // negative and refraction is refused.
    let v: Vec3 = Vec3::new(ONE, 0, -6554);
    let n: Vec3 = Vec3::new(0, 0, ONE);
    let (_, ok) = refract(v, n, 2 * ONE);
    assert!(!ok);
}

#[test]
fn schlick_exact_values() {
    // Unit index at normal incidence: no reflectance at all.
    assert_eq!(schlick(ONE, ONE), 0);
    // Glass at normal incidence: r0 = ((1 - 1.5) / (1 + 1.5))^2 = 0.04.
    assert_eq!(schlick(ONE, 98304), 2621);
    // Glass at grazing incidence: full reflectance.
    assert_eq!(schlick(0, 98304), ONE);
}

#[test]
fn schlick_grows_as_cosine_falls() {
    let glass: i64 = 98304;
    // As the cosine falls from one to zero the reflectance must not fall.
    let cosines: Vec<i64> = vec![ONE, 3 * ONE / 4, ONE / 2, ONE / 4, ONE / 8, 0];
    let mut previous: i64 = -1;
    for c in cosines.iter() {
        let r: i64 = schlick(*c, glass);
        assert!(r >= previous, "reflectance fell from {} to {}", previous, r);
        previous = r;
    }
}

#[test]
fn lambertian_always_scatters() {
    let albedo: Vec3 = Vec3::new(52428, 19660, 19660);
    let material: Material = Material::Lambertian(albedo);
    let incoming: Ray = Ray::new(Vec3::new(0, 0, 0), Vec3::new(0, 0, -ONE));
    let rec: HitRecord = surface_hit();
    for seed in 0..20u64 {
        let mut rng: Rng = Rng::new(seed);
        let (attenuation, scattered, ok) = material.scatter(&incoming, &rec, &mut rng);
        assert!(ok);
        assert_eq!(attenuation, albedo);
        assert_eq!(scattered.origin(), rec.p);
    }
}

#[test]
fn metal_reflects_off_the_surface() {
    let material: Material = Material::Metal(Vec3::new(ONE, ONE, ONE), 0);
    let incoming: Ray = Ray::new(Vec3::new(0, 0, 0), Vec3::new(0, 0, -ONE));
    let rec: HitRecord = surface_hit();
    let mut rng: Rng = Rng::new(7);
    let (_, scattered, ok) = material.scatter(&incoming, &rec, &mut rng);
    assert!(ok);
    assert_eq!(scattered.direction(), Vec3::new(0, 0, ONE));
}

#[test]
fn metal_absorbs_rays_reflected_into_the_surface() {
    // An incoming ray leaving along the normal reflects straight into the
    // surface; with no fuzz the absorption condition triggers for any seed.
    let material: Material = Material::Metal(Vec3::new(ONE, ONE, ONE), 0);
    let incoming: Ray = Ray::new(Vec3::new(0, 0, 0), Vec3::new(0, 0, ONE));
    let rec: HitRecord = surface_hit();
    for seed in 0..20u64 {
        let mut rng: Rng = Rng::new(seed);
        let (_, scattered, ok) = material.scatter(&incoming, &rec, &mut rng);
        assert!(!ok);
        assert_eq!(scattered.direction(), Vec3::new(0, 0, -ONE));
    }
}

#[test]
fn unit_index_dielectric_refracts_straight_through() {
    // With a refractive index of one there is no bending and, at normal
    // incidence, no reflection, whatever the generator draws.
    let material: Material = Material::Dielectric(ONE);
    let incoming: Ray = Ray::new(Vec3::new(0, 0, 0), Vec3::new(0, 0, -ONE));
    let rec: HitRecord = surface_hit();
    for seed in 0..20u64 {
        let mut rng: Rng = Rng::new(seed);
        let (attenuation, scattered, ok) = material.scatter(&incoming, &rec, &mut rng);
        assert!(ok);
        assert_eq!(attenuation, Vec3::new(ONE, ONE, 0));
        assert_eq!(scattered.direction(), Vec3::new(0, 0, -ONE));
    }
}

#[test]
fn unit_index_dielectric_refracts_when_exiting() {
    // Leaving the medium (direction along the stored normal) flips the
    // outward normal; with a unit index the ray still passes straight.
    let material: Material = Material::Dielectric(ONE);
    let incoming: Ray = Ray::new(Vec3::new(0, 0, 0), Vec3::new(0, 0, ONE));
    let rec: HitRecord = surface_hit();
    let mut rng: Rng = Rng::new(11);
    let (attenuation, scattered, ok) = material.scatter(&incoming, &rec, &mut rng);
    assert!(ok);
    assert_eq!(attenuation, Vec3::new(ONE, ONE, 0));
    assert_eq!(scattered.direction(), Vec3::new(0, 0, ONE));
}

#[test]
fn unit_sphere_samples_stay_inside() {
    let mut rng: Rng = Rng::new(42);
    for _ in 0..200 {
        let p: Vec3 = random_in_unit_sphere(&mut rng);
        assert!(p.squared_length() < ONE);
    }
}

#[test]
fn generator_is_deterministic_per_seed() {
    let mut a: Rng = Rng::new(99);
    let mut b: Rng = Rng::new(99);
    for _ in 0..50 {
        let da: i64 = a.next_unit();
        let db: i64 = b.next_unit();
        assert_eq!(da, db);
        assert!(0 <= da && da < ONE);
    }
    let mut c: Rng = Rng::new(100);
    let mut differs: bool = false;
    let mut a2: Rng = Rng::new(99);
    for _ in 0..50 {
        if a2.next_unit() != c.next_unit() {
            differs = true;
        }
    }
    assert!(differs);
}
