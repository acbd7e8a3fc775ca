//! The integrator and the full sampling loop: the background gradient on
//! exact values, quantization, an end-to-end two-sphere render, and the
//! statistical convergence of the sample average.

use raytrace::camera::Camera;
use raytrace::colour;
use raytrace::hitable::Sphere;
use raytrace::matter::Material;
use raytrace::quantize_channel;
use raytrace::random_scene;
use raytrace::ray::Ray;
use raytrace::rng::Rng;
use raytrace::vec3::Vec3;
use raytrace::{Pixel, Scene};

const ONE: i64 = 65536;

fn two_sphere_scene(width: u32, height: u32, ns: u32, seed: u64) -> Scene {
    // A large diffuse ground sphere and one diffuse unit sphere ahead of
    // the fixed default camera.
    let ground: Sphere = Sphere::new(
        Vec3::new(0, -6586368, -ONE),
        100 * ONE,
        Material::Lambertian(Vec3::new(32768, 32768, 32768)),
    );
    let ball: Sphere = Sphere::new(
        Vec3::new(0, 0, -ONE),
        ONE / 2,
        Material::Lambertian(Vec3::new(52429, 19661, 19661)),
    );
    Scene {
        width,
        height,
        iterations: ns,
        pixels: Vec::new(),
        camera: Camera::default(),
        world: vec![ground, ball],
        rng: Rng::new(seed),
    }
}

fn empty_scene(width: u32, height: u32, ns: u32, seed: u64) -> Scene {
    Scene {
        width,
        height,
        iterations: ns,
        pixels: Vec::new(),
        camera: Camera::default(),
        world: Vec::new(),
        rng: Rng::new(seed),
    }
}

#[test]
fn background_gradient_exact_value() {
    // Straight down the axis the unit direction has height zero, so the
    // gradient sits halfway between white and the zenith colour.
    let r: Ray = Ray::new(Vec3::new(0, 0, 0), Vec3::new(0, 0, -ONE));
    let mut rng: Rng = Rng::new(5);
    let world: Vec<Sphere> = Vec::new();
    let c: Vec3 = colour(r, &world, 0, &mut rng);
    assert_eq!(c, Vec3::new(49152, 55705, 65536));
    // A miss consumes no randomness.
    assert_eq!(rng, Rng::new(5));
}

#[test]
fn quantize_channel_exact_values() {
    assert_eq!(quantize_channel(0), 0);
    assert_eq!(quantize_channel(-5), 0);
    // Full radiance: 255.99 truncated.
    assert_eq!(quantize_channel(ONE), 255);
    // A quarter: gamma lifts it to one half, 127.995 truncated.
    assert_eq!(quantize_channel(ONE / 4), 127);
    // Radiance beyond one saturates.
    assert_eq!(quantize_channel(4 * ONE), 255);
}

#[test]
fn default_camera_rays_are_exact() {
    let cam: Camera = Camera::default();
    let centre: Ray = cam.get_ray(ONE / 2, ONE / 2);
    assert_eq!(centre.origin(), Vec3::new(0, 0, 0));
    assert_eq!(centre.direction(), Vec3::new(0, 0, -ONE));
    let corner: Ray = cam.get_ray(0, 0);
    assert_eq!(corner.direction(), Vec3::new(-2 * ONE, -ONE, -ONE));
}

#[test]
fn camera_with_right_angle_field_of_view() {
    // tan(45 degrees) is one: the image plane spans two units vertically.
    let cam: Camera = Camera::new(
        Vec3::new(0, 0, 0),
        Vec3::new(0, 0, -ONE),
        Vec3::new(0, ONE, 0),
        90 * ONE,
        ONE,
    );
    assert!((cam.vertical.y() - 2 * ONE).abs() <= 160, "vertical {}", cam.vertical.y());
    assert!((cam.horizontal.x() - 2 * ONE).abs() <= 160, "horizontal {}", cam.horizontal.x());
    assert_eq!(cam.origin, Vec3::new(0, 0, 0));
}

#[test]
fn demo_scene_has_the_four_spheres() {
    let spheres: Vec<Sphere> = random_scene(Vec3::new(0, ONE, 0));
    assert_eq!(spheres.len(), 4);
    assert_eq!(spheres[0].centre, Vec3::new(0, -65536000, 0));
    assert_eq!(spheres[0].radius, 65536000);
    assert_eq!(spheres[1].centre, Vec3::new(0, ONE, 0));
    assert_eq!(spheres[1].mat_ptr, Material::Dielectric(98304));
    assert_eq!(spheres[2].centre, Vec3::new(-4 * ONE, ONE, 0));
    assert_eq!(spheres[3].mat_ptr, Material::Metal(Vec3::new(45875, 39322, 32768), 0));
}

#[test]
fn scene_accessors_and_move_camera() {
    let mut scene: Scene = Scene::with_seed(8, 4, 2, Vec3::new(0, ONE, 0), 77);
    assert_eq!(scene.width(), 8);
    assert_eq!(scene.height(), 4);
    assert_eq!(scene.pixels().len(), 0);
    assert_eq!(scene.rng, Rng::new(77));
    let cam: Camera = Camera::default();
    scene.move_camera(cam);
    assert_eq!(scene.camera, Camera::default());
}

#[test]
fn scene_with_entropy_seed_renders() {
    let mut scene: Scene = Scene::new(2, 2, 1, Vec3::new(0, ONE, 0));
    scene.draw();
    assert_eq!(scene.pixels().len(), 4);
}

#[test]
fn demo_scene_renders_through_all_materials() {
    // The demonstration scene holds diffuse, glass and metal spheres; a
    // small render exercises every scattering path.
    let mut scene: Scene = Scene::with_seed(7, 5, 2, Vec3::new(0, ONE, 0), 3);
    scene.draw();
    assert_eq!(scene.pixels().len(), 35);
    let first: Pixel = scene.pixels()[0];
    assert!(scene.pixels().iter().any(|p| *p != first));
}

#[test]
fn draw_fills_row_major_buffer() {
    let mut scene: Scene = two_sphere_scene(6, 3, 1, 9);
    scene.draw();
    assert_eq!(scene.pixels().len(), 18);
}

#[test]
fn draw_is_deterministic_for_a_seed() {
    let mut a: Scene = two_sphere_scene(5, 5, 2, 31);
    let mut b: Scene = two_sphere_scene(5, 5, 2, 31);
    a.draw();
    b.draw();
    assert_eq!(a.pixels(), b.pixels());
    let mut c: Scene = two_sphere_scene(5, 5, 2, 32);
    c.draw();
    assert_ne!(a.pixels(), c.pixels());
}

#[test]
fn rendered_scene_matches_background_at_top_corners_and_not_at_centre() {
    let seed: u64 = 12345;
    let mut scene: Scene = two_sphere_scene(11, 11, 1, seed);
    let mut sky_only: Scene = empty_scene(11, 11, 1, seed);
    scene.draw();
    sky_only.draw();
    // Rays through the top row fly upward and miss both spheres, and a miss
    // consumes no extra randomness, so those pixels must equal the exact
    // background gradient the empty render evaluates for the same jittered
    // rays.
    let top_left: Pixel = scene.pixels()[0];
    let top_right: Pixel = scene.pixels()[10];
    assert_eq!(top_left, sky_only.pixels()[0]);
    assert_eq!(top_right, sky_only.pixels()[10]);
    // The centre pixel sees the red sphere: not black, and red-dominant,
    // while the background is always blue-dominant.
    let centre: Pixel = scene.pixels()[5 * 11 + 5];
    assert_ne!(centre, Pixel(0, 0, 0));
    assert!(centre.0 > centre.2, "centre {:?} should be red-dominant", centre);
    assert!(top_left.2 >= top_left.0, "sky {:?} should be blue-dominant", top_left);
}

fn mean_variance_across_seeds(ns: u32) -> f64 {
    let width: u32 = 5;
    let height: u32 = 5;
    let seeds: u64 = 8;
    let mut renders: Vec<Vec<Pixel>> = Vec::new();
    for seed in 0..seeds {
        let mut scene: Scene = two_sphere_scene(width, height, ns, 1000 + seed);
        scene.draw();
        renders.push(scene.pixels().clone());
    }
    let pixels: usize = (width * height) as usize;
    let mut total: f64 = 0.0;
    for p in 0..pixels {
        for ch in 0..3usize {
            let values: Vec<f64> = renders
                .iter()
                .map(|r| {
                    let px = &r[p];
                    let v: u8 = if ch == 0 {
                        px.0
                    } else if ch == 1 {
                        px.1
                    } else {
                        px.2
                    };
                    v as f64
                })
                .collect();
            let mean: f64 = values.iter().sum::<f64>() / values.len() as f64;
            let var: f64 =
                values.iter().map(|v| (v - mean) * (v - mean)).sum::<f64>() / values.len() as f64;
            total += var;
        }
    }
    total / (pixels * 3) as f64
}

#[test]
fn more_samples_reduce_render_variance() {
    let v1: f64 = mean_variance_across_seeds(1);
    let v4: f64 = mean_variance_across_seeds(4);
    let v16: f64 = mean_variance_across_seeds(16);
    assert!(v4 < v1, "variance with 4 samples {} not below {}", v4, v1);
    assert!(v16 < v4, "variance with 16 samples {} not below {}", v16, v4);
}
