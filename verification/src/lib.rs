//! A stochastic ray tracer over spheres, built on saturating fixed-point
//! arithmetic so that every stage of the pipeline carries an exact contract:
//! the vector kernel, ray/camera model, sphere intersection, material
//! scattering, and the recursive Monte Carlo colour integrator.

use vstd::prelude::*;

pub mod camera;
pub mod fixed;
pub mod hitable;
pub mod matter;
pub mod ray;
pub mod rng;
pub mod vec3;

use crate::camera::{cam_ray, camera_for, Camera};
use crate::fixed::{
    add_fx, div_fx, fx_add, fx_div, fx_mul, fx_sqrt, fx_sub, mul_fx, sqrt_fx, sub_fx, tdiv,
    FX_MAX, SCALE, TWO_FX,
};
use crate::hitable::{world_hit, Sphere};
use crate::matter::{scatter_spec, Material};
use crate::ray::Ray;
use crate::rng::{next_state, unit_of, Rng};
use crate::vec3::{sqlen, vadd, vdiv_s, vmul, vscale, vsub, vunit, Vec3};

verus! {

/// How often the unit-sphere sampler retries before giving up and returning
/// the centre. Rejection succeeds with probability about 0.52 per try, so 64
/// tries fail with probability below 1e-20; the cap only makes the sampler
/// provably terminating.
pub const RIUS_TRIES: u64 = 64;

/// One candidate point for the unit-sphere sampler: three unit draws from
/// the generator, mapped from `[0, 1)` to `[-1, 1)` component-wise, together
/// with the generator state they leave behind.
pub open spec fn rius_candidate(s: u64) -> (Vec3, u64) {
    let s1 = next_state(s);
    let s2 = next_state(s1);
    let s3 = next_state(s2);
    let drawn = Vec3 { x: unit_of(s1) as i64, y: unit_of(s2) as i64, z: unit_of(s3) as i64 };
    (vsub(vscale(drawn, TWO_FX as int), Vec3 { x: SCALE, y: SCALE, z: SCALE }), s3)
}

/// The point the rejection sampler returns from state `s` with the given
/// fuel: the first candidate of squared length below one, or the centre of
/// the sphere once the fuel runs out.
pub open spec fn rius_spec(s: u64, fuel: nat) -> (Vec3, u64)
    decreases fuel,
{
    let (p, s3) = rius_candidate(s);
    if sqlen(p) < SCALE {
        (p, s3)
    } else if fuel == 0 {
        (Vec3 { x: 0, y: 0, z: 0 }, s3)
    } else {
        rius_spec(s3, (fuel - 1) as nat)
    }
}

fn rius_go(rng: &mut Rng, fuel: usize) -> (r: Vec3)
    ensures
        (r, final(rng).state) == rius_spec(old(rng).state, fuel as nat),
        sqlen(r) < SCALE,
    decreases fuel,
{
    let r1: i64 = rng.next_unit();
    let r2: i64 = rng.next_unit();
    let r3: i64 = rng.next_unit();
    let p: Vec3 = Vec3::new(r1, r2, r3).mul_s(TWO_FX).sub(Vec3::new(SCALE, SCALE, SCALE));
    if p.squared_length() < SCALE {
        p
    } else if fuel == 0 {
        Vec3::new(0, 0, 0)
    } else {
        rius_go(rng, fuel - 1)
    }
}

/// A point drawn uniformly from the unit sphere by rejection sampling: draw
/// a candidate from the unit cube and retry while it falls outside the
/// sphere. The result always has squared length below one.
pub fn random_in_unit_sphere(rng: &mut Rng) -> (r: Vec3)
    ensures
        (r, final(rng).state) == rius_spec(old(rng).state, RIUS_TRIES as nat),
        sqlen(r) < SCALE,
{
    rius_go(rng, 64)
}

/// The fixed-point value 0.5.
pub const HALF_FX: i64 = 32768;

/// The lower bound of the admissible hit interval, about 0.001: scattered
/// rays must travel this far before hitting, which avoids immediate
/// self-intersection from fixed-point round-off at their origin.
pub const HIT_EPS: i64 = 66;

/// The recursion cap of the integrator: a light path is followed through at
/// most this many scattering events before it is counted as absorbed.
pub const MAX_DEPTH: usize = 50;

/// The background gradient: white at the horizon blending to pale blue at
/// the zenith, by the height of the unit ray direction. The zenith colour is
/// (0.5, 0.7, 1.0), its green channel 45875/65536, within a unit of 0.7.
pub open spec fn background_colour(r: Ray) -> Vec3 {
    let unit_direction = vunit(r.direction);
    let t = fx_mul(HALF_FX as int, fx_add(unit_direction.y as int, SCALE as int));
    vadd(
        vscale(Vec3 { x: SCALE, y: SCALE, z: SCALE }, fx_sub(SCALE as int, t)),
        vscale(Vec3 { x: 32768, y: 45875, z: 65536 }, t),
    )
}

/// The radiance along a ray: the background where the ray escapes the scene,
/// otherwise the scattering attenuation times the radiance of the scattered
/// ray, recursively, until the surface absorbs the path or the depth cap
/// counts it as absorbed. Returned with the generator state left behind.
#[verifier::opaque]
pub open spec fn colour_spec(r: Ray, world: Seq<Sphere>, depth: int, s: u64) -> (Vec3, u64)
    decreases MAX_DEPTH - depth,
{
    match world_hit(world, r, HIT_EPS as int, FX_MAX as int) {
        Some(rec) => match rec.mat_ptr {
            Some(mat) => {
                let (attenuation, scattered, ok, s1) = scatter_spec(mat, r, rec, s);
                if depth < MAX_DEPTH && ok {
                    let (c, s2) = colour_spec(scattered, world, depth + 1, s1);
                    (vmul(attenuation, c), s2)
                } else {
                    (Vec3 { x: 0, y: 0, z: 0 }, s1)
                }
            },
            None => (background_colour(r), s),
        },
        None => (background_colour(r), s),
    }
}

/// The background gradient for a ray that escapes the scene.
pub fn background(r: &Ray) -> (col: Vec3)
    ensures
        col == background_colour(*r),
{
    let unit_direction: Vec3 = Vec3::unit_vector(r.direction());
    let t: i64 = mul_fx(HALF_FX, add_fx(unit_direction.y(), SCALE));
    Vec3::new(SCALE, SCALE, SCALE).mul_s(sub_fx(SCALE, t)).add(
        Vec3::new(32768, 45875, 65536).mul_s(t),
    )
}

/// The radiance along a ray through the scene, as `colour_spec` states it:
/// scatter recursively up to the depth cap, multiply the attenuations, and
/// close escaped paths with the background gradient.
pub fn colour(r: Ray, world: &[Sphere], depth: usize, rng: &mut Rng) -> (col: Vec3)
    ensures
        (col, final(rng).state) == colour_spec(r, world@, depth as int, old(rng).state),
    decreases MAX_DEPTH - depth,
{
    proof {
        reveal(colour_spec);
    }
    match crate::hitable::hit(world, &r, HIT_EPS, FX_MAX) {
        Some(rec) => match rec.mat_ptr {
            Some(mat) => {
                let scat: (Vec3, Ray, bool) = mat.scatter(&r, &rec, rng);
                if depth < MAX_DEPTH && scat.2 {
                    let c: Vec3 = colour(scat.1, world, depth + 1, rng);
                    scat.0.mul(c)
                } else {
                    Vec3::default()
                }
            },
            None => background(&r),
        },
        None => background(&r),
    }
}

/// A scene with no primitives always yields the background gradient, for
/// every ray, every depth and every generator state, which it leaves
/// untouched.
pub proof fn lemma_empty_scene_background(r: Ray, depth: int, s: u64)
    ensures
        colour_spec(r, Seq::<Sphere>::empty(), depth, s) == (background_colour(r), s),
{
    reveal(colour_spec);
    assert(world_hit(Seq::<Sphere>::empty(), r, HIT_EPS as int, FX_MAX as int) is None);
}

/// The fixed-point value 255.99 (to the nearest unit), the channel scale of
/// the 8-bit quantizer.
pub const C255_99: i64 = 16776560;

/// An 8-bit RGB pixel.
#[derive(Clone, Copy, Debug, PartialEq, Eq, Structural)]
pub struct Pixel(pub u8, pub u8, pub u8);

/// One accumulated radiance channel turned into an 8-bit value: gamma-2
/// correction by square root, scaling by 255.99, and saturating truncation.
pub open spec fn quantize(c: int) -> u8 {
    let v = tdiv(fx_mul(C255_99 as int, fx_sqrt(c)), SCALE as int);
    if v < 0 {
        0u8
    } else if v > 255 {
        255u8
    } else {
        v as u8
    }
}

/// One accumulated radiance channel turned into an 8-bit value.
pub fn quantize_channel(c: i64) -> (r: u8)
    ensures
        r as int == quantize(c as int),
{
    let ch: i64 = mul_fx(C255_99, sqrt_fx(c));
    if ch < 0 {
        proof {
            vstd::arithmetic::div_mod::lemma_div_pos_is_pos(-(ch as int), SCALE as int);
        }
        0
    } else {
        let q: u64 = (ch as u64) / 65536;
        if q > 255 {
            255
        } else {
            q as u8
        }
    }
}

/// One camera sample of pixel `(i, j)`: jitter the image-plane coordinates
/// by two unit draws (row `j` counted from the top) and integrate the ray.
pub open spec fn sample_spec(
    cam: Camera,
    world: Seq<Sphere>,
    i: int,
    j: int,
    nx: int,
    ny: int,
    s: u64,
) -> (Vec3, u64) {
    let s1 = next_state(s);
    let ri = unit_of(s1);
    let s2 = next_state(s1);
    let rj = unit_of(s2);
    let u = fx_div(fx_add(i * SCALE, ri), nx * SCALE);
    let v = fx_div(fx_add((ny - j) * SCALE, rj), ny * SCALE);
    colour_spec(cam_ray(cam, u, v), world, 0, s2)
}

/// The radiance of pixel `(i, j)` accumulated over the first `n` samples.
pub open spec fn accum_spec(
    cam: Camera,
    world: Seq<Sphere>,
    i: int,
    j: int,
    nx: int,
    ny: int,
    n: nat,
    s: u64,
) -> (Vec3, u64)
    decreases n,
{
    if n == 0 {
        (Vec3 { x: 0, y: 0, z: 0 }, s)
    } else {
        let (col, s1) = accum_spec(cam, world, i, j, nx, ny, (n - 1) as nat, s);
        let (c, s2) = sample_spec(cam, world, i, j, nx, ny, s1);
        (vadd(col, c), s2)
    }
}

/// The finished pixel `(i, j)`: accumulate `ns` samples, average, and
/// quantize each channel.
#[verifier::opaque]
pub open spec fn pixel_spec(
    cam: Camera,
    world: Seq<Sphere>,
    i: int,
    j: int,
    nx: int,
    ny: int,
    ns: int,
    s: u64,
) -> (Pixel, u64) {
    let (acc, s1) = accum_spec(cam, world, i, j, nx, ny, ns as nat, s);
    let col = vdiv_s(acc, ns * SCALE);
    (Pixel(quantize(col.x as int), quantize(col.y as int), quantize(col.z as int)), s1)
}

/// The first `k` pixels of the image in row-major order, top row first:
/// pixel number `k - 1` sits at column `(k - 1) % nx` of row `(k - 1) / nx`.
pub open spec fn render_spec(
    cam: Camera,
    world: Seq<Sphere>,
    nx: int,
    ny: int,
    ns: int,
    s: u64,
    k: nat,
) -> (Seq<Pixel>, u64)
    decreases k,
{
    if k == 0 {
        (Seq::empty(), s)
    } else {
        let (pix, s1) = render_spec(cam, world, nx, ny, ns, s, (k - 1) as nat);
        let idx = k - 1;
        let (p, s2) = pixel_spec(cam, world, idx % nx, idx / nx, nx, ny, ns, s1);
        (pix.push(p), s2)
    }
}

/// One pixel rendered: `ns` jittered camera samples accumulated, averaged,
/// gamma-corrected and quantized, as `pixel_spec` states.
fn render_pixel(
    cam: &Camera,
    world: &[Sphere],
    rng: &mut Rng,
    i: u32,
    j: u32,
    nx: u32,
    ny: u32,
    ns: u32,
) -> (p: Pixel)
    requires
        1 <= nx <= 30000,
        1 <= ny <= 30000,
        i < nx,
        j < ny,
        1 <= ns,
    ensures
        (p, final(rng).state) == pixel_spec(
            *cam,
            world@,
            i as int,
            j as int,
            nx as int,
            ny as int,
            ns as int,
            old(rng).state,
        ),
{
    proof {
        reveal(pixel_spec);
    }
    let ghost s_pixel = rng.state;
    let mut col: Vec3 = Vec3::new(0, 0, 0);
    let mut sidx: u32 = 0;
    while sidx < ns
        invariant
            sidx <= ns,
            i < nx,
            j < ny,
            1 <= nx <= 30000,
            1 <= ny <= 30000,
            (col, rng.state) == accum_spec(
                *cam,
                world@,
                i as int,
                j as int,
                nx as int,
                ny as int,
                sidx as nat,
                s_pixel,
            ),
        decreases ns - sidx,
    {
        let randi: i64 = rng.next_unit();
        let randj: i64 = rng.next_unit();
        let u: i64 = div_fx(add_fx((i as i64) * 65536, randi), (nx as i64) * 65536);
        let v: i64 = div_fx(add_fx(((ny - j) as i64) * 65536, randj), (ny as i64) * 65536);
        let r: Ray = cam.get_ray(u, v);
        let c: Vec3 = colour(r, world, 0, rng);
        col = col.add(c);
        sidx = sidx + 1;
    }
    col = col.div_s((ns as i64) * 65536);
    Pixel(quantize_channel(col.x), quantize_channel(col.y), quantize_channel(col.z))
}

/// A render target: image dimensions, sample count, camera, the spheres of
/// the scene, the pixel buffer `draw` fills, and the random generator the
/// samples consume.
pub struct Scene {
    pub width: u32,
    pub height: u32,
    pub iterations: u32,
    pub pixels: Vec<Pixel>,
    pub camera: Camera,
    pub world: Vec<Sphere>,
    pub rng: Rng,
}

/// The demonstration scene: a large diffuse ground sphere, a glass sphere at
/// the given position, and two mirror-smooth metal spheres.
pub open spec fn scene_spheres(sphere_pos: Vec3) -> Seq<Sphere> {
    seq![
        Sphere {
            centre: Vec3 { x: 0, y: -65536000i64, z: 0 },
            radius: 65536000,
            mat_ptr: Material::Lambertian(Vec3 { x: 32768, y: 32768, z: 32768 }),
        },
        Sphere { centre: sphere_pos, radius: 65536, mat_ptr: Material::Dielectric(98304) },
        Sphere {
            centre: Vec3 { x: -262144i64, y: 65536, z: 0 },
            radius: 65536,
            mat_ptr: Material::Metal(Vec3 { x: 26214, y: 13107, z: 6554 }, 0),
        },
        Sphere {
            centre: Vec3 { x: 262144, y: 65536, z: 0 },
            radius: 65536,
            mat_ptr: Material::Metal(Vec3 { x: 45875, y: 39322, z: 32768 }, 0),
        },
    ]
}

/// The demonstration scene as an ordered collection of spheres: a diffuse
/// ground sphere of radius 1000, a glass sphere at `sphere_pos`, and two
/// metal spheres, with albedos at the nearest fixed-point values.
pub fn random_scene(sphere_pos: Vec3) -> (r: Vec<Sphere>)
    ensures
        r@ == scene_spheres(sphere_pos),
{
    let mut hit_list: Vec<Sphere> = Vec::new();
    hit_list.push(
        Sphere::new(
            Vec3::new(0, -65536000, 0),
            65536000,
            Material::Lambertian(Vec3::new(32768, 32768, 32768)),
        ),
    );
    hit_list.push(Sphere::new(sphere_pos, 65536, Material::Dielectric(98304)));
    hit_list.push(
        Sphere::new(
            Vec3::new(-262144, 65536, 0),
            65536,
            Material::Metal(Vec3::new(26214, 13107, 6554), 0),
        ),
    );
    hit_list.push(
        Sphere::new(
            Vec3::new(262144, 65536, 0),
            65536,
            Material::Metal(Vec3::new(45875, 39322, 32768), 0),
        ),
    );
    assert(hit_list@ =~= scene_spheres(sphere_pos));
    hit_list
}

impl Scene {
    /// Replace the camera; everything else is untouched.
    pub fn move_camera(&mut self, camera: Camera)
        ensures
            final(self).camera == camera,
            final(self).width == old(self).width,
            final(self).height == old(self).height,
            final(self).iterations == old(self).iterations,
            final(self).pixels == old(self).pixels,
            final(self).world == old(self).world,
            final(self).rng == old(self).rng,
    {
        self.camera = camera;
    }

    /// The image width in pixels.
    pub fn width(&self) -> (r: u32)
        ensures
            r == self.width,
    {
        self.width
    }

    /// The image height in pixels.
    pub fn height(&self) -> (r: u32)
        ensures
            r == self.height,
    {
        self.height
    }

    /// The pixel buffer, row-major, top row first.
    pub fn pixels(&self) -> (r: &Vec<Pixel>)
        ensures
            r == &self.pixels,
    {
        &self.pixels
    }

    /// Render the scene into the pixel buffer: for every pixel, average
    /// `iterations` jittered camera samples, gamma-correct, and quantize, in
    /// row-major order, top row first, exactly as `render_spec` states.
    #[verifier::rlimit(100)]
    pub fn draw(&mut self)
        requires
            1 <= old(self).width <= 30000,
            1 <= old(self).height <= 30000,
            1 <= old(self).iterations,
        ensures
            ({
                let (pix, s) = render_spec(
                    old(self).camera,
                    old(self).world@,
                    old(self).width as int,
                    old(self).height as int,
                    old(self).iterations as int,
                    old(self).rng.state,
                    (old(self).width * old(self).height) as nat,
                );
                final(self).pixels@ == pix && final(self).rng.state == s
            }),
            final(self).width == old(self).width,
            final(self).height == old(self).height,
            final(self).iterations == old(self).iterations,
            final(self).camera == old(self).camera,
            final(self).world@ == old(self).world@,
    {
        let nx: u32 = self.width;
        let ny: u32 = self.height;
        let ns: u32 = self.iterations;
        let ghost cam = self.camera;
        let ghost world_view = self.world@;
        let ghost s0 = self.rng.state;
        self.pixels = Vec::new();

        let mut j: u32 = 0;
        while j < ny
            invariant
                j <= ny,
                1 <= nx <= 30000,
                1 <= ny <= 30000,
                1 <= ns,
                cam == self.camera,
                world_view == self.world@,
                nx == self.width,
                ny == self.height,
                ns == self.iterations,
                self.pixels@.len() == j * nx,
                (self.pixels@, self.rng.state) == render_spec(
                    cam,
                    world_view,
                    nx as int,
                    ny as int,
                    ns as int,
                    s0,
                    (j * nx) as nat,
                ),
            decreases ny - j,
        {
            let mut i: u32 = 0;
            while i < nx
                invariant
                    i <= nx,
                    j < ny,
                    1 <= nx <= 30000,
                    1 <= ny <= 30000,
                    1 <= ns,
                    cam == self.camera,
                    world_view == self.world@,
                    nx == self.width,
                    ny == self.height,
                    ns == self.iterations,
                    self.pixels@.len() == j * nx + i,
                    (self.pixels@, self.rng.state) == render_spec(
                        cam,
                        world_view,
                        nx as int,
                        ny as int,
                        ns as int,
                        s0,
                        (j * nx + i) as nat,
                    ),
                decreases nx - i,
            {
                let pixel: Pixel = render_pixel(
                    &self.camera,
                    self.world.as_slice(),
                    &mut self.rng,
                    i,
                    j,
                    nx,
                    ny,
                    ns,
                );
                self.pixels.push(pixel);
                proof {
                    vstd::arithmetic::div_mod::lemma_fundamental_div_mod_converse(
                        (j * nx + i) as int,
                        nx as int,
                        j as int,
                        i as int,
                    );
                }
                i = i + 1;
            }
            j = j + 1;
            proof {
                assert(j * nx == (j - 1) * nx + nx) by (nonlinear_arith);
            }
        }
        proof {
            assert(ny * nx == nx * ny) by (nonlinear_arith);
        }
    }

    /// The render target the demonstration uses: the standard scene with the
    /// glass sphere at `sphere_pos`, a camera at (3, 3, 2) aimed at the unit
    /// sphere with a 60-degree field of view, and a generator seeded from
    /// the process entropy source.
    pub fn new(nx: usize, ny: usize, ns: usize, sphere_pos: Vec3) -> (r: Scene)
        requires
            1 <= nx <= 30000,
            1 <= ny <= 30000,
            1 <= ns <= 0xFFFF_FFFF,
        ensures
            r.width == nx,
            r.height == ny,
            r.iterations == ns,
            r.pixels@ == Seq::<Pixel>::empty(),
            r.world@ == scene_spheres(sphere_pos),
            r.camera == camera_for(
                Vec3 { x: 196608, y: 196608, z: 131072 },
                Vec3 { x: 0, y: 0, z: -65536i64 },
                Vec3 { x: 0, y: 65536, z: 0 },
                3932160,
                fx_div(nx * SCALE, ny * SCALE),
            ),
    {
        let seed: u64 = rng::entropy_seed();
        Scene::with_seed(nx, ny, ns, sphere_pos, seed)
    }

    /// The same render target as `new`, with the generator seeded
    /// explicitly, for reproducible renders.
    pub fn with_seed(nx: usize, ny: usize, ns: usize, sphere_pos: Vec3, seed: u64) -> (r: Scene)
        requires
            1 <= nx <= 30000,
            1 <= ny <= 30000,
            1 <= ns <= 0xFFFF_FFFF,
        ensures
            r.width == nx,
            r.height == ny,
            r.iterations == ns,
            r.pixels@ == Seq::<Pixel>::empty(),
            r.world@ == scene_spheres(sphere_pos),
            r.rng.state == seed,
            r.camera == camera_for(
                Vec3 { x: 196608, y: 196608, z: 131072 },
                Vec3 { x: 0, y: 0, z: -65536i64 },
                Vec3 { x: 0, y: 65536, z: 0 },
                3932160,
                fx_div(nx * SCALE, ny * SCALE),
            ),
    {
        let world: Vec<Sphere> = random_scene(sphere_pos);
        let aspect: i64 = div_fx((nx as i64) * 65536, (ny as i64) * 65536);
        let camera: Camera = Camera::new(
            Vec3::new(196608, 196608, 131072),
            Vec3::new(0, 0, -65536),
            Vec3::new(0, 65536, 0),
            3932160,
            aspect,
        );
        Scene {
            width: nx as u32,
            height: ny as u32,
            iterations: ns as u32,
            pixels: Vec::new(),
            camera,
            world,
            rng: Rng::new(seed),
        }
    }
}

} // verus!
