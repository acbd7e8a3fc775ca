//! The intersection engine: sphere hit-testing by the half-angle quadratic,
//! and the nearest-hit scan over an ordered collection of spheres.
//!
//! Both are specified exactly: `sphere_hit` mirrors the quadratic root
//! selection to the fixed-point unit, and `world_hit` mirrors the scan that
//! shrinks the admissible interval to the closest hit found so far. On top
//! of the mirrors this module proves the ordering laws of the scan: a later
//! sphere can only win by being strictly closer, so the closest hit is
//! returned whichever way two spheres are listed.

use vstd::prelude::*;
use crate::fixed::{
    add_fx, div_fx, fx_add, fx_div, fx_mul, fx_neg, fx_sqrt, fx_sub, iabs,
    lemma_fx_div_monotone, lemma_fx_sqrt_nonneg, mul_fx, neg_fx, sqrt_fx, sub_fx, SCALE,
};
use crate::vec3::lemma_vdot_self_nonneg;
use crate::matter::Material;
use crate::ray::{ray_at, Ray};
use crate::vec3::{sqlen, vdiv_s, vdot, vsub, Vec3};

verus! {

/// The result of a successful ray/primitive intersection.
#[derive(Clone, Copy, Debug)]
pub struct HitRecord {
    pub t: i64,
    pub p: Vec3,
    pub normal: Vec3,
    pub mat_ptr: Option<Material>,
}

impl HitRecord {
    /// A record of a hit at parameter `t`, point `p`, with the surface
    /// normal and material of the primitive that was hit.
    fn new(t: i64, p: Vec3, normal: Vec3, mat_ptr: Option<Material>) -> (r: HitRecord)
        ensures
            r == (HitRecord { t, p, normal, mat_ptr }),
    {
        HitRecord { t, p, normal, mat_ptr }
    }
}

/// A sphere with its centre, radius and material.
#[derive(Clone, Copy, Debug)]
pub struct Sphere {
    pub centre: Vec3,
    pub radius: i64,
    pub mat_ptr: Material,
}

impl Sphere {
    /// The sphere with the given centre, radius and material.
    pub fn new(centre: Vec3, radius: i64, mat_ptr: Material) -> (r: Sphere)
        ensures
            r == (Sphere { centre, radius, mat_ptr }),
    {
        Sphere { centre, radius, mat_ptr }
    }

    /// The sphere's material.
    pub fn mat_ptr(self) -> (r: Option<Material>)
        ensures
            r == Some(self.mat_ptr),
    {
        Some(self.mat_ptr)
    }
}

/// The record a sphere fills in for a hit at parameter `t`: the hit point
/// and the outward normal, the offset from the centre divided by the radius.
pub open spec fn sphere_record(s: Sphere, r: Ray, t: int) -> HitRecord {
    let p = ray_at(r, t);
    HitRecord {
        t: t as i64,
        p: p,
        normal: vdiv_s(vsub(p, s.centre), s.radius as int),
        mat_ptr: Some(s.mat_ptr),
    }
}

/// Sphere intersection: solve `a t^2 + 2 b t + c = 0` for the offset
/// `oc = origin - centre`, and accept the first root in ascending order that
/// lies strictly inside `(t_min, t_max)`.
pub open spec fn sphere_hit(s: Sphere, r: Ray, t_min: int, t_max: int) -> Option<HitRecord> {
    let oc = vsub(r.origin, s.centre);
    let a = vdot(r.direction, r.direction);
    let b = vdot(oc, r.direction);
    let c = fx_sub(vdot(oc, oc), fx_mul(s.radius as int, s.radius as int));
    let disc = fx_sub(fx_mul(b, b), fx_mul(a, c));
    if disc > 0 {
        let root = fx_sqrt(disc);
        let t1 = fx_div(fx_sub(fx_neg(b), root), a);
        if t_min < t1 && t1 < t_max {
            Some(sphere_record(s, r, t1))
        } else {
            let t2 = fx_div(fx_add(fx_neg(b), root), a);
            if t_min < t2 && t2 < t_max {
                Some(sphere_record(s, r, t2))
            } else {
                None
            }
        }
    } else {
        None
    }
}

impl Sphere {
    /// The nearest intersection of the ray with this sphere strictly inside
    /// `(t_min, t_max)`, if any.
    pub fn hit(&self, r: &Ray, t_min: i64, t_max: i64) -> (res: Option<HitRecord>)
        ensures
            res == sphere_hit(*self, *r, t_min as int, t_max as int),
    {
        let oc: Vec3 = r.origin().sub(self.centre);
        let a: i64 = Vec3::dot(r.direction(), r.direction());
        let b: i64 = Vec3::dot(oc, r.direction());
        let c: i64 = sub_fx(Vec3::dot(oc, oc), mul_fx(self.radius, self.radius));
        let discriminant: i64 = sub_fx(mul_fx(b, b), mul_fx(a, c));
        if discriminant > 0 {
            let root: i64 = sqrt_fx(discriminant);
            let temp: i64 = div_fx(sub_fx(neg_fx(b), root), a);
            if temp < t_max && temp > t_min {
                let p: Vec3 = r.point_at_parameter(temp);
                return Some(HitRecord::new(
                    temp,
                    p,
                    p.sub(self.centre).div_s(self.radius),
                    Some(self.mat_ptr),
                ));
            }
            let temp2: i64 = div_fx(add_fx(neg_fx(b), root), a);
            if temp2 < t_max && temp2 > t_min {
                let p: Vec3 = r.point_at_parameter(temp2);
                return Some(HitRecord::new(
                    temp2,
                    p,
                    p.sub(self.centre).div_s(self.radius),
                    Some(self.mat_ptr),
                ));
            }
        }
        None
    }
}

/// The nearest admissible hit among the spheres from index `i` on, scanning
/// left to right and shrinking the upper bound to the closest hit so far.
pub open spec fn world_hit_from(
    world: Seq<Sphere>,
    r: Ray,
    t_min: int,
    t_max: int,
    i: int,
) -> Option<HitRecord>
    decreases world.len() - i,
{
    if i < 0 || i >= world.len() {
        None
    } else {
        match sphere_hit(world[i], r, t_min, t_max) {
            Some(rec) => match world_hit_from(world, r, t_min, rec.t as int, i + 1) {
                Some(rec2) => Some(rec2),
                None => Some(rec),
            },
            None => world_hit_from(world, r, t_min, t_max, i + 1),
        }
    }
}

/// The nearest admissible hit among all the spheres.
pub open spec fn world_hit(world: Seq<Sphere>, r: Ray, t_min: int, t_max: int) -> Option<
    HitRecord,
> {
    world_hit_from(world, r, t_min, t_max, 0)
}

/// The nearest intersection of the ray with any sphere of the collection,
/// strictly inside `(t_min, t_max)`; ties go to the earlier sphere.
pub fn hit(world: &[Sphere], r: &Ray, t_min: i64, t_max: i64) -> (res: Option<HitRecord>)
    ensures
        res == world_hit(world@, *r, t_min as int, t_max as int),
{
    let mut rec: Option<HitRecord> = None;
    let mut closest_so_far: i64 = t_max;
    let n: usize = world.len();
    let mut idx: usize = 0;
    while idx < n
        invariant
            idx <= n,
            n == world@.len(),
            match rec {
                Some(rc) => closest_so_far == rc.t,
                None => closest_so_far == t_max,
            },
            world_hit(world@, *r, t_min as int, t_max as int) == (match world_hit_from(
                world@,
                *r,
                t_min as int,
                closest_so_far as int,
                idx as int,
            ) {
                Some(rc2) => Some(rc2),
                None => rec,
            }),
        decreases n - idx,
    {
        let sphere: Sphere = world[idx];
        let this_hit: Option<HitRecord> = sphere.hit(r, t_min, closest_so_far);
        match this_hit {
            Some(temp) => {
                closest_so_far = temp.t;
                rec = Some(temp);
            },
            None => {},
        }
        idx = idx + 1;
    }
    rec
}

/// Shrinking the admissible interval keeps a hit exactly when it was already
/// closer than the new bound: the root a sphere reports does not change, it
/// is only kept or discarded.
pub proof fn lemma_sphere_hit_shrink(s: Sphere, r: Ray, t_min: int, tm1: int, tm2: int)
    requires
        tm2 <= tm1,
    ensures
        sphere_hit(s, r, t_min, tm2) == (match sphere_hit(s, r, t_min, tm1) {
            Some(rec) => if rec.t < tm2 {
                Some(rec)
            } else {
                None::<HitRecord>
            },
            None => None::<HitRecord>,
        }),
{
    let oc = vsub(r.origin, s.centre);
    let a = vdot(r.direction, r.direction);
    let b = vdot(oc, r.direction);
    let c = fx_sub(vdot(oc, oc), fx_mul(s.radius as int, s.radius as int));
    let disc = fx_sub(fx_mul(b, b), fx_mul(a, c));
    if disc > 0 {
        let root = fx_sqrt(disc);
        lemma_fx_sqrt_nonneg(disc);
        lemma_vdot_self_nonneg(r.direction);
        let num1 = fx_sub(fx_neg(b), root);
        let num2 = fx_add(fx_neg(b), root);
        lemma_fx_div_monotone(num1, num2, a);
    }
}

/// Every reported hit carries the sphere's own data: the hit point is the
/// ray evaluated at the reported parameter, the normal is the offset of that
/// point from the centre divided by the radius (outward for a point on the
/// surface), and the material is the sphere's.
pub proof fn lemma_sphere_hit_record_shape(s: Sphere, r: Ray, t_min: int, t_max: int)
    ensures
        match sphere_hit(s, r, t_min, t_max) {
            Some(rec) => rec.p == ray_at(r, rec.t as int) && rec.normal == vdiv_s(
                vsub(rec.p, s.centre),
                s.radius as int,
            ) && rec.mat_ptr == Some(s.mat_ptr),
            None => true,
        },
{
}

/// A ray that misses a sphere entirely reports no hit, whatever the
/// admissible interval: on configurations aligned to the unit grid (every
/// coordinate and the radius a whole number of units, within a thousand or
/// so of the origin) the fixed-point quadratic is computed exactly, so when
/// the squared perpendicular offset of the line from the centre exceeds the
/// squared radius — stated below multiplied through by the direction's
/// squared length — the discriminant is negative and both roots are refused.
pub proof fn lemma_offset_beyond_radius_misses(
    ox: int,
    oy: int,
    oz: int,
    dx: int,
    dy: int,
    dz: int,
    cx: int,
    cy: int,
    cz: int,
    rr: int,
    m: Material,
    t_min: int,
    t_max: int,
)
    requires
        iabs(ox) <= 1024 && iabs(oy) <= 1024 && iabs(oz) <= 1024,
        iabs(dx) <= 1024 && iabs(dy) <= 1024 && iabs(dz) <= 1024,
        iabs(cx) <= 1024 && iabs(cy) <= 1024 && iabs(cz) <= 1024,
        0 < rr <= 1024,
        ({
            let bx = ox - cx;
            let by = oy - cy;
            let bz = oz - cz;
            (bx * bx + by * by + bz * bz - rr * rr) * (dx * dx + dy * dy + dz * dz) > (bx * dx + by
                * dy + bz * dz) * (bx * dx + by * dy + bz * dz)
        }),
    ensures
        sphere_hit(
            Sphere {
                centre: Vec3 { x: (cx * SCALE) as i64, y: (cy * SCALE) as i64, z: (cz * SCALE) as i64 },
                radius: (rr * SCALE) as i64,
                mat_ptr: m,
            },
            Ray {
                origin: Vec3 { x: (ox * SCALE) as i64, y: (oy * SCALE) as i64, z: (oz * SCALE) as i64 },
                direction: Vec3 { x: (dx * SCALE) as i64, y: (dy * SCALE) as i64, z: (dz * SCALE) as i64 },
            },
            t_min,
            t_max,
        ) is None,
{
    let bx = ox - cx;
    let by = oy - cy;
    let bz = oz - cz;
    crate::fixed::lemma_mul_bound(dx, dx, 1024, 1024);
    crate::fixed::lemma_mul_bound(dy, dy, 1024, 1024);
    crate::fixed::lemma_mul_bound(dz, dz, 1024, 1024);
    crate::fixed::lemma_mul_bound(bx, dx, 2048, 1024);
    crate::fixed::lemma_mul_bound(by, dy, 2048, 1024);
    crate::fixed::lemma_mul_bound(bz, dz, 2048, 1024);
    crate::fixed::lemma_mul_bound(bx, bx, 2048, 2048);
    crate::fixed::lemma_mul_bound(by, by, 2048, 2048);
    crate::fixed::lemma_mul_bound(bz, bz, 2048, 2048);
    crate::fixed::lemma_mul_bound(rr, rr, 1024, 1024);
    crate::fixed::lemma_fx_mul_grid(dx, dx);
    crate::fixed::lemma_fx_mul_grid(dy, dy);
    crate::fixed::lemma_fx_mul_grid(dz, dz);
    crate::fixed::lemma_fx_mul_grid(bx, dx);
    crate::fixed::lemma_fx_mul_grid(by, dy);
    crate::fixed::lemma_fx_mul_grid(bz, dz);
    crate::fixed::lemma_fx_mul_grid(bx, bx);
    crate::fixed::lemma_fx_mul_grid(by, by);
    crate::fixed::lemma_fx_mul_grid(bz, bz);
    crate::fixed::lemma_fx_mul_grid(rr, rr);
    let ar = dx * dx + dy * dy + dz * dz;
    let br = bx * dx + by * dy + bz * dz;
    let cr = bx * bx + by * by + bz * bz - rr * rr;
    assert(iabs(ar) <= 3145728 && iabs(br) <= 6291456 && iabs(cr) <= 13631488);
    crate::fixed::lemma_mul_bound(br, br, 6291456, 6291456);
    crate::fixed::lemma_mul_bound(ar, cr, 3145728, 13631488);
    crate::fixed::lemma_fx_mul_grid(br, br);
    crate::fixed::lemma_fx_mul_grid(ar, cr);
    assert((br * br - ar * cr) * SCALE < 0) by (nonlinear_arith)
        requires
            br * br < ar * cr,
    ;
}

/// A ray aimed directly at a sphere's centre from outside hits at the
/// distance to the centre less the radius: on configurations aligned to the
/// unit grid, with a unit direction along an axis and the centre a whole
/// number `m` of steps along it, the quadratic works out exactly and the
/// reported parameter is `m` less the radius, in fixed-point units.
#[verifier::rlimit(100)]
#[verifier::spinoff_prover]
pub proof fn lemma_aimed_at_centre_hits(
    ox: int,
    oy: int,
    oz: int,
    dx: int,
    dy: int,
    dz: int,
    m: int,
    rr: int,
    mat: Material,
    t_min: int,
    t_max: int,
)
    requires
        iabs(ox) <= 1024 && iabs(oy) <= 1024 && iabs(oz) <= 1024,
        iabs(dx) <= 1 && iabs(dy) <= 1 && iabs(dz) <= 1,
        dx * dx + dy * dy + dz * dz == 1,
        0 < rr < m <= 1024,
        t_min < (m - rr) * SCALE < t_max,
    ensures
        ({
            let sphere = Sphere {
                centre: Vec3 {
                    x: ((ox + m * dx) * SCALE) as i64,
                    y: ((oy + m * dy) * SCALE) as i64,
                    z: ((oz + m * dz) * SCALE) as i64,
                },
                radius: (rr * SCALE) as i64,
                mat_ptr: mat,
            };
            let ray = Ray {
                origin: Vec3 { x: (ox * SCALE) as i64, y: (oy * SCALE) as i64, z: (oz * SCALE) as i64 },
                direction: Vec3 { x: (dx * SCALE) as i64, y: (dy * SCALE) as i64, z: (dz * SCALE) as i64 },
            };
            match sphere_hit(sphere, ray, t_min, t_max) {
                Some(rec) => rec.t as int == (m - rr) * SCALE,
                None => false,
            }
        }),
{
    let bx = -(m * dx);
    let by = -(m * dy);
    let bz = -(m * dz);
    assert(iabs(bx) <= 1024 && iabs(by) <= 1024 && iabs(bz) <= 1024) by (nonlinear_arith)
        requires
            iabs(dx) <= 1 && iabs(dy) <= 1 && iabs(dz) <= 1,
            0 < m <= 1024,
            bx == -(m * dx) && by == -(m * dy) && bz == -(m * dz),
    ;
    crate::fixed::lemma_mul_bound(dx, dx, 1, 1);
    crate::fixed::lemma_mul_bound(dy, dy, 1, 1);
    crate::fixed::lemma_mul_bound(dz, dz, 1, 1);
    crate::fixed::lemma_mul_bound(bx, dx, 1024, 1);
    crate::fixed::lemma_mul_bound(by, dy, 1024, 1);
    crate::fixed::lemma_mul_bound(bz, dz, 1024, 1);
    crate::fixed::lemma_mul_bound(bx, bx, 1024, 1024);
    crate::fixed::lemma_mul_bound(by, by, 1024, 1024);
    crate::fixed::lemma_mul_bound(bz, bz, 1024, 1024);
    crate::fixed::lemma_mul_bound(rr, rr, 1024, 1024);
    crate::fixed::lemma_fx_mul_grid(dx, dx);
    crate::fixed::lemma_fx_mul_grid(dy, dy);
    crate::fixed::lemma_fx_mul_grid(dz, dz);
    crate::fixed::lemma_fx_mul_grid(bx, dx);
    crate::fixed::lemma_fx_mul_grid(by, dy);
    crate::fixed::lemma_fx_mul_grid(bz, dz);
    crate::fixed::lemma_fx_mul_grid(bx, bx);
    crate::fixed::lemma_fx_mul_grid(by, by);
    crate::fixed::lemma_fx_mul_grid(bz, bz);
    crate::fixed::lemma_fx_mul_grid(rr, rr);
    // The offset is -m times the direction, so the dot products collapse.
    assert(bx * dx + by * dy + bz * dz == -m && bx * bx + by * by + bz * bz == m * m)
        by (nonlinear_arith)
        requires
            bx == -(m * dx) && by == -(m * dy) && bz == -(m * dz),
            dx * dx + dy * dy + dz * dz == 1,
    ;
    // The quadratic's coefficients and discriminant, all exact.
    crate::fixed::lemma_mul_bound(m, m, 1024, 1024);
    crate::fixed::lemma_mul_bound(-m, -m, 1024, 1024);
    crate::fixed::lemma_fx_mul_grid(-m, -m);
    assert((-m) * (-m) == m * m) by (nonlinear_arith);
    assert(rr * rr >= 1 && m * m >= 1) by (nonlinear_arith)
        requires
            rr >= 1 && m >= 1,
    ;
    crate::fixed::lemma_fx_mul_grid(1, m * m - rr * rr);
    // The discriminant is the squared radius; its root is exact.
    let n = rr * rr * SCALE * SCALE;
    assert((rr * SCALE) * (rr * SCALE) == n) by (nonlinear_arith)
        requires
            n == rr * rr * SCALE * SCALE,
    ;
    assert((rr * SCALE + 1) * (rr * SCALE + 1) > n) by (nonlinear_arith)
        requires
            rr >= 0,
            n == (rr * SCALE) * (rr * SCALE),
    ;
    crate::fixed::lemma_sqrt_exists(n);
    crate::fixed::lemma_isqrt_unique(n, crate::fixed::sqrt_i(n), rr * SCALE);
    // The accepted root: the distance less the radius.
    crate::fixed::lemma_tdiv_exact_multiple((m - rr) * SCALE);
    assert((m * SCALE - rr * SCALE) == (m - rr) * SCALE) by (nonlinear_arith);
}

/// A reported hit parameter lies strictly inside the admissible interval.
pub proof fn lemma_sphere_hit_in_range(s: Sphere, r: Ray, t_min: int, t_max: int)
    ensures
        match sphere_hit(s, r, t_min, t_max) {
            Some(rec) => t_min < rec.t < t_max,
            None => true,
        },
{
}

/// The scan from index `i` returns a nearest admissible hit: a hit strictly
/// inside the interval that no sphere from `i` on beats, or nothing exactly
/// when no sphere from `i` on hits the interval at all.
#[verifier::rlimit(100)]
#[verifier::spinoff_prover]
pub proof fn lemma_world_hit_from_nearest(
    world: Seq<Sphere>,
    r: Ray,
    t_min: int,
    t_max: int,
    i: int,
)
    requires
        0 <= i,
    ensures
        match world_hit_from(world, r, t_min, t_max, i) {
            Some(rec) => t_min < rec.t < t_max && (forall|j: int|
                i <= j < world.len() ==> match #[trigger] sphere_hit(world[j], r, t_min, t_max) {
                    Some(h) => rec.t <= h.t,
                    None => true,
                }),
            None => forall|j: int|
                i <= j < world.len() ==> #[trigger] sphere_hit(world[j], r, t_min, t_max) is None,
        },
    decreases world.len() - i,
{
    if 0 <= i < world.len() {
        lemma_sphere_hit_in_range(world[i], r, t_min, t_max);
        match sphere_hit(world[i], r, t_min, t_max) {
            Some(rec) => {
                lemma_world_hit_from_nearest(world, r, t_min, rec.t as int, i + 1);
                match world_hit_from(world, r, t_min, rec.t as int, i + 1) {
                    Some(rec2) => {
                        assert(t_min < rec2.t < rec.t);
                        assert forall|j: int| i <= j < world.len() implies match #[trigger] sphere_hit(
                            world[j],
                            r,
                            t_min,
                            t_max,
                        ) {
                            Some(h) => rec2.t <= h.t,
                            None => true,
                        } by {
                            if j > i {
                                lemma_sphere_hit_shrink(world[j], r, t_min, t_max, rec.t as int);
                            }
                        }
                    },
                    None => {
                        assert forall|j: int| i <= j < world.len() implies match #[trigger] sphere_hit(
                            world[j],
                            r,
                            t_min,
                            t_max,
                        ) {
                            Some(h) => rec.t <= h.t,
                            None => true,
                        } by {
                            if j > i {
                                lemma_sphere_hit_shrink(world[j], r, t_min, t_max, rec.t as int);
                            }
                        }
                    },
                }
            },
            None => {
                lemma_world_hit_from_nearest(world, r, t_min, t_max, i + 1);
            },
        }
    }
}

/// The nearest-hit guarantee of the whole scan: what `hit` returns lies
/// strictly inside the admissible interval and is no farther than any
/// sphere's own hit; it is nothing exactly when every sphere misses.
pub proof fn lemma_world_hit_nearest(world: Seq<Sphere>, r: Ray, t_min: int, t_max: int)
    ensures
        match world_hit(world, r, t_min, t_max) {
            Some(rec) => t_min < rec.t < t_max && (forall|j: int|
                0 <= j < world.len() ==> match #[trigger] sphere_hit(world[j], r, t_min, t_max) {
                    Some(h) => rec.t <= h.t,
                    None => true,
                }),
            None => forall|j: int|
                0 <= j < world.len() ==> #[trigger] sphere_hit(world[j], r, t_min, t_max) is None,
        },
{
    lemma_world_hit_from_nearest(world, r, t_min, t_max, 0);
}

/// The closest admissible hit of two spheres does not depend on the order
/// they are listed in, as long as their hits are not an exact tie (a tie
/// goes to the sphere listed first): the scan returns the hit of smaller
/// parameter, or the only hit, or nothing.
#[verifier::rlimit(50)]
pub proof fn lemma_two_spheres_order_independent(
    s1: Sphere,
    s2: Sphere,
    r: Ray,
    t_min: int,
    t_max: int,
)
    requires
        match (sphere_hit(s1, r, t_min, t_max), sphere_hit(s2, r, t_min, t_max)) {
            (Some(a), Some(b)) => a.t != b.t,
            _ => true,
        },
    ensures
        world_hit(seq![s1, s2], r, t_min, t_max) == world_hit(seq![s2, s1], r, t_min, t_max),
        world_hit(seq![s1, s2], r, t_min, t_max) == (match (
            sphere_hit(s1, r, t_min, t_max),
            sphere_hit(s2, r, t_min, t_max),
        ) {
            (Some(a), Some(b)) => if a.t < b.t {
                Some(a)
            } else {
                Some(b)
            },
            (Some(a), None) => Some(a),
            (None, Some(b)) => Some(b),
            (None, None) => None::<HitRecord>,
        }),
{
    reveal_with_fuel(world_hit_from, 3);
    let w12 = seq![s1, s2];
    let w21 = seq![s2, s1];
    let h1 = sphere_hit(s1, r, t_min, t_max);
    let h2 = sphere_hit(s2, r, t_min, t_max);
    lemma_sphere_hit_in_range(s1, r, t_min, t_max);
    lemma_sphere_hit_in_range(s2, r, t_min, t_max);
    assert(w12.len() == 2 && w12[0] == s1 && w12[1] == s2);
    assert(w21.len() == 2 && w21[0] == s2 && w21[1] == s1);
    if let Some(a) = h1 {
        lemma_sphere_hit_shrink(s2, r, t_min, t_max, a.t as int);
        assert(world_hit_from(w12, r, t_min, a.t as int, 1) == (match h2 {
            Some(b) => if b.t < a.t {
                Some(b)
            } else {
                None::<HitRecord>
            },
            None => None::<HitRecord>,
        }));
    }
    if let Some(b) = h2 {
        lemma_sphere_hit_shrink(s1, r, t_min, t_max, b.t as int);
        assert(world_hit_from(w21, r, t_min, b.t as int, 1) == (match h1 {
            Some(a) => if a.t < b.t {
                Some(a)
            } else {
                None::<HitRecord>
            },
            None => None::<HitRecord>,
        }));
    }
}

} // verus!
