//! The material scattering model: a closed set of surface behaviours
//! (diffuse, fuzzy specular, refractive) dispatched by pattern match.
//!
//! Each scattering function consumes draws from the explicit random
//! generator and is specified exactly as a function of the generator state
//! it starts from, so the absorption conditions (a metal ray scattered below
//! the surface, a dielectric's reflect-or-refract choice) are pinned down by
//! contract. The laws of the model — a diffuse surface always scatters, a
//! metal scatters exactly when the perturbed reflection leaves the surface,
//! and the Schlick reflectance grows as the incidence cosine falls — are
//! proved at the end.

use vstd::prelude::*;
use crate::fixed::{
    add_fx, div_fx, fx_add, fx_div, fx_mul, fx_neg, fx_sqrt, fx_sub, mul_fx, neg_fx, sqrt_fx,
    sub_fx, FX_MAX, SCALE, TWO_FX,
};
use crate::hitable::HitRecord;
use crate::random_in_unit_sphere;
use crate::ray::Ray;
use crate::rius_spec;
use crate::rng::{next_state, unit_of, Rng};
use crate::vec3::{vadd, vdot, vlen, vneg, vscale, vsub, vunit, Vec3};

verus! {

/// A surface's scattering behaviour: diffuse with an albedo, metallic with
/// an albedo and a fuzz radius, or refractive with a refractive index.
#[derive(Clone, Copy, Debug, PartialEq, Eq, Structural)]
pub enum Material {
    Lambertian(Vec3),
    Metal(Vec3, i64),
    Dielectric(i64),
}

/// The mirror reflection of `v` about the surface normal `n`:
/// `v - 2 (v . n) n`.
pub open spec fn reflect_spec(v: Vec3, n: Vec3) -> Vec3 {
    vsub(v, vscale(n, fx_mul(TWO_FX as int, vdot(v, n))))
}

/// Snell refraction of `v` through a surface with outward normal `n` and
/// index ratio `ni_over_nt`: the refracted direction and whether refraction
/// is possible (a nonpositive discriminant is total internal reflection).
pub open spec fn refract_spec(v: Vec3, n: Vec3, ni_over_nt: int) -> (Vec3, bool) {
    let uv = vunit(v);
    let dt = vdot(uv, n);
    let disc = fx_sub(
        SCALE as int,
        fx_mul(fx_mul(ni_over_nt, ni_over_nt), fx_sub(SCALE as int, fx_mul(dt, dt))),
    );
    if disc > 0 {
        (vsub(vscale(vsub(uv, vscale(n, dt)), ni_over_nt), vscale(n, fx_sqrt(disc))), true)
    } else {
        (Vec3 { x: 0, y: 0, z: 0 }, false)
    }
}

/// The fifth power, by repeated fixed-point products.
pub open spec fn pow5_fx(x: int) -> int {
    fx_mul(fx_mul(fx_mul(fx_mul(x, x), x), x), x)
}

/// The Schlick approximation of the Fresnel reflectance:
/// `r0 + (1 - r0) (1 - cosine)^5` for `r0 = ((1 - ri) / (1 + ri))^2`.
pub open spec fn schlick_spec(cosine: int, ref_idx: int) -> int {
    let r0a = fx_div(fx_sub(SCALE as int, ref_idx), fx_add(SCALE as int, ref_idx));
    let r0 = fx_mul(r0a, r0a);
    fx_add(r0, fx_mul(fx_sub(SCALE as int, r0), pow5_fx(fx_sub(SCALE as int, cosine))))
}

/// Diffuse scattering: aim at a random point in the unit sphere around the
/// tip of the normal; always succeeds.
pub open spec fn scatter_lambertian_spec(albedo: Vec3, rec: HitRecord, s: u64) -> (
    Vec3,
    Ray,
    bool,
    u64,
) {
    let (rnd, s1) = rius_spec(s, crate::RIUS_TRIES as nat);
    let target = vadd(vadd(rec.p, rec.normal), rnd);
    (albedo, Ray { origin: rec.p, direction: vsub(target, rec.p) }, true, s1)
}

/// Metallic scattering: reflect the unit incoming direction and perturb it
/// by `fuzz` times a random point in the unit sphere; succeeds exactly when
/// the perturbed direction still points out of the surface.
pub open spec fn scatter_metal_spec(albedo: Vec3, fuzz: i64, r_in: Ray, rec: HitRecord, s: u64) -> (
    Vec3,
    Ray,
    bool,
    u64,
) {
    let reflected = reflect_spec(vunit(r_in.direction), rec.normal);
    let (rnd, s1) = rius_spec(s, crate::RIUS_TRIES as nat);
    let scattered = Ray { origin: rec.p, direction: vadd(reflected, vscale(rnd, fuzz as int)) };
    (albedo, scattered, vdot(scattered.direction, rec.normal) > 0, s1)
}

/// The outward-facing normal a dielectric refracts through: flipped when the
/// ray comes from inside the medium.
pub open spec fn dielectric_outward_normal(r_in: Ray, rec: HitRecord) -> Vec3 {
    if vdot(r_in.direction, rec.normal) > 0 {
        vneg(rec.normal)
    } else {
        rec.normal
    }
}

/// The index ratio a dielectric refracts with: the index itself when exiting
/// the medium, its reciprocal when entering.
pub open spec fn dielectric_ni_over_nt(ref_idx: int, r_in: Ray, rec: HitRecord) -> int {
    if vdot(r_in.direction, rec.normal) > 0 {
        ref_idx
    } else {
        fx_div(SCALE as int, ref_idx)
    }
}

/// The incidence cosine the Schlick reflectance is evaluated at.
pub open spec fn dielectric_cosine(ref_idx: int, r_in: Ray, rec: HitRecord) -> int {
    let ddn = vdot(r_in.direction, rec.normal);
    if ddn > 0 {
        fx_div(fx_mul(ref_idx, ddn), vlen(r_in.direction))
    } else {
        fx_div(fx_neg(ddn), vlen(r_in.direction))
    }
}

/// The probability of choosing reflection over refraction: the Schlick
/// reflectance where refraction is possible, certainty where total internal
/// reflection forces the mirror path.
pub open spec fn dielectric_reflect_prob(ref_idx: int, r_in: Ray, rec: HitRecord) -> int {
    let refr = refract_spec(
        r_in.direction,
        dielectric_outward_normal(r_in, rec),
        dielectric_ni_over_nt(ref_idx, r_in, rec),
    );
    if refr.1 {
        schlick_spec(dielectric_cosine(ref_idx, r_in, rec), ref_idx)
    } else {
        SCALE as int
    }
}

/// Dielectric scattering: decide entering versus exiting by the sign of the
/// incoming direction against the normal, attempt Snell refraction, and when
/// refraction is possible choose reflection with the Schlick probability by
/// one uniform draw; always succeeds.
pub open spec fn scatter_dielectric_spec(ref_idx: i64, r_in: Ray, rec: HitRecord, s: u64) -> (
    Vec3,
    Ray,
    bool,
    u64,
) {
    let attenuation = Vec3 { x: SCALE, y: SCALE, z: 0 };
    let reflected = reflect_spec(r_in.direction, rec.normal);
    let refr = refract_spec(
        r_in.direction,
        dielectric_outward_normal(r_in, rec),
        dielectric_ni_over_nt(ref_idx as int, r_in, rec),
    );
    let reflect_prob = dielectric_reflect_prob(ref_idx as int, r_in, rec);
    let s1 = next_state(s);
    let roll = unit_of(s1);
    let scattered = if roll < reflect_prob {
        Ray { origin: rec.p, direction: reflected }
    } else {
        Ray { origin: rec.p, direction: refr.0 }
    };
    (attenuation, scattered, true, s1)
}

/// Scattering dispatched over the material variants.
pub open spec fn scatter_spec(m: Material, r_in: Ray, rec: HitRecord, s: u64) -> (
    Vec3,
    Ray,
    bool,
    u64,
) {
    match m {
        Material::Lambertian(albedo) => scatter_lambertian_spec(albedo, rec, s),
        Material::Metal(albedo, fuzz) => scatter_metal_spec(albedo, fuzz, r_in, rec, s),
        Material::Dielectric(ri) => scatter_dielectric_spec(ri, r_in, rec, s),
    }
}

impl Material {
    /// Scatter the incoming ray at the hit: the attenuation colour, the
    /// scattered ray, and whether the surface scattered rather than
    /// absorbed. Consumes draws from the generator; the whole outcome is
    /// pinned down by `scatter_spec` as a function of the starting state.
    pub fn scatter(self, r_in: &Ray, rec: &HitRecord, rng: &mut Rng) -> (r: (Vec3, Ray, bool))
        ensures
            (r.0, r.1, r.2, final(rng).state) == scatter_spec(self, *r_in, *rec, old(rng).state),
    {
        match self {
            Material::Lambertian(albedo) => scatter_lambertian(albedo, r_in, rec, rng),
            Material::Metal(albedo, fuzz) => scatter_metal(albedo, fuzz, r_in, rec, rng),
            Material::Dielectric(ri) => scatter_dielectric(ri, r_in, rec, rng),
        }
    }
}

/// The mirror reflection of `v` about the normal `n`.
pub fn reflect(v: Vec3, n: Vec3) -> (r: Vec3)
    ensures
        r == reflect_spec(v, n),
{
    v.sub(n.mul_s(mul_fx(TWO_FX, Vec3::dot(v, n))))
}

/// Snell refraction; the flag reports whether refraction is possible.
pub fn refract(v: Vec3, n: Vec3, ni_over_nt: i64) -> (r: (Vec3, bool))
    ensures
        (r.0, r.1) == refract_spec(v, n, ni_over_nt as int),
{
    let uv: Vec3 = Vec3::unit_vector(v);
    let dt: i64 = Vec3::dot(uv, n);
    let discriminant: i64 = sub_fx(
        SCALE,
        mul_fx(mul_fx(ni_over_nt, ni_over_nt), sub_fx(SCALE, mul_fx(dt, dt))),
    );
    if discriminant > 0 {
        (uv.sub(n.mul_s(dt)).mul_s(ni_over_nt).sub(n.mul_s(sqrt_fx(discriminant))), true)
    } else {
        (Vec3::default(), false)
    }
}

/// The Schlick reflectance approximation.
pub fn schlick(cosine: i64, ref_idx: i64) -> (r: i64)
    ensures
        r as int == schlick_spec(cosine as int, ref_idx as int),
{
    let r0a: i64 = div_fx(sub_fx(SCALE, ref_idx), add_fx(SCALE, ref_idx));
    let r0: i64 = mul_fx(r0a, r0a);
    let p: i64 = sub_fx(SCALE, cosine);
    let p5: i64 = mul_fx(mul_fx(mul_fx(mul_fx(p, p), p), p), p);
    add_fx(r0, mul_fx(sub_fx(SCALE, r0), p5))
}

fn scatter_lambertian(albedo: Vec3, _r_in: &Ray, rec: &HitRecord, rng: &mut Rng) -> (r: (
    Vec3,
    Ray,
    bool,
))
    ensures
        (r.0, r.1, r.2, final(rng).state) == scatter_lambertian_spec(
            albedo,
            *rec,
            old(rng).state,
        ),
{
    let target: Vec3 = rec.p.add(rec.normal).add(random_in_unit_sphere(rng));
    (albedo, Ray::new(rec.p, target.sub(rec.p)), true)
}

fn scatter_metal(albedo: Vec3, fuzz: i64, r_in: &Ray, rec: &HitRecord, rng: &mut Rng) -> (r: (
    Vec3,
    Ray,
    bool,
))
    ensures
        (r.0, r.1, r.2, final(rng).state) == scatter_metal_spec(
            albedo,
            fuzz,
            *r_in,
            *rec,
            old(rng).state,
        ),
{
    let reflected: Vec3 = reflect(Vec3::unit_vector(r_in.direction()), rec.normal);
    let scattered: Ray = Ray::new(rec.p, reflected.add(random_in_unit_sphere(rng).mul_s(fuzz)));
    (albedo, scattered, Vec3::dot(scattered.direction(), rec.normal) > 0)
}

fn scatter_dielectric(ref_idx: i64, r_in: &Ray, rec: &HitRecord, rng: &mut Rng) -> (r: (
    Vec3,
    Ray,
    bool,
))
    ensures
        (r.0, r.1, r.2, final(rng).state) == scatter_dielectric_spec(
            ref_idx,
            *r_in,
            *rec,
            old(rng).state,
        ),
{
    let attenuation: Vec3 = Vec3::new(SCALE, SCALE, 0);
    let reflected: Vec3 = reflect(r_in.direction(), rec.normal);
    let direction_dot_normal: i64 = Vec3::dot(r_in.direction(), rec.normal);

    let outward_normal: Vec3 = if direction_dot_normal > 0 {
        rec.normal.neg()
    } else {
        rec.normal
    };
    let ni_over_nt: i64 = if direction_dot_normal > 0 {
        ref_idx
    } else {
        div_fx(SCALE, ref_idx)
    };
    let cosine: i64 = if direction_dot_normal > 0 {
        div_fx(mul_fx(ref_idx, direction_dot_normal), r_in.direction().length())
    } else {
        div_fx(neg_fx(direction_dot_normal), r_in.direction().length())
    };

    let refr: (Vec3, bool) = refract(r_in.direction(), outward_normal, ni_over_nt);

    let reflect_prob: i64 = if refr.1 {
        schlick(cosine, ref_idx)
    } else {
        SCALE
    };

    let roll: i64 = rng.next_unit();

    let scattered: Ray = if roll < reflect_prob {
        Ray::new(rec.p, reflected)
    } else {
        Ray::new(rec.p, refr.0)
    };

    (attenuation, scattered, true)
}

/// A diffuse surface always scatters.
pub proof fn lemma_lambertian_always_scatters(albedo: Vec3, r_in: Ray, rec: HitRecord, s: u64)
    ensures
        scatter_spec(Material::Lambertian(albedo), r_in, rec, s).2,
{
}

/// A metal scatters exactly when the fuzz-perturbed reflection still points
/// out of the surface; a grazing reflection pushed below the tangent plane
/// is absorbed.
pub proof fn lemma_metal_scatter_condition(
    albedo: Vec3,
    fuzz: i64,
    r_in: Ray,
    rec: HitRecord,
    s: u64,
)
    ensures
        ({
            let (att, scattered, ok, s1) = scatter_spec(Material::Metal(albedo, fuzz), r_in, rec, s);
            ok == (vdot(scattered.direction, rec.normal) > 0)
        }),
{
}

/// A dielectric always scatters, with the fixed attenuation (1, 1, 0).
pub proof fn lemma_dielectric_always_scatters(ref_idx: i64, r_in: Ray, rec: HitRecord, s: u64)
    ensures
        scatter_spec(Material::Dielectric(ref_idx), r_in, rec, s).2,
        scatter_spec(Material::Dielectric(ref_idx), r_in, rec, s).0 == (Vec3 {
            x: SCALE,
            y: SCALE,
            z: 0,
        }),
{
}

/// The Schlick reflectance of a unit-index medium at normal incidence is
/// zero: such a surface reflects nothing.
pub proof fn lemma_schlick_unit_index_normal_incidence()
    ensures
        schlick_spec(SCALE as int, SCALE as int) == 0,
{
    vstd::arithmetic::div_mod::lemma_div_basics(fx_add(SCALE as int, SCALE as int));
    vstd::arithmetic::div_mod::lemma_div_basics(SCALE as int);
    assert(fx_div(fx_sub(SCALE as int, SCALE as int), fx_add(SCALE as int, SCALE as int)) == 0);
    assert(fx_mul(0, 0) == 0);
    assert(pow5_fx(fx_sub(SCALE as int, SCALE as int)) == 0);
    assert(fx_mul(fx_sub(SCALE as int, 0), 0) == 0);
}

/// A unit-index medium refracts whenever the incidence cosine does not
/// round to zero: with no index contrast the Snell discriminant is the
/// squared cosine itself.
pub proof fn lemma_unit_index_refracts(v: Vec3, n: Vec3)
    requires
        fx_mul(vdot(vunit(v), n), vdot(vunit(v), n)) > 0,
    ensures
        refract_spec(v, n, SCALE as int).1,
{
    let dt = vdot(vunit(v), n);
    let dt2 = fx_mul(dt, dt);
    let inner = fx_sub(SCALE as int, dt2);
    crate::fixed::lemma_fx_mul_one(inner);
    assert(fx_mul(SCALE as int, SCALE as int) == SCALE as int) by {
        crate::fixed::lemma_fx_mul_one(SCALE as int);
    }
}

/// A dielectric whose reflect probability is zero never takes the mirror
/// path: the scattered ray is always the refracted one.
pub proof fn lemma_dielectric_never_reflects_when_prob_zero(
    ref_idx: i64,
    r_in: Ray,
    rec: HitRecord,
    s: u64,
)
    requires
        dielectric_reflect_prob(ref_idx as int, r_in, rec) == 0,
    ensures
        ({
            let (att, scattered, ok, s1) = scatter_spec(Material::Dielectric(ref_idx), r_in, rec, s);
            scattered.direction == refract_spec(
                r_in.direction,
                dielectric_outward_normal(r_in, rec),
                dielectric_ni_over_nt(ref_idx as int, r_in, rec),
            ).0
        }),
{
}

/// The Schlick reflectance grows as the incidence cosine falls: grazing
/// rays reflect more than head-on rays.
pub proof fn lemma_schlick_monotone(c1: int, c2: int, ri: int)
    requires
        0 <= c1 <= c2 <= SCALE,
        0 <= ri <= FX_MAX,
    ensures
        schlick_spec(c2, ri) <= schlick_spec(c1, ri),
{
    let num = fx_sub(SCALE as int, ri);
    let den = fx_add(SCALE as int, ri);
    let r0a = fx_div(num, den);
    crate::fixed::lemma_fx_div_bounded(num, den);
    let r0 = fx_mul(r0a, r0a);
    crate::fixed::lemma_fx_mul_self_le_one(r0a);
    let p1 = fx_sub(SCALE as int, c1);
    let p2 = fx_sub(SCALE as int, c2);
    assert(0 <= p2 <= p1 <= SCALE);
    let q1a = fx_mul(p1, p1);
    let q2a = fx_mul(p2, p2);
    crate::fixed::lemma_fx_mul_monotone_nonneg(p2, p2, p1, p1);
    let q1b = fx_mul(q1a, p1);
    let q2b = fx_mul(q2a, p2);
    crate::fixed::lemma_fx_mul_monotone_nonneg(q2a, p2, q1a, p1);
    let q1c = fx_mul(q1b, p1);
    let q2c = fx_mul(q2b, p2);
    crate::fixed::lemma_fx_mul_monotone_nonneg(q2b, p2, q1b, p1);
    let q1 = fx_mul(q1c, p1);
    let q2 = fx_mul(q2c, p2);
    crate::fixed::lemma_fx_mul_monotone_nonneg(q2c, p2, q1c, p1);
    crate::fixed::lemma_fx_mul_monotone_nonneg(fx_sub(SCALE as int, r0), q2, fx_sub(SCALE as int, r0), q1);
}

} // verus!
