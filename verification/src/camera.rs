//! The camera: a world-space basis derived once from a pose, mapping
//! normalised image-plane coordinates to rays.
//!
//! The vertical field of view arrives in fixed-point degrees; its half-angle
//! tangent is computed from truncated Maclaurin series for sine and cosine
//! (four terms each), which are accurate to a few fixed-point units for the
//! half-angles a camera uses (well below a right angle).

use vstd::prelude::*;
use crate::fixed::{add_fx, div_fx, fx_add, fx_div, fx_mul, fx_sub, mul_fx, sub_fx, SCALE, TWO_FX};
use crate::ray::Ray;
use crate::vec3::{vadd, vcross, vscale, vsub, vunit, Vec3};

verus! {

/// The fixed-point value of pi.
pub const PI_FX: i64 = 205887;

/// The fixed-point value 180, one half turn in degrees.
pub const DEG_180: i64 = 11796480;

/// The sine series denominator 6 in fixed point.
pub const SIN_D3: i64 = 393216;

/// The sine series denominator 120 in fixed point.
pub const SIN_D5: i64 = 7864320;

/// The sine series denominator 5040 in fixed point.
pub const SIN_D7: i64 = 330301440;

/// The cosine series denominator 2 in fixed point.
pub const COS_D2: i64 = 131072;

/// The cosine series denominator 24 in fixed point.
pub const COS_D4: i64 = 1572864;

/// The cosine series denominator 720 in fixed point.
pub const COS_D6: i64 = 47185920;

/// The truncated sine series `x - x^3/6 + x^5/120 - x^7/5040`.
pub open spec fn sin_fx(x: int) -> int {
    let x2 = fx_mul(x, x);
    let x3 = fx_mul(x2, x);
    let x5 = fx_mul(x3, x2);
    let x7 = fx_mul(x5, x2);
    fx_sub(fx_add(fx_sub(x, fx_div(x3, SIN_D3 as int)), fx_div(x5, SIN_D5 as int)), fx_div(x7, SIN_D7 as int))
}

/// The truncated cosine series `1 - x^2/2 + x^4/24 - x^6/720`.
pub open spec fn cos_fx(x: int) -> int {
    let x2 = fx_mul(x, x);
    let x4 = fx_mul(x2, x2);
    let x6 = fx_mul(x4, x2);
    fx_sub(fx_add(fx_sub(SCALE as int, fx_div(x2, COS_D2 as int)), fx_div(x4, COS_D4 as int)), fx_div(x6, COS_D6 as int))
}

/// The tangent: the quotient of the truncated series.
pub open spec fn tan_fx(x: int) -> int {
    fx_div(sin_fx(x), cos_fx(x))
}

/// The truncated sine series, executable form.
pub fn sin_apx(x: i64) -> (r: i64)
    ensures
        r as int == sin_fx(x as int),
{
    let x2: i64 = mul_fx(x, x);
    let x3: i64 = mul_fx(x2, x);
    let x5: i64 = mul_fx(x3, x2);
    let x7: i64 = mul_fx(x5, x2);
    sub_fx(add_fx(sub_fx(x, div_fx(x3, SIN_D3)), div_fx(x5, SIN_D5)), div_fx(x7, SIN_D7))
}

/// The truncated cosine series, executable form.
pub fn cos_apx(x: i64) -> (r: i64)
    ensures
        r as int == cos_fx(x as int),
{
    let x2: i64 = mul_fx(x, x);
    let x4: i64 = mul_fx(x2, x2);
    let x6: i64 = mul_fx(x4, x2);
    sub_fx(add_fx(sub_fx(SCALE, div_fx(x2, COS_D2)), div_fx(x4, COS_D4)), div_fx(x6, COS_D6))
}

/// The tangent from the truncated series.
pub fn tan_apx(x: i64) -> (r: i64)
    ensures
        r as int == tan_fx(x as int),
{
    div_fx(sin_apx(x), cos_apx(x))
}

/// The camera basis derived from a pose.
#[derive(Clone, Copy, Debug, PartialEq, Eq, Structural)]
pub struct Camera {
    pub lower_left_corner: Vec3,
    pub horizontal: Vec3,
    pub vertical: Vec3,
    pub origin: Vec3,
}

/// The camera basis computed from eye position, look-at target, up vector,
/// vertical field of view in fixed-point degrees, and aspect ratio.
pub open spec fn camera_for(look_from: Vec3, look_at: Vec3, vup: Vec3, vfov: int, aspect: int) -> Camera {
    let theta = fx_div(fx_mul(vfov, PI_FX as int), DEG_180 as int);
    let half_height = tan_fx(fx_div(theta, TWO_FX as int));
    let half_width = fx_mul(aspect, half_height);
    let w = vunit(vsub(look_from, look_at));
    let u = vunit(vcross(vup, w));
    let v = vcross(w, u);
    Camera {
        lower_left_corner: vsub(
            vsub(vsub(look_from, vscale(u, half_width)), vscale(v, half_height)),
            w,
        ),
        horizontal: vscale(u, fx_mul(TWO_FX as int, half_width)),
        vertical: vscale(v, fx_mul(TWO_FX as int, half_height)),
        origin: look_from,
    }
}

/// The ray through fractional image-plane coordinates `(s, t)`.
pub open spec fn cam_ray(cam: Camera, s: int, t: int) -> Ray {
    Ray {
        origin: cam.origin,
        direction: vsub(
            vadd(vadd(cam.lower_left_corner, vscale(cam.horizontal, s)), vscale(cam.vertical, t)),
            cam.origin,
        ),
    }
}

impl Camera {
    /// The camera at `look_from` aimed at `look_at`, rolled so `vup` is up,
    /// with the given vertical field of view (fixed-point degrees) and
    /// aspect ratio.
    pub fn new(look_from: Vec3, look_at: Vec3, vup: Vec3, vfov: i64, aspect: i64) -> (r: Camera)
        ensures
            r == camera_for(look_from, look_at, vup, vfov as int, aspect as int),
    {
        let theta: i64 = div_fx(mul_fx(vfov, PI_FX), DEG_180);
        let half_height: i64 = tan_apx(div_fx(theta, TWO_FX));
        let half_width: i64 = mul_fx(aspect, half_height);

        let w: Vec3 = Vec3::unit_vector(look_from.sub(look_at));
        let u: Vec3 = Vec3::unit_vector(Vec3::cross(vup, w));
        let v: Vec3 = Vec3::cross(w, u);

        Camera {
            lower_left_corner: look_from.sub(u.mul_s(half_width)).sub(v.mul_s(half_height)).sub(w),
            horizontal: u.mul_s(mul_fx(TWO_FX, half_width)),
            vertical: v.mul_s(mul_fx(TWO_FX, half_height)),
            origin: look_from,
        }
    }

    /// The ray through fractional image-plane coordinates `(s, t)`, both
    /// fixed-point values in `[0, 1]`.
    pub fn get_ray(&self, s: i64, t: i64) -> (r: Ray)
        ensures
            r == cam_ray(*self, s as int, t as int),
    {
        Ray::new(
            self.origin,
            self.lower_left_corner.add(self.horizontal.mul_s(s)).add(self.vertical.mul_s(t)).sub(
                self.origin,
            ),
        )
    }
}

impl Default for Camera {
    /// The historical fixed camera: a 4x2 image plane one unit ahead of an
    /// eye at the origin.
    fn default() -> (r: Camera)
        ensures
            r == (Camera {
                lower_left_corner: Vec3 { x: -131072i64, y: -65536i64, z: -65536i64 },
                horizontal: Vec3 { x: 262144, y: 0, z: 0 },
                vertical: Vec3 { x: 0, y: 131072, z: 0 },
                origin: Vec3 { x: 0, y: 0, z: 0 },
            }),
    {
        Camera {
            lower_left_corner: Vec3 { x: -131072, y: -65536, z: -65536 },
            horizontal: Vec3 { x: 262144, y: 0, z: 0 },
            vertical: Vec3 { x: 0, y: 131072, z: 0 },
            origin: Vec3 { x: 0, y: 0, z: 0 },
        }
    }
}

} // verus!
