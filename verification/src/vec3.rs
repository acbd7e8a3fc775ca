//! The 3-D vector kernel over fixed-point scalars.
//!
//! Every executable operation mirrors a spec-level function (`vadd`, `vdot`,
//! `vcross`, ...) exactly, so geometric code downstream reasons about vector
//! arithmetic to the last fixed-point unit. The algebraic laws of the kernel
//! (symmetry of the dot product, antisymmetry of the cross product) are
//! proved below.

use vstd::prelude::*;
use crate::fixed::{
    add_fx, div_fx, fx_add, fx_div, fx_mul, fx_neg, fx_sqrt, fx_sub, iabs,
    lemma_fx_mul_self_nonneg, mul_fx, neg_fx, sqrt_fx, sub_fx, FX_MAX, SCALE,
};

verus! {

/// A vector of three fixed-point components.
#[derive(Clone, Copy, Debug, PartialEq, Eq, Structural)]
pub struct Vec3 {
    pub x: i64,
    pub y: i64,
    pub z: i64,
}

/// Component-wise saturating sum.
pub open spec fn vadd(a: Vec3, b: Vec3) -> Vec3 {
    Vec3 {
        x: fx_add(a.x as int, b.x as int) as i64,
        y: fx_add(a.y as int, b.y as int) as i64,
        z: fx_add(a.z as int, b.z as int) as i64,
    }
}

/// Component-wise saturating difference.
pub open spec fn vsub(a: Vec3, b: Vec3) -> Vec3 {
    Vec3 {
        x: fx_sub(a.x as int, b.x as int) as i64,
        y: fx_sub(a.y as int, b.y as int) as i64,
        z: fx_sub(a.z as int, b.z as int) as i64,
    }
}

/// Component-wise saturating negation.
pub open spec fn vneg(a: Vec3) -> Vec3 {
    Vec3 { x: fx_neg(a.x as int) as i64, y: fx_neg(a.y as int) as i64, z: fx_neg(a.z as int) as i64 }
}

/// Component-wise saturating product.
pub open spec fn vmul(a: Vec3, b: Vec3) -> Vec3 {
    Vec3 {
        x: fx_mul(a.x as int, b.x as int) as i64,
        y: fx_mul(a.y as int, b.y as int) as i64,
        z: fx_mul(a.z as int, b.z as int) as i64,
    }
}

/// Component-wise saturating quotient.
pub open spec fn vdiv(a: Vec3, b: Vec3) -> Vec3 {
    Vec3 {
        x: fx_div(a.x as int, b.x as int) as i64,
        y: fx_div(a.y as int, b.y as int) as i64,
        z: fx_div(a.z as int, b.z as int) as i64,
    }
}

/// Every component scaled by the fixed-point factor `k`.
pub open spec fn vscale(a: Vec3, k: int) -> Vec3 {
    Vec3 { x: fx_mul(a.x as int, k) as i64, y: fx_mul(a.y as int, k) as i64, z: fx_mul(
        a.z as int,
        k,
    ) as i64 }
}

/// Every component divided by the fixed-point scalar `k`.
pub open spec fn vdiv_s(a: Vec3, k: int) -> Vec3 {
    Vec3 { x: fx_div(a.x as int, k) as i64, y: fx_div(a.y as int, k) as i64, z: fx_div(
        a.z as int,
        k,
    ) as i64 }
}

/// The dot product, summed left to right.
pub open spec fn vdot(a: Vec3, b: Vec3) -> int {
    fx_add(
        fx_add(fx_mul(a.x as int, b.x as int), fx_mul(a.y as int, b.y as int)),
        fx_mul(a.z as int, b.z as int),
    )
}

/// The right-handed cross product.
pub open spec fn vcross(a: Vec3, b: Vec3) -> Vec3 {
    Vec3 {
        x: fx_sub(fx_mul(a.y as int, b.z as int), fx_mul(a.z as int, b.y as int)) as i64,
        y: fx_neg(fx_sub(fx_mul(a.x as int, b.z as int), fx_mul(a.z as int, b.x as int))) as i64,
        z: fx_sub(fx_mul(a.x as int, b.y as int), fx_mul(a.y as int, b.x as int)) as i64,
    }
}

/// The squared length: the dot product of a vector with itself.
pub open spec fn sqlen(a: Vec3) -> int {
    vdot(a, a)
}

/// The length: the fixed-point square root of the squared length.
pub open spec fn vlen(a: Vec3) -> int {
    fx_sqrt(sqlen(a))
}

/// The unit vector: each component divided by the length. For the zero
/// vector the length is zero and division saturates; as in the
/// floating-point model, normalising zero is documented, not guarded.
pub open spec fn vunit(a: Vec3) -> Vec3 {
    vdiv_s(a, vlen(a))
}

/// The in-place normalisation: scaling by the reciprocal of the length,
/// which rounds differently from `vunit`'s division.
pub open spec fn vunit_inplace(a: Vec3) -> Vec3 {
    vscale(a, fx_div(SCALE as int, vlen(a)))
}

impl Vec3 {
    /// The first component.
    pub fn x(&self) -> (r: i64)
        ensures
            r == self.x,
    {
        self.x
    }

    /// The second component.
    pub fn y(&self) -> (r: i64)
        ensures
            r == self.y,
    {
        self.y
    }

    /// The third component.
    pub fn z(&self) -> (r: i64)
        ensures
            r == self.z,
    {
        self.z
    }

    /// The vector with the given fixed-point components.
    pub fn new(x: i64, y: i64, z: i64) -> (r: Vec3)
        ensures
            r == (Vec3 { x, y, z }),
    {
        Vec3 { x, y, z }
    }

    /// Component-wise saturating sum.
    pub fn add(self, other: Vec3) -> (r: Vec3)
        ensures
            r == vadd(self, other),
    {
        Vec3 {
            x: add_fx(self.x, other.x),
            y: add_fx(self.y, other.y),
            z: add_fx(self.z, other.z),
        }
    }

    /// Component-wise saturating difference.
    pub fn sub(self, other: Vec3) -> (r: Vec3)
        ensures
            r == vsub(self, other),
    {
        Vec3 {
            x: sub_fx(self.x, other.x),
            y: sub_fx(self.y, other.y),
            z: sub_fx(self.z, other.z),
        }
    }

    /// Component-wise saturating negation.
    pub fn neg(self) -> (r: Vec3)
        ensures
            r == vneg(self),
    {
        Vec3 { x: neg_fx(self.x), y: neg_fx(self.y), z: neg_fx(self.z) }
    }

    /// Component-wise saturating product.
    pub fn mul(self, other: Vec3) -> (r: Vec3)
        ensures
            r == vmul(self, other),
    {
        Vec3 {
            x: mul_fx(self.x, other.x),
            y: mul_fx(self.y, other.y),
            z: mul_fx(self.z, other.z),
        }
    }

    /// Component-wise saturating quotient.
    pub fn div(self, other: Vec3) -> (r: Vec3)
        ensures
            r == vdiv(self, other),
    {
        Vec3 {
            x: div_fx(self.x, other.x),
            y: div_fx(self.y, other.y),
            z: div_fx(self.z, other.z),
        }
    }

    /// Every component scaled by the fixed-point factor `k`.
    pub fn mul_s(self, k: i64) -> (r: Vec3)
        ensures
            r == vscale(self, k as int),
    {
        Vec3 { x: mul_fx(self.x, k), y: mul_fx(self.y, k), z: mul_fx(self.z, k) }
    }

    /// Every component divided by the fixed-point scalar `k`.
    pub fn div_s(self, k: i64) -> (r: Vec3)
        ensures
            r == vdiv_s(self, k as int),
    {
        Vec3 { x: div_fx(self.x, k), y: div_fx(self.y, k), z: div_fx(self.z, k) }
    }

    /// The squared length.
    pub fn squared_length(&self) -> (r: i64)
        ensures
            r as int == sqlen(*self),
    {
        add_fx(
            add_fx(mul_fx(self.x, self.x), mul_fx(self.y, self.y)),
            mul_fx(self.z, self.z),
        )
    }

    /// The length.
    pub fn length(&self) -> (r: i64)
        ensures
            r as int == vlen(*self),
    {
        sqrt_fx(self.squared_length())
    }

    /// Normalise in place by multiplying with the reciprocal of the length.
    pub fn make_unit_vector(&mut self)
        ensures
            *final(self) == vunit_inplace(*old(self)),
    {
        let k: i64 = div_fx(SCALE, self.length());
        self.x = mul_fx(self.x, k);
        self.y = mul_fx(self.y, k);
        self.z = mul_fx(self.z, k);
    }

    /// The unit vector pointing the same way as `v`.
    pub fn unit_vector(v: Vec3) -> (r: Vec3)
        ensures
            r == vunit(v),
    {
        let len: i64 = v.length();
        v.div_s(len)
    }

    /// The dot product.
    pub fn dot(lhs: Vec3, rhs: Vec3) -> (r: i64)
        ensures
            r as int == vdot(lhs, rhs),
    {
        add_fx(
            add_fx(mul_fx(lhs.x, rhs.x), mul_fx(lhs.y, rhs.y)),
            mul_fx(lhs.z, rhs.z),
        )
    }

    /// The right-handed cross product.
    pub fn cross(lhs: Vec3, rhs: Vec3) -> (r: Vec3)
        ensures
            r == vcross(lhs, rhs),
    {
        Vec3 {
            x: sub_fx(mul_fx(lhs.y, rhs.z), mul_fx(lhs.z, rhs.y)),
            y: neg_fx(sub_fx(mul_fx(lhs.x, rhs.z), mul_fx(lhs.z, rhs.x))),
            z: sub_fx(mul_fx(lhs.x, rhs.y), mul_fx(lhs.y, rhs.x)),
        }
    }
}

impl Default for Vec3 {
    /// The zero vector.
    fn default() -> (r: Vec3)
        ensures
            r == (Vec3 { x: 0, y: 0, z: 0 }),
    {
        Vec3 { x: 0, y: 0, z: 0 }
    }
}

/// The fixed-point product does not depend on the order of its factors.
pub proof fn lemma_fx_mul_comm(a: int, b: int)
    ensures
        fx_mul(a, b) == fx_mul(b, a),
{
    assert(a * b == b * a) by (nonlinear_arith);
}

/// The dot product is symmetric in its arguments.
pub proof fn lemma_dot_symmetric(a: Vec3, b: Vec3)
    ensures
        vdot(a, b) == vdot(b, a),
{
    lemma_fx_mul_comm(a.x as int, b.x as int);
    lemma_fx_mul_comm(a.y as int, b.y as int);
    lemma_fx_mul_comm(a.z as int, b.z as int);
}

/// Swapping the arguments of the cross product negates it.
pub proof fn lemma_cross_antisymmetric(a: Vec3, b: Vec3)
    ensures
        vcross(a, b) == vneg(vcross(b, a)),
{
    lemma_fx_mul_comm(a.x as int, b.x as int);
    lemma_fx_mul_comm(a.x as int, b.y as int);
    lemma_fx_mul_comm(a.x as int, b.z as int);
    lemma_fx_mul_comm(a.y as int, b.x as int);
    lemma_fx_mul_comm(a.y as int, b.y as int);
    lemma_fx_mul_comm(a.y as int, b.z as int);
    lemma_fx_mul_comm(a.z as int, b.x as int);
    lemma_fx_mul_comm(a.z as int, b.y as int);
    lemma_fx_mul_comm(a.z as int, b.z as int);
}

/// The cross product of a vector with itself is the zero vector.
pub proof fn lemma_cross_self_zero(a: Vec3)
    ensures
        vcross(a, a) == (Vec3 { x: 0, y: 0, z: 0 }),
{
    lemma_fx_mul_comm(a.x as int, a.y as int);
    lemma_fx_mul_comm(a.x as int, a.z as int);
    lemma_fx_mul_comm(a.y as int, a.z as int);
}

/// One normalised component: `fx_div(x, L)` is `±((|x| * SCALE) / L)`, with
/// the floor-division bracketing and magnitude bound the length proof needs.
proof fn lemma_unit_component(x: int, len: int) -> (q: int)
    requires
        65536 <= len < 0x8000_0000,
        iabs(x) <= len + 2,
    ensures
        q == iabs(x) * 65536 / len,
        fx_div(x, len) == (if x >= 0 {
            q
        } else {
            -q
        }),
        len * q <= iabs(x) * 65536 < len * (q + 1),
        0 <= q <= 65538,
        fx_mul(fx_div(x, len), fx_div(x, len)) == (q * q) / 65536,
        0 <= (q * q) / 65536 <= 65545,
{
    let ax = iabs(x);
    let q = ax * 65536 / len;
    crate::fixed::lemma_div_floor_bounds(ax * 65536, len);
    assert((len + 2) * 65536 == len * 65536 + 131072) by (nonlinear_arith);
    vstd::arithmetic::mul::lemma_mul_inequality(ax, len + 2, 65536);
    assert(len * (65536 + 3) == len * 65536 + 3 * len) by (nonlinear_arith);
    assert(q < 65536 + 3) by (nonlinear_arith)
        requires
            len * q <= ax * 65536,
            ax * 65536 < len * (65536 + 3),
            len > 0,
    ;
    assert(iabs(x * 65536) == ax * 65536);
    assert(x * 65536 >= 0 <==> x >= 0);
    assert(fx_div(x, len) == (if x >= 0 {
        q
    } else {
        -q
    }));
    let u = fx_div(x, len);
    assert(u * u == q * q) by (nonlinear_arith)
        requires
            u == q || u == -q,
    ;
    lemma_fx_mul_self_nonneg(u);
    crate::fixed::lemma_sq_monotone(q, 65538);
    crate::fixed::lemma_div_floor_bounds(q * q, 65536);
    vstd::arithmetic::div_mod::lemma_div_is_ordered(q * q, 65538int * 65538int, 65536);
    q
}

/// The length of the unit vector of `v` is one, to within sixteen
/// fixed-point units (about 2.5 parts in ten thousand): normalising any
/// vector of length at least one whose components stay clear of the
/// saturation range yields a vector of squared length one, up to rounding.
pub proof fn lemma_unit_vector_length(v: Vec3)
    requires
        iabs(v.x as int) <= 0x4000_0000,
        iabs(v.y as int) <= 0x4000_0000,
        iabs(v.z as int) <= 0x4000_0000,
        SCALE <= sqlen(v),
    ensures
        SCALE - 16 <= sqlen(vunit(v)) <= SCALE + 16,
{
    let x = v.x as int;
    let y = v.y as int;
    let z = v.z as int;
    crate::fixed::lemma_sq_monotone(iabs(x), 0x4000_0000);
    crate::fixed::lemma_sq_monotone(iabs(y), 0x4000_0000);
    crate::fixed::lemma_sq_monotone(iabs(z), 0x4000_0000);
    assert(x * x == iabs(x) * iabs(x) && y * y == iabs(y) * iabs(y) && z * z == iabs(z) * iabs(
        z,
    )) by (nonlinear_arith);
    assert(x * x >= 0 && y * y >= 0 && z * z >= 0) by (nonlinear_arith);
    crate::fixed::lemma_div_floor_bounds(x * x, 65536);
    crate::fixed::lemma_div_floor_bounds(y * y, 65536);
    crate::fixed::lemma_div_floor_bounds(z * z, 65536);
    let tx = (x * x) / 65536;
    let ty = (y * y) / 65536;
    let tz = (z * z) / 65536;
    let qq = sqlen(v);
    assert(qq == tx + ty + tz);
    let tt = x * x + y * y + z * z;
    assert(65536 * qq <= tt < 65536 * qq + 3 * 65536) by {
        vstd::arithmetic::mul::lemma_mul_is_distributive_add(65536, tx, ty);
        vstd::arithmetic::mul::lemma_mul_is_distributive_add(65536, tx + ty, tz);
    }

    // The length and its square-root bracketing.
    crate::fixed::lemma_sqrt_exists(qq * 65536);
    let len = vlen(v);
    assert(len * len <= qq * 65536 < (len + 1) * (len + 1));
    assert(qq * 65536 == 65536 * qq) by (nonlinear_arith);
    assert(len >= 65536) by {
        if len < 65536 {
            crate::fixed::lemma_sq_monotone(len + 1, 65536);
            assert(65536 * qq >= 65536 * 65536) by (nonlinear_arith)
                requires
                    qq >= 65536,
            ;
            assert(false);
        }
    }
    assert(len < 0x8000_0000) by {
        assert(tx <= 0x1000_0000_0000 && ty <= 0x1000_0000_0000 && tz <= 0x1000_0000_0000);
        if len >= 0x8000_0000 {
            crate::fixed::lemma_sq_monotone(0x8000_0000, len);
            assert(false);
        }
    }

    // Each component is within two units of the length.
    assert(iabs(x) <= len + 2 && iabs(y) <= len + 2 && iabs(z) <= len + 2) by {
        assert((len + 3) * (len + 3) == (len + 1) * (len + 1) + 4 * len + 8) by (nonlinear_arith);
        if iabs(x) >= len + 3 {
            crate::fixed::lemma_sq_monotone(len + 3, iabs(x));
            assert(false);
        }
        if iabs(y) >= len + 3 {
            crate::fixed::lemma_sq_monotone(len + 3, iabs(y));
            assert(false);
        }
        if iabs(z) >= len + 3 {
            crate::fixed::lemma_sq_monotone(len + 3, iabs(z));
            assert(false);
        }
    }

    let qx = lemma_unit_component(x, len);
    let qy = lemma_unit_component(y, len);
    let qz = lemma_unit_component(z, len);
    let dd = sqlen(vunit(v));
    assert(dd == (qx * qx) / 65536 + (qy * qy) / 65536 + (qz * qz) / 65536);
    crate::fixed::lemma_div_floor_bounds(qx * qx, 65536);
    crate::fixed::lemma_div_floor_bounds(qy * qy, 65536);
    crate::fixed::lemma_div_floor_bounds(qz * qz, 65536);
    let ss = qx * qx + qy * qy + qz * qz;
    assert(65536 * dd <= ss < 65536 * dd + 3 * 65536) by {
        vstd::arithmetic::mul::lemma_mul_is_distributive_add(65536, (qx * qx) / 65536, (qy * qy)
            / 65536);
        vstd::arithmetic::mul::lemma_mul_is_distributive_add(
            65536,
            (qx * qx) / 65536 + (qy * qy) / 65536,
            (qz * qz) / 65536,
        );
    }

    let ax = iabs(x);
    let ay = iabs(y);
    let az = iabs(z);
    let kk = len * len;
    let cc = 65536int * 65536;
    assert(kk > 0) by (nonlinear_arith)
        requires
            len >= 1,
            kk == len * len,
    ;
    assert(tt == ax * ax + ay * ay + az * az);

    // Per-component: the squared normalised component against the squared
    // exact ratio, both ways.
    assert(0 <= len * qx && 0 <= len * qy && 0 <= len * qz) by (nonlinear_arith)
        requires
            len > 0 && qx >= 0 && qy >= 0 && qz >= 0,
    ;
    crate::fixed::lemma_sq_monotone(len * qx, ax * 65536);
    crate::fixed::lemma_sq_monotone(len * qy, ay * 65536);
    crate::fixed::lemma_sq_monotone(len * qz, az * 65536);
    assert((len * qx) * (len * qx) == (qx * qx) * kk) by (nonlinear_arith)
        requires
            kk == len * len,
    ;
    assert((len * qy) * (len * qy) == (qy * qy) * kk) by (nonlinear_arith)
        requires
            kk == len * len,
    ;
    assert((len * qz) * (len * qz) == (qz * qz) * kk) by (nonlinear_arith)
        requires
            kk == len * len,
    ;
    assert((ax * 65536) * (ax * 65536) == (ax * ax) * cc) by (nonlinear_arith)
        requires
            cc == 65536int * 65536,
    ;
    assert((ay * 65536) * (ay * 65536) == (ay * ay) * cc) by (nonlinear_arith)
        requires
            cc == 65536int * 65536,
    ;
    assert((az * 65536) * (az * 65536) == (az * az) * cc) by (nonlinear_arith)
        requires
            cc == 65536int * 65536,
    ;
    crate::fixed::lemma_sq_monotone(ax * 65536, len * (qx + 1));
    crate::fixed::lemma_sq_monotone(ay * 65536, len * (qy + 1));
    crate::fixed::lemma_sq_monotone(az * 65536, len * (qz + 1));
    assert((len * (qx + 1)) * (len * (qx + 1)) == ((qx + 1) * (qx + 1)) * kk) by (nonlinear_arith)
        requires
            kk == len * len,
    ;
    assert((len * (qy + 1)) * (len * (qy + 1)) == ((qy + 1) * (qy + 1)) * kk) by (nonlinear_arith)
        requires
            kk == len * len,
    ;
    assert((len * (qz + 1)) * (len * (qz + 1)) == ((qz + 1) * (qz + 1)) * kk) by (nonlinear_arith)
        requires
            kk == len * len,
    ;

    // Sum the three components on each side.
    vstd::arithmetic::mul::lemma_mul_is_distributive_add_other_way(kk, qx * qx, qy * qy);
    vstd::arithmetic::mul::lemma_mul_is_distributive_add_other_way(kk, qx * qx + qy * qy, qz * qz);
    vstd::arithmetic::mul::lemma_mul_is_distributive_add_other_way(cc, ax * ax, ay * ay);
    vstd::arithmetic::mul::lemma_mul_is_distributive_add_other_way(cc, ax * ax + ay * ay, az * az);
    assert(ss * kk <= tt * cc);
    let ssp = (qx + 1) * (qx + 1) + (qy + 1) * (qy + 1) + (qz + 1) * (qz + 1);
    vstd::arithmetic::mul::lemma_mul_is_distributive_add_other_way(
        kk,
        (qx + 1) * (qx + 1),
        (qy + 1) * (qy + 1),
    );
    vstd::arithmetic::mul::lemma_mul_is_distributive_add_other_way(
        kk,
        (qx + 1) * (qx + 1) + (qy + 1) * (qy + 1),
        (qz + 1) * (qz + 1),
    );
    assert(tt * cc <= ssp * kk);

    // Upper bound: the normalised squared length cannot exceed one by more
    // than sixteen units.
    assert(ss <= cc + 16 * 65536) by {
        if ss > cc + 16 * 65536 {
            vstd::arithmetic::mul::lemma_mul_inequality(cc + 16 * 65536 + 1, ss, kk);
            vstd::arithmetic::mul::lemma_mul_strict_inequality(
                tt,
                (len + 1) * (len + 1) + 3 * 65536,
                cc,
            );
            assert((cc + 16 * 65536 + 1) * kk > ((len + 1) * (len + 1) + 3 * 65536) * cc)
                by (nonlinear_arith)
                requires
                    len >= 65536,
                    kk == len * len,
                    cc == 65536int * 65536,
            ;
            assert(false);
        }
    }
    assert(dd <= 65536 + 16);

    // Lower bound: it cannot fall short of one by more than sixteen units.
    assert(ssp == ss + 2 * (qx + qy + qz) + 3) by (nonlinear_arith)
        requires
            ss == qx * qx + qy * qy + qz * qz,
            ssp == (qx + 1) * (qx + 1) + (qy + 1) * (qy + 1) + (qz + 1) * (qz + 1),
    ;
    vstd::arithmetic::mul::lemma_mul_inequality(kk, tt, cc);
    assert(ssp >= cc) by (nonlinear_arith)
        requires
            kk * cc <= ssp * kk,
            kk > 0,
    ;
    assert(ss >= cc - 2 * 3 * 65538 - 3);
    assert(65536 * dd >= ss - 3 * 65536);
    assert(65536 * dd >= 65536 * (65536 - 16));
    assert(dd >= 65536 - 16);
}

/// The dot product of a vector with itself is nonnegative.
pub proof fn lemma_vdot_self_nonneg(v: Vec3)
    ensures
        vdot(v, v) >= 0,
{
    lemma_fx_mul_self_nonneg(v.x as int);
    lemma_fx_mul_self_nonneg(v.y as int);
    lemma_fx_mul_self_nonneg(v.z as int);
}

} // verus!
