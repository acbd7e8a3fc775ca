//! The scalar kernel: signed fixed-point numbers counted in 1/65536 units.
//!
//! Every scalar the renderer works with is an `i64` holding `v * SCALE` for a
//! real value `v`. Operations saturate at `±FX_MAX` instead of overflowing,
//! which stands in for the IEEE infinities of a floating-point renderer, and
//! round quotients toward zero as hardware division does. Each executable
//! operation is specified exactly by a spec-level mirror (`fx_add`, `fx_mul`,
//! ...), so callers can reason about results to the last unit.

use vstd::prelude::*;

verus! {

/// Number of fixed-point steps per whole unit; `SCALE` is the scalar 1.0.
pub const SCALE: i64 = 65536;

/// Saturation bound of the representable range (2^62).
pub const FX_MAX: i64 = 0x4000_0000_0000_0000;

/// The fixed-point value 2.
pub const TWO_FX: i64 = 131072;

/// Magnitude of an integer.
pub open spec fn iabs(a: int) -> int {
    if a >= 0 {
        a
    } else {
        -a
    }
}

/// Clamp a mathematical integer into the representable fixed-point range.
pub open spec fn clip(x: int) -> int {
    if x > FX_MAX {
        FX_MAX as int
    } else if x < -(FX_MAX as int) {
        -(FX_MAX as int)
    } else {
        x
    }
}

/// Quotient of `a` by `b` rounded toward zero, as hardware division rounds.
pub open spec fn tdiv(a: int, b: int) -> int
    recommends
        b != 0,
{
    if (a >= 0) == (b >= 0) {
        iabs(a) / iabs(b)
    } else {
        -(iabs(a) / iabs(b))
    }
}

/// Saturating fixed-point sum.
pub open spec fn fx_add(a: int, b: int) -> int {
    clip(a + b)
}

/// Saturating fixed-point difference.
pub open spec fn fx_sub(a: int, b: int) -> int {
    clip(a - b)
}

/// Saturating fixed-point negation.
pub open spec fn fx_neg(a: int) -> int {
    clip(-a)
}

/// Saturating fixed-point product: the wide product rescaled by `SCALE`.
pub open spec fn fx_mul(a: int, b: int) -> int {
    clip(tdiv(a * b, SCALE as int))
}

/// Saturating fixed-point quotient. Division by zero saturates to the signed
/// bound (the stand-in for an IEEE infinity) rather than being guarded.
pub open spec fn fx_div(a: int, b: int) -> int {
    if b == 0 {
        if a > 0 {
            FX_MAX as int
        } else if a < 0 {
            -(FX_MAX as int)
        } else {
            0
        }
    } else {
        clip(tdiv(a * SCALE, b))
    }
}

/// `r` is the integer square root of `n`.
pub open spec fn is_isqrt(n: int, r: int) -> bool {
    0 <= r && r * r <= n && n < (r + 1) * (r + 1)
}

/// The integer square root of `n` (meaningful for `n >= 0`,
/// see `lemma_sqrt_exists`).
pub open spec fn sqrt_i(n: int) -> int {
    choose|r: int| is_isqrt(n, r)
}

/// Fixed-point square root: the integer square root of `a * SCALE`, so that
/// squaring the result in fixed point lands back near `a`. A negative
/// argument (a NaN in the floating-point original) is sent to zero.
pub open spec fn fx_sqrt(a: int) -> int {
    if a <= 0 {
        0
    } else {
        sqrt_i(a * SCALE)
    }
}

/// Every nonnegative integer has an integer square root, and `sqrt_i` is it.
pub proof fn lemma_sqrt_exists(n: int)
    requires
        n >= 0,
    ensures
        is_isqrt(n, sqrt_i(n)),
    decreases n,
{
    if n == 0 {
        assert(is_isqrt(0, 0));
    } else {
        lemma_sqrt_exists(n - 1);
        let r = sqrt_i(n - 1);
        if n < (r + 1) * (r + 1) {
            assert(is_isqrt(n, r));
        } else {
            assert(n == (r + 1) * (r + 1));
            assert((r + 2) * (r + 2) > (r + 1) * (r + 1)) by (nonlinear_arith)
                requires
                    r >= 0,
            ;
            assert(is_isqrt(n, r + 1));
        }
    }
    assert(exists|r: int| is_isqrt(n, r));
}

/// The integer square root is unique.
pub proof fn lemma_isqrt_unique(n: int, r1: int, r2: int)
    by (nonlinear_arith)
    requires
        0 <= r1,
        r1 * r1 <= n,
        n < (r1 + 1) * (r1 + 1),
        0 <= r2,
        r2 * r2 <= n,
        n < (r2 + 1) * (r2 + 1),
    ensures
        r1 == r2,
{
}

/// Squaring is monotone on nonnegative integers.
pub proof fn lemma_sq_monotone(x: int, y: int)
    by (nonlinear_arith)
    requires
        0 <= x <= y,
    ensures
        x * x <= y * y,
{
}

/// The product of two `i64` values stays within `2^126` in magnitude.
proof fn lemma_i64_product_bound(a: i64, b: i64)
    by (nonlinear_arith)
    ensures
        -0x4000_0000_0000_0000_0000_0000_0000_0000 <= (a as int) * (b as int)
            <= 0x4000_0000_0000_0000_0000_0000_0000_0000,
{
}

/// Clamp a wide intermediate back into the fixed-point range.
fn clip_i128(x: i128) -> (r: i64)
    ensures
        r as int == clip(x as int),
{
    if x > FX_MAX as i128 {
        FX_MAX
    } else if x < -(FX_MAX as i128) {
        -FX_MAX
    } else {
        x as i64
    }
}

/// Wide truncating division by a positive divisor.
fn tdiv_i128(a: i128, b: i128) -> (r: i128)
    requires
        b > 0,
        -0x4000_0000_0000_0000_0000_0000_0000_0000 <= a
            <= 0x4000_0000_0000_0000_0000_0000_0000_0000,
    ensures
        r as int == tdiv(a as int, b as int),
{
    if a >= 0 {
        let q: u128 = (a as u128) / (b as u128);
        q as i128
    } else {
        let q: u128 = ((-a) as u128) / (b as u128);
        -(q as i128)
    }
}

/// Saturating fixed-point sum.
pub fn add_fx(a: i64, b: i64) -> (r: i64)
    ensures
        r as int == fx_add(a as int, b as int),
{
    clip_i128(a as i128 + b as i128)
}

/// Saturating fixed-point difference.
pub fn sub_fx(a: i64, b: i64) -> (r: i64)
    ensures
        r as int == fx_sub(a as int, b as int),
{
    clip_i128(a as i128 - b as i128)
}

/// Saturating fixed-point negation.
pub fn neg_fx(a: i64) -> (r: i64)
    ensures
        r as int == fx_neg(a as int),
{
    clip_i128(-(a as i128))
}

/// Saturating fixed-point product.
pub fn mul_fx(a: i64, b: i64) -> (r: i64)
    ensures
        r as int == fx_mul(a as int, b as int),
{
    proof {
        lemma_i64_product_bound(a, b);
    }
    let wide: i128 = (a as i128) * (b as i128);
    clip_i128(tdiv_i128(wide, SCALE as i128))
}

/// Saturating fixed-point quotient; division by zero saturates.
pub fn div_fx(a: i64, b: i64) -> (r: i64)
    ensures
        r as int == fx_div(a as int, b as int),
{
    if b == 0 {
        if a > 0 {
            FX_MAX
        } else if a < 0 {
            -FX_MAX
        } else {
            0
        }
    } else {
        let num: i128 = (a as i128) * 65536;
        assert(num == (a as int) * (SCALE as int));
        if b > 0 {
            clip_i128(tdiv_i128(num, b as i128))
        } else {
            proof {
                lemma_tdiv_negate(num as int, b as int);
            }
            clip_i128(tdiv_i128(-num, -(b as i128)))
        }
    }
}

/// Truncating division is unchanged when both operands are negated.
proof fn lemma_tdiv_negate(a: int, b: int)
    requires
        b != 0,
    ensures
        tdiv(-a, -b) == tdiv(a, b),
{
}

/// Integer square root of a wide nonnegative value.
fn isqrt_u128(n: u128) -> (r: u64)
    requires
        n < 0x4000_0000_0000_0000_0000_0000_0000_0000,
    ensures
        is_isqrt(n as int, r as int),
        r as int == sqrt_i(n as int),
{
    let mut lo: u64 = 0;
    let mut hi: u64 = 0x8000_0000_0000_0000;
    assert((hi as int) * (hi as int) == 0x4000_0000_0000_0000_0000_0000_0000_0000);
    while lo + 1 < hi
        invariant
            lo < hi,
            hi <= 0x8000_0000_0000_0000,
            (lo as int) * (lo as int) <= n as int,
            (n as int) < (hi as int) * (hi as int),
        decreases hi - lo,
    {
        let mid: u64 = lo + (hi - lo) / 2;
        proof {
            lemma_sq_monotone(mid as int, 0x8000_0000_0000_0000);
        }
        let sq: u128 = (mid as u128) * (mid as u128);
        if sq <= n {
            lo = mid;
        } else {
            hi = mid;
        }
    }
    proof {
        lemma_sqrt_exists(n as int);
        lemma_isqrt_unique(n as int, lo as int, sqrt_i(n as int));
    }
    lo
}

/// Saturating fixed-point square root; a negative argument yields zero.
pub fn sqrt_fx(a: i64) -> (r: i64)
    ensures
        r as int == fx_sqrt(a as int),
{
    if a <= 0 {
        0
    } else {
        let n: u128 = (a as u128) * 65536;
        assert(n as int == (a as int) * (SCALE as int));
        let r: u64 = isqrt_u128(n);
        proof {
            if r as int >= 0x100_0000_0000 {
                lemma_sq_monotone(0x100_0000_0000, r as int);
                assert(false);
            }
        }
        r as i64
    }
}

/// Squares are nonnegative, also after fixed-point rescaling.
pub proof fn lemma_fx_mul_self_nonneg(x: int)
    ensures
        fx_mul(x, x) >= 0,
{
    assert(x * x >= 0) by (nonlinear_arith);
    vstd::arithmetic::div_mod::lemma_div_pos_is_pos(x * x, SCALE as int);
}

/// The fixed-point square root is nonnegative.
pub proof fn lemma_fx_sqrt_nonneg(a: int)
    ensures
        fx_sqrt(a) >= 0,
{
    if a > 0 {
        lemma_sqrt_exists(a * SCALE);
    }
}

/// Truncating division by a positive divisor is monotone in the numerator.
pub proof fn lemma_tdiv_monotone(x: int, y: int, d: int)
    requires
        x <= y,
        d > 0,
    ensures
        tdiv(x, d) <= tdiv(y, d),
{
    if x >= 0 {
        vstd::arithmetic::div_mod::lemma_div_is_ordered(x, y, d);
    } else if y >= 0 {
        vstd::arithmetic::div_mod::lemma_div_pos_is_pos(-x, d);
        vstd::arithmetic::div_mod::lemma_div_pos_is_pos(y, d);
    } else {
        vstd::arithmetic::div_mod::lemma_div_is_ordered(-y, -x, d);
    }
}

/// The saturating quotient is monotone in the numerator when the divisor is
/// nonnegative.
pub proof fn lemma_fx_div_monotone(a: int, b: int, d: int)
    requires
        a <= b,
        d >= 0,
    ensures
        fx_div(a, d) <= fx_div(b, d),
{
    if d > 0 {
        lemma_tdiv_monotone(a * SCALE, b * SCALE, d);
    }
}

/// The saturating product is monotone on nonnegative operands.
pub proof fn lemma_fx_mul_monotone_nonneg(a: int, b: int, a2: int, b2: int)
    requires
        0 <= a <= a2,
        0 <= b <= b2,
    ensures
        0 <= fx_mul(a, b) <= fx_mul(a2, b2),
{
    assert(0 <= a * b <= a2 * b2) by (nonlinear_arith)
        requires
            0 <= a <= a2,
            0 <= b <= b2,
    ;
    lemma_tdiv_monotone(a * b, a2 * b2, SCALE as int);
    vstd::arithmetic::div_mod::lemma_div_pos_is_pos(a * b, SCALE as int);
}

/// One is the unit of the saturating product on the representable range.
pub proof fn lemma_fx_mul_one(a: int)
    requires
        -(FX_MAX as int) <= a <= FX_MAX,
    ensures
        fx_mul(SCALE as int, a) == a,
        fx_mul(a, SCALE as int) == a,
{
    if a >= 0 {
        vstd::arithmetic::div_mod::lemma_div_by_multiple(a, SCALE as int);
        assert(a * SCALE == SCALE * a) by (nonlinear_arith);
    } else {
        vstd::arithmetic::div_mod::lemma_div_by_multiple(-a, SCALE as int);
        assert(iabs(a * SCALE) == (-a) * SCALE && iabs(SCALE * a) == (-a) * SCALE)
            by (nonlinear_arith)
            requires
                a < 0,
        ;
    }
}

/// A quotient whose numerator is no larger in magnitude than its positive
/// divisor stays within one unit.
pub proof fn lemma_fx_div_bounded(a: int, d: int)
    requires
        d > 0,
        iabs(a) <= d,
    ensures
        -(SCALE as int) <= fx_div(a, d) <= SCALE,
{
    vstd::arithmetic::div_mod::lemma_div_by_multiple(SCALE as int, d);
    assert(d * SCALE == SCALE * d) by (nonlinear_arith);
    if a >= 0 {
        lemma_tdiv_monotone(a * SCALE, d * SCALE, d);
        vstd::arithmetic::div_mod::lemma_div_pos_is_pos(a * SCALE, d);
    } else {
        lemma_tdiv_monotone((-a) * SCALE, d * SCALE, d);
        vstd::arithmetic::div_mod::lemma_div_pos_is_pos((-a) * SCALE, d);
        assert(iabs(a * SCALE) == (-a) * SCALE) by (nonlinear_arith)
            requires
                a < 0,
        ;
    }
}

/// A nonnegative dividend sits between consecutive multiples of a positive
/// divisor around its quotient.
pub proof fn lemma_div_floor_bounds(a: int, d: int)
    requires
        a >= 0,
        d > 0,
    ensures
        d * (a / d) <= a < d * ((a / d) + 1),
        a / d >= 0,
{
    vstd::arithmetic::div_mod::lemma_fundamental_div_mod(a, d);
    vstd::arithmetic::div_mod::lemma_mod_bound(a, d);
    vstd::arithmetic::mul::lemma_mul_is_distributive_add(d, a / d, 1);
    vstd::arithmetic::div_mod::lemma_div_pos_is_pos(a, d);
}

/// The magnitude of a product is bounded by the product of the bounds.
pub proof fn lemma_mul_bound(a: int, b: int, bound_a: int, bound_b: int)
    by (nonlinear_arith)
    requires
        iabs(a) <= bound_a,
        iabs(b) <= bound_b,
    ensures
        iabs(a * b) <= bound_a * bound_b,
{
}

/// Rescaling an exact multiple of the scale is exact.
pub proof fn lemma_tdiv_exact_multiple(w: int)
    ensures
        tdiv(w * SCALE, SCALE as int) == w,
{
    if w >= 0 {
        vstd::arithmetic::div_mod::lemma_div_by_multiple(w, SCALE as int);
    } else {
        vstd::arithmetic::div_mod::lemma_div_by_multiple(-w, SCALE as int);
        assert(iabs(w * SCALE) == (-w) * SCALE) by (nonlinear_arith)
            requires
                w < 0,
        ;
    }
}

/// The product of two whole fixed-point numbers (multiples of the scale) is
/// the whole number of their integer product: on the grid the product
/// rounds nothing away.
pub proof fn lemma_fx_mul_grid(u: int, v: int)
    requires
        iabs(u * v) <= 0x4000_0000_0000,
    ensures
        fx_mul(u * SCALE, v * SCALE) == u * v * SCALE,
{
    assert((u * SCALE) * (v * SCALE) == (u * v * SCALE) * SCALE) by (nonlinear_arith);
    lemma_tdiv_exact_multiple(u * v * SCALE);
    assert(iabs(u * v * SCALE) <= 0x4000_0000_0000 * 65536) by (nonlinear_arith)
        requires
            iabs(u * v) <= 0x4000_0000_0000,
    ;
}

/// The rescaled square of a value within one unit stays within one unit.
pub proof fn lemma_fx_mul_self_le_one(a: int)
    requires
        -(SCALE as int) <= a <= SCALE,
    ensures
        0 <= fx_mul(a, a) <= SCALE,
{
    lemma_fx_mul_self_nonneg(a);
    assert(a * a <= (SCALE as int) * (SCALE as int)) by (nonlinear_arith)
        requires
            -(SCALE as int) <= a <= SCALE,
    ;
    lemma_tdiv_monotone(a * a, (SCALE as int) * (SCALE as int), SCALE as int);
    assert(a * a >= 0) by (nonlinear_arith);
}

} // verus!
