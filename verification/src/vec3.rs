//! Three-component vectors and colors in fixed-point arithmetic.
//!
//! `Vec3` is an immutable value: every operation returns a new vector whose
//! components are stated exactly by the matching spec function.  A vector is
//! well formed (`wf`) when each component lies in the fixed-point range; all
//! operations preserve well-formedness because their components saturate.

use vstd::prelude::*;

use crate::fx::{
    add_fx, clamp_unit_fx, clip, clip_i128, div_fx, div_trunc_i128, fx_add, fx_clamp_unit, fx_div,
    fx_mul, fx_sub, isqrt, lemma_sqrt_floor_is, mul_fx, sqrt_floor, sub_fx, tdiv, RANGE, SCALE,
};

verus! {

/// A vector of three fixed-point components.
#[derive(Clone, Copy, Debug, PartialEq, Eq, Structural)]
pub struct Vec3 {
    pub x: i64,
    pub y: i64,
    pub z: i64,
}

/// An RGB color; each channel is a fixed-point value, nominally in `[0, 1]`
/// but not clamped before the final byte conversion.
#[derive(Clone, Copy, Debug, PartialEq, Eq, Structural)]
pub struct Pixel {
    pub r: i64,
    pub g: i64,
    pub b: i64,
}

impl Pixel {
    /// Each channel within the fixed-point range.
    pub open spec fn wf(self) -> bool {
        &&& -(RANGE as int) <= self.r <= RANGE as int
        &&& -(RANGE as int) <= self.g <= RANGE as int
        &&& -(RANGE as int) <= self.b <= RANGE as int
    }

    /// The color as a vector, channel by channel.
    pub open spec fn spec_to_vec3(self) -> Vec3 {
        Vec3 { x: self.r, y: self.g, z: self.b }
    }

    pub fn to_vec3(self) -> (v: Vec3)
        ensures
            v == self.spec_to_vec3(),
    {
        Vec3 { x: self.r, y: self.g, z: self.b }
    }
}

/// A spec-level vector from unbounded components known to fit in `i64`.
pub open spec fn v3(x: int, y: int, z: int) -> Vec3 {
    Vec3 { x: x as i64, y: y as i64, z: z as i64 }
}

/// The raw sum `x*x + y*y + z*z` of squared components, before any scaling:
/// `SCALE^2` times the squared Euclidean length.
pub open spec fn raw_norm_sq(v: Vec3) -> int {
    (v.x as int) * (v.x as int) + (v.y as int) * (v.y as int) + (v.z as int) * (v.z as int)
}

/// Componentwise saturating sum.
pub open spec fn spec_add(a: Vec3, b: Vec3) -> Vec3 {
    v3(
        fx_add(a.x as int, b.x as int),
        fx_add(a.y as int, b.y as int),
        fx_add(a.z as int, b.z as int),
    )
}

/// Componentwise saturating difference.
pub open spec fn spec_sub(a: Vec3, b: Vec3) -> Vec3 {
    v3(
        fx_sub(a.x as int, b.x as int),
        fx_sub(a.y as int, b.y as int),
        fx_sub(a.z as int, b.z as int),
    )
}

/// The vector scaled by a fixed-point factor, componentwise.
pub open spec fn spec_scale(a: Vec3, s: int) -> Vec3 {
    v3(fx_mul(a.x as int, s), fx_mul(a.y as int, s), fx_mul(a.z as int, s))
}

/// The negated vector.
pub open spec fn spec_neg(a: Vec3) -> Vec3 {
    v3(-(a.x as int), -(a.y as int), -(a.z as int))
}

/// The fixed-point dot product.
pub open spec fn spec_dot(a: Vec3, b: Vec3) -> int {
    clip(
        tdiv(
            (a.x as int) * (b.x as int) + (a.y as int) * (b.y as int) + (a.z as int) * (b.z as int),
            SCALE as int,
        ),
    )
}

/// The Euclidean length in fixed-point steps: the floor square root of the
/// raw sum of squares, since that sum carries `SCALE^2` steps per unit.
pub open spec fn spec_norm(v: Vec3) -> int {
    sqrt_floor(raw_norm_sq(v))
}

/// The unit vector with `v`'s direction: each component divided by the
/// length.  The zero vector has no direction and is returned unchanged,
/// a sentinel the callers never rely on.
pub open spec fn spec_normalize(v: Vec3) -> Vec3 {
    if raw_norm_sq(v) == 0 {
        v
    } else {
        v3(
            clip(tdiv((v.x as int) * (SCALE as int), spec_norm(v))),
            clip(tdiv((v.y as int) * (SCALE as int), spec_norm(v))),
            clip(tdiv((v.z as int) * (SCALE as int), spec_norm(v))),
        )
    }
}

/// The mirror image of `v` about a surface with normal `n`:
/// `v - n * (2 * dot(v, n))`.
pub open spec fn spec_reflect(v: Vec3, n: Vec3) -> Vec3 {
    spec_sub(v, spec_scale(n, clip(2 * spec_dot(v, n))))
}

impl Vec3 {
    /// Every component within the fixed-point range.
    pub open spec fn wf(self) -> bool {
        &&& -(RANGE as int) <= self.x <= RANGE as int
        &&& -(RANGE as int) <= self.y <= RANGE as int
        &&& -(RANGE as int) <= self.z <= RANGE as int
    }

    /// The vector as a color, channel by channel.
    pub open spec fn spec_to_pixel(self) -> Pixel {
        Pixel { r: self.x, g: self.y, b: self.z }
    }

    pub fn to_pixel(self) -> (p: Pixel)
        ensures
            p == self.spec_to_pixel(),
    {
        Pixel { r: self.x, g: self.y, b: self.z }
    }

    /// A vector whose components are saturated into the fixed-point range.
    pub fn new(x: i64, y: i64, z: i64) -> (v: Vec3)
        ensures
            v == v3(clip(x as int), clip(y as int), clip(z as int)),
            v.wf(),
    {
        Vec3 {
            x: clip_i128(x as i128),
            y: clip_i128(y as i128),
            z: clip_i128(z as i128),
        }
    }

    pub fn add(&self, other: &Self) -> (r: Self)
        ensures
            r == spec_add(*self, *other),
            r.wf(),
    {
        Vec3 {
            x: add_fx(self.x, other.x),
            y: add_fx(self.y, other.y),
            z: add_fx(self.z, other.z),
        }
    }

    pub fn sub(&self, other: &Self) -> (r: Self)
        ensures
            r == spec_sub(*self, *other),
            r.wf(),
    {
        Vec3 {
            x: sub_fx(self.x, other.x),
            y: sub_fx(self.y, other.y),
            z: sub_fx(self.z, other.z),
        }
    }

    /// The vector scaled by a fixed-point factor.
    pub fn mul(&self, val: i64) -> (r: Self)
        ensures
            r == spec_scale(*self, val as int),
            r.wf(),
    {
        Vec3 {
            x: mul_fx(self.x, val),
            y: mul_fx(self.y, val),
            z: mul_fx(self.z, val),
        }
    }

    pub fn neg(&self) -> (r: Self)
        requires
            self.wf(),
        ensures
            r == spec_neg(*self),
            r.wf(),
    {
        Vec3 { x: -self.x, y: -self.y, z: -self.z }
    }

    /// The fixed-point dot product.  Well-formed inputs keep the raw sum of
    /// products inside `i128`.
    pub fn dot(&self, other: &Self) -> (r: i64)
        requires
            self.wf(),
            other.wf(),
        ensures
            r as int == spec_dot(*self, *other),
    {
        proof {
            lemma_raw_products_bounded(*self, *other);
        }
        let p: i128 = (self.x as i128) * (other.x as i128) + (self.y as i128) * (other.y as i128)
            + (self.z as i128) * (other.z as i128);
        let q = div_trunc_i128(p, SCALE as i128);
        clip_i128(q)
    }

    /// The Euclidean length, in fixed-point steps.
    pub fn norm(&self) -> (r: i64)
        requires
            self.wf(),
        ensures
            r as int == spec_norm(*self),
            0 <= r,
    {
        proof {
            lemma_raw_products_bounded(*self, *self);
            lemma_raw_norm_sq_nonneg(*self);
        }
        let p: i128 = (self.x as i128) * (self.x as i128) + (self.y as i128) * (self.y as i128)
            + (self.z as i128) * (self.z as i128);
        let r = isqrt(p as u128);
        proof {
            lemma_sqrt_floor_is(p as int, r as int);
            lemma_sqrt_fits(*self, r as int);
        }
        r as i64
    }

    /// The unit vector with `self`'s direction; the zero vector is returned
    /// unchanged.
    pub fn normalize(&self) -> (r: Self)
        requires
            self.wf(),
        ensures
            r == spec_normalize(*self),
            r.wf(),
    {
        let n = self.norm();
        if n == 0 {
            proof {
                lemma_norm_zero_only_for_zero(*self);
            }
            *self
        } else {
            assert(raw_norm_sq(*self) != 0) by {
                if raw_norm_sq(*self) == 0 {
                    lemma_sqrt_floor_is(0, 0);
                }
            }
            Vec3 {
                x: div_fx(self.x, n),
                y: div_fx(self.y, n),
                z: div_fx(self.z, n),
            }
        }
    }

    /// The mirror image of `self` about a surface with normal `normal`.
    pub fn reflect(&self, normal: &Self) -> (r: Self)
        requires
            self.wf(),
            normal.wf(),
        ensures
            r == spec_reflect(*self, *normal),
            r.wf(),
    {
        let d = self.dot(normal);
        let two_d = clip_i128(2 * (d as i128));
        self.sub(&normal.mul(two_d))
    }

    /// The refracted direction by Snell's law; see `spec_refract`.
    pub fn refract(&self, normal: Vec3, refractive_index: i64) -> (r: Self)
        requires
            self.wf(),
            normal.wf(),
            0 < refractive_index,
        ensures
            r == spec_refract(*self, normal, refractive_index as int),
            r.wf(),
    {
        let d = clamp_unit_fx(self.dot(&normal));
        let cosi0 = -d;
        if cosi0 < 0 {
            self.refract_part(normal.neg(), -cosi0, refractive_index)
        } else {
            self.refract_part(normal, cosi0, div_fx(SCALE, refractive_index))
        }
    }

    /// The transmitted ray for an entering orientation.
    fn refract_part(&self, n: Vec3, cosi: i64, eta: i64) -> (r: Self)
        requires
            self.wf(),
            n.wf(),
        ensures
            r == spec_refract_part(*self, n, cosi as int, eta as int),
            r.wf(),
    {
        let k = sub_fx(SCALE, mul_fx(mul_fx(eta, eta), sub_fx(SCALE, mul_fx(cosi, cosi))));
        if k < 0 {
            Vec3 { x: 0, y: 0, z: 0 }
        } else {
            let s = crate::fx::sqrt_scaled_i128(k as i128);
            self.mul(eta).add(&n.mul(sub_fx(mul_fx(eta, cosi), s)))
        }
    }
}

/// For well-formed vectors the raw sum of products fits in `i128`.
proof fn lemma_raw_products_bounded(a: Vec3, b: Vec3)
    requires
        a.wf(),
        b.wf(),
    ensures
        i128::MIN
            < (a.x as int) * (b.x as int) + (a.y as int) * (b.y as int) + (a.z as int) * (
        b.z as int),
        (a.x as int) * (b.x as int) + (a.y as int) * (b.y as int) + (a.z as int) * (b.z as int)
            <= i128::MAX,
        -(RANGE as int) * (RANGE as int) <= (a.x as int) * (b.x as int) <= (RANGE as int) * (
        RANGE as int),
        -(RANGE as int) * (RANGE as int) <= (a.y as int) * (b.y as int) <= (RANGE as int) * (
        RANGE as int),
        -(RANGE as int) * (RANGE as int) <= (a.z as int) * (b.z as int) <= (RANGE as int) * (
        RANGE as int),
{
    assert forall|p: int, q: int|
        -(RANGE as int) <= p <= RANGE as int && -(RANGE as int) <= q <= RANGE as int
            implies -(RANGE as int) * (RANGE as int) <= #[trigger] (p * q) <= (RANGE as int) * (
        RANGE as int) by {
        assert(-(RANGE as int) * (RANGE as int) <= p * q <= (RANGE as int) * (RANGE as int))
            by (nonlinear_arith)
            requires
                -(RANGE as int) <= p <= RANGE as int,
                -(RANGE as int) <= q <= RANGE as int,
        ;
    }
}

/// A sum of squares is non-negative.
proof fn lemma_raw_norm_sq_nonneg(v: Vec3)
    ensures
        0 <= raw_norm_sq(v),
{
    assert(0 <= (v.x as int) * (v.x as int)) by (nonlinear_arith);
    assert(0 <= (v.y as int) * (v.y as int)) by (nonlinear_arith);
    assert(0 <= (v.z as int) * (v.z as int)) by (nonlinear_arith);
}

/// The length of a well-formed vector fits in `i64`.
proof fn lemma_sqrt_fits(v: Vec3, r: int)
    requires
        v.wf(),
        0 <= r,
        r * r <= raw_norm_sq(v),
    ensures
        r < i64::MAX,
{
    lemma_raw_products_bounded(v, v);
    assert(raw_norm_sq(v) <= 3 * (RANGE as int) * (RANGE as int));
    if r >= i64::MAX {
        assert(r * r > 3 * (RANGE as int) * (RANGE as int)) by (nonlinear_arith)
            requires
                r >= i64::MAX,
        ;
    }
}

/// Only the zero vector has length zero.
proof fn lemma_norm_zero_only_for_zero(v: Vec3)
    requires
        v.wf(),
        spec_norm(v) == 0,
    ensures
        raw_norm_sq(v) == 0,
        spec_normalize(v) == v,
{
    lemma_raw_norm_sq_nonneg(v);
    let n = raw_norm_sq(v);
    let w = sqrt_floor(n);
    if n > 0 {
        assert(exists|r: int| 0 <= r && #[trigger] (r * r) <= n && n < (r + 1) * (r + 1)) by {
            lemma_sqrt_exists(n);
        }
        assert(0 <= w && w * w <= n && n < (w + 1) * (w + 1));
        assert(w != 0);
    }
}

/// Every non-negative integer has a floor square root.
proof fn lemma_sqrt_exists(n: int)
    requires
        0 <= n,
    ensures
        exists|r: int| 0 <= r && #[trigger] (r * r) <= n && n < (r + 1) * (r + 1),
    decreases n,
{
    if n == 0 {
        assert(0int * 0int == 0) by (nonlinear_arith);
        assert((0int + 1) * (0int + 1) == 1) by (nonlinear_arith);
        assert(0 <= 0int && 0int * 0int <= n && n < (0int + 1) * (0int + 1));
    } else {
        lemma_sqrt_exists(n - 1);
        let r = choose|r: int| 0 <= r && #[trigger] (r * r) <= n - 1 && n - 1 < (r + 1) * (r + 1);
        if (r + 1) * (r + 1) <= n {
            let s = r + 1;
            assert(n < (s + 1) * (s + 1)) by (nonlinear_arith)
                requires
                    0 <= r,
                    s == r + 1,
                    n - 1 < (r + 1) * (r + 1),
                    (r + 1) * (r + 1) <= n,
            ;
            assert(0 <= s && s * s <= n && n < (s + 1) * (s + 1));
        } else {
            assert(0 <= r && r * r <= n && n < (r + 1) * (r + 1));
        }
    }
}

/// The refracted direction by Snell's law, mirroring the usual formulation:
/// the incidence cosine is clamped into `[-1, 1]`; a negative cosine means
/// the ray is leaving the medium, so the normal flips and the index is used
/// directly instead of its reciprocal; a negative discriminant is total
/// internal reflection, answered with the zero-vector sentinel.
pub open spec fn spec_refract(v: Vec3, normal: Vec3, refractive_index: int) -> Vec3 {
    let cosi0 = -fx_clamp_unit(spec_dot(v, normal));
    if cosi0 < 0 {
        spec_refract_part(v, spec_neg(normal), -cosi0, refractive_index)
    } else {
        spec_refract_part(v, normal, cosi0, fx_div(SCALE as int, refractive_index))
    }
}

/// The transmitted ray for an entering orientation: cosine `cosi` in
/// `[0, 1]` and index ratio `eta`.
pub open spec fn spec_refract_part(v: Vec3, n: Vec3, cosi: int, eta: int) -> Vec3 {
    let k = fx_sub(SCALE as int, fx_mul(fx_mul(eta, eta), fx_sub(SCALE as int, fx_mul(cosi, cosi))));
    if k < 0 {
        Vec3 { x: 0, y: 0, z: 0 }
    } else {
        spec_add(spec_scale(v, eta), spec_scale(n, fx_sub(fx_mul(eta, cosi), sqrt_floor(k * (SCALE as int)))))
    }
}

} // verus!
