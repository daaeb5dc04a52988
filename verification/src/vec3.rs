//! Three-component vectors over fixed-point scalars.

use vstd::prelude::*;

use crate::fixed::{
    fadd, fclamp, fdiv, fmul, fneg, fsqrt, fx_add, fx_clamp, fx_div, fx_mul, fx_sqrt, fx_sub,
    fx_wf, fsub,
};

verus! {

/// An ordered triple of fixed-point components.
#[derive(Clone, Copy, PartialEq, Eq, Structural, Debug)]
pub struct Vec3 {
    pub x: i64,
    pub y: i64,
    pub z: i64,
}

/// All three components lie within the saturation bounds.
pub open spec fn v3_wf(v: Vec3) -> bool {
    &&& fx_wf(v.x as int)
    &&& fx_wf(v.y as int)
    &&& fx_wf(v.z as int)
}

/// Componentwise saturating sum.
pub open spec fn v3_add(a: Vec3, b: Vec3) -> Vec3 {
    Vec3 {
        x: fx_add(a.x as int, b.x as int) as i64,
        y: fx_add(a.y as int, b.y as int) as i64,
        z: fx_add(a.z as int, b.z as int) as i64,
    }
}

/// Componentwise saturating difference.
pub open spec fn v3_sub(a: Vec3, b: Vec3) -> Vec3 {
    Vec3 {
        x: fx_sub(a.x as int, b.x as int) as i64,
        y: fx_sub(a.y as int, b.y as int) as i64,
        z: fx_sub(a.z as int, b.z as int) as i64,
    }
}

/// Componentwise negation.
pub open spec fn v3_neg(a: Vec3) -> Vec3 {
    Vec3 {
        x: (-(a.x as int)) as i64,
        y: (-(a.y as int)) as i64,
        z: (-(a.z as int)) as i64,
    }
}

/// The vector scaled by `k`.
pub open spec fn v3_scale(a: Vec3, k: int) -> Vec3 {
    Vec3 {
        x: fx_mul(a.x as int, k) as i64,
        y: fx_mul(a.y as int, k) as i64,
        z: fx_mul(a.z as int, k) as i64,
    }
}

/// Componentwise (Hadamard) product.
pub open spec fn v3_hadamard(a: Vec3, b: Vec3) -> Vec3 {
    Vec3 {
        x: fx_mul(a.x as int, b.x as int) as i64,
        y: fx_mul(a.y as int, b.y as int) as i64,
        z: fx_mul(a.z as int, b.z as int) as i64,
    }
}

/// Dot product, summed left to right.
pub open spec fn v3_dot(a: Vec3, b: Vec3) -> int {
    fx_add(
        fx_add(fx_mul(a.x as int, b.x as int), fx_mul(a.y as int, b.y as int)),
        fx_mul(a.z as int, b.z as int),
    )
}

/// Squared magnitude.
pub open spec fn v3_mag_sq(a: Vec3) -> int {
    v3_dot(a, a)
}

/// The vector divided by its magnitude (saturates on the zero vector).
pub open spec fn v3_normalized(a: Vec3) -> Vec3 {
    let m = fx_sqrt(v3_mag_sq(a));
    Vec3 {
        x: fx_div(a.x as int, m) as i64,
        y: fx_div(a.y as int, m) as i64,
        z: fx_div(a.z as int, m) as i64,
    }
}

/// The vector divided componentwise by the scalar `k`.
pub open spec fn v3_div_scalar(a: Vec3, k: int) -> Vec3 {
    Vec3 {
        x: fx_div(a.x as int, k) as i64,
        y: fx_div(a.y as int, k) as i64,
        z: fx_div(a.z as int, k) as i64,
    }
}

/// Linear interpolation `a + t * (b - a)`, componentwise.
pub open spec fn v3_lerp(a: Vec3, b: Vec3, t: int) -> Vec3 {
    v3_add(a, v3_scale(v3_sub(b, a), t))
}

/// Componentwise clamp into `[lo, hi]`.
pub open spec fn v3_clamp(v: Vec3, lo: int, hi: int) -> Vec3 {
    Vec3 {
        x: fx_clamp(v.x as int, lo, hi) as i64,
        y: fx_clamp(v.y as int, lo, hi) as i64,
        z: fx_clamp(v.z as int, lo, hi) as i64,
    }
}

/// The saturating sum of a sequence of vectors, added left to right.
pub open spec fn v3_sum(s: Seq<Vec3>) -> Vec3
    decreases s.len(),
{
    if s.len() == 0 {
        Vec3 { x: 0i64, y: 0i64, z: 0i64 }
    } else {
        v3_add(v3_sum(s.drop_last()), s.last())
    }
}

/// Componentwise products of vectors with components in [0, 1] stay in
/// [0, 1]: an attenuation with albedo components in range is a contraction,
/// so each bounce keeps an in-range radiance in range.
pub proof fn lemma_hadamard_unit_range(a: Vec3, b: Vec3)
    requires
        0 <= a.x <= 65536 && 0 <= a.y <= 65536 && 0 <= a.z <= 65536,
        0 <= b.x <= 65536 && 0 <= b.y <= 65536 && 0 <= b.z <= 65536,
    ensures
        ({
            let p = v3_hadamard(a, b);
            0 <= p.x <= 65536 && 0 <= p.y <= 65536 && 0 <= p.z <= 65536
        }),
{
    assert((a.x as int) * (b.x as int) <= 65536 * 65536 && (a.y as int) * (b.y as int) <= 65536
        * 65536 && (a.z as int) * (b.z as int) <= 65536 * 65536) by (nonlinear_arith)
        requires
            0 <= a.x <= 65536 && 0 <= a.y <= 65536 && 0 <= a.z <= 65536,
            0 <= b.x <= 65536 && 0 <= b.y <= 65536 && 0 <= b.z <= 65536,
    ;
    crate::fixed::lemma_fx_mul_nonneg_bounded(a.x as int, b.x as int, 65536);
    crate::fixed::lemma_fx_mul_nonneg_bounded(a.y as int, b.y as int, 65536);
    crate::fixed::lemma_fx_mul_nonneg_bounded(a.z as int, b.z as int, 65536);
}

/// A squared magnitude is never negative.
pub proof fn lemma_mag_sq_nonneg(v: Vec3)
    ensures
        v3_mag_sq(v) >= 0,
{
    assert((v.x as int) * (v.x as int) >= 0) by (nonlinear_arith);
    assert((v.y as int) * (v.y as int) >= 0) by (nonlinear_arith);
    assert((v.z as int) * (v.z as int) >= 0) by (nonlinear_arith);
}

impl Vec3 {
    /// Build a vector from raw fixed-point components.
    pub fn new(x: i64, y: i64, z: i64) -> (r: Vec3)
        ensures
            r == (Vec3 { x, y, z }),
    {
        Vec3 { x, y, z }
    }

    /// The zero vector.
    pub fn zero() -> (r: Vec3)
        ensures
            r == (Vec3 { x: 0i64, y: 0i64, z: 0i64 }),
            v3_wf(r),
    {
        Vec3 { x: 0, y: 0, z: 0 }
    }

    /// Componentwise saturating sum.
    pub fn plus(&self, o: &Vec3) -> (r: Vec3)
        requires
            v3_wf(*self),
            v3_wf(*o),
        ensures
            r == v3_add(*self, *o),
            v3_wf(r),
    {
        Vec3 { x: fadd(self.x, o.x), y: fadd(self.y, o.y), z: fadd(self.z, o.z) }
    }

    /// Componentwise saturating difference.
    pub fn minus(&self, o: &Vec3) -> (r: Vec3)
        requires
            v3_wf(*self),
            v3_wf(*o),
        ensures
            r == v3_sub(*self, *o),
            v3_wf(r),
    {
        Vec3 { x: fsub(self.x, o.x), y: fsub(self.y, o.y), z: fsub(self.z, o.z) }
    }

    /// Componentwise negation.
    pub fn negated(&self) -> (r: Vec3)
        requires
            v3_wf(*self),
        ensures
            r == v3_neg(*self),
            v3_wf(r),
    {
        Vec3 { x: fneg(self.x), y: fneg(self.y), z: fneg(self.z) }
    }

    /// The vector scaled by `k`.
    pub fn scaled(&self, k: i64) -> (r: Vec3)
        requires
            v3_wf(*self),
            fx_wf(k as int),
        ensures
            r == v3_scale(*self, k as int),
            v3_wf(r),
    {
        Vec3 { x: fmul(self.x, k), y: fmul(self.y, k), z: fmul(self.z, k) }
    }

    /// Componentwise (Hadamard) product.
    pub fn hadamard(&self, o: &Vec3) -> (r: Vec3)
        requires
            v3_wf(*self),
            v3_wf(*o),
        ensures
            r == v3_hadamard(*self, *o),
            v3_wf(r),
    {
        Vec3 { x: fmul(self.x, o.x), y: fmul(self.y, o.y), z: fmul(self.z, o.z) }
    }

    /// Dot product.
    pub fn dot(&self, o: &Vec3) -> (r: i64)
        requires
            v3_wf(*self),
            v3_wf(*o),
        ensures
            r == v3_dot(*self, *o),
            fx_wf(r as int),
    {
        fadd(fadd(fmul(self.x, o.x), fmul(self.y, o.y)), fmul(self.z, o.z))
    }

    /// Squared magnitude.
    pub fn mag_sq(&self) -> (r: i64)
        requires
            v3_wf(*self),
        ensures
            r == v3_mag_sq(*self),
            fx_wf(r as int),
    {
        self.dot(self)
    }

    /// The vector divided by its magnitude (saturates on the zero vector).
    pub fn normalized(&self) -> (r: Vec3)
        requires
            v3_wf(*self),
        ensures
            r == v3_normalized(*self),
            v3_wf(r),
    {
        let m = fsqrt(self.mag_sq());
        Vec3 { x: fdiv(self.x, m), y: fdiv(self.y, m), z: fdiv(self.z, m) }
    }

    /// The vector divided componentwise by the scalar `k`.
    pub fn div_by(&self, k: i64) -> (r: Vec3)
        requires
            v3_wf(*self),
            fx_wf(k as int),
        ensures
            r == v3_div_scalar(*self, k as int),
            v3_wf(r),
    {
        Vec3 { x: fdiv(self.x, k), y: fdiv(self.y, k), z: fdiv(self.z, k) }
    }

    /// Linear interpolation toward `o` by `t`.
    pub fn lerp_to(&self, o: &Vec3, t: i64) -> (r: Vec3)
        requires
            v3_wf(*self),
            v3_wf(*o),
            fx_wf(t as int),
        ensures
            r == v3_lerp(*self, *o, t as int),
            v3_wf(r),
    {
        self.plus(&o.minus(self).scaled(t))
    }

    /// Componentwise clamp into `[lo, hi]`.
    pub fn clamped(&self, lo: i64, hi: i64) -> (r: Vec3)
        requires
            lo <= hi,
        ensures
            r == v3_clamp(*self, lo as int, hi as int),
    {
        Vec3 {
            x: fclamp(self.x, lo, hi),
            y: fclamp(self.y, lo, hi),
            z: fclamp(self.z, lo, hi),
        }
    }
}

} // verus!
