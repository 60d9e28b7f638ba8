//! Three-component vectors over fixed-point scalars, used for points,
//! directions and colors alike.
//!
//! Every operation is mirrored by a spec function over the mathematical view
//! `V3` (unbounded integers), so contracts elsewhere can speak of vector
//! arithmetic exactly.

use vstd::prelude::*;

use crate::fixed::{
    add_fx, div_fx, div_fx_e, mul_fx, mul_fx_e, neg_fx, sat64, sqrt_fx, sqrt_fx_e, sub_fx, UNIT,
};

verus! {

/// Mathematical view of a vector: the three raw fixed-point scalars.
pub ghost struct V3 {
    pub x: int,
    pub y: int,
    pub z: int,
}

#[derive(Clone, Copy, Debug, PartialEq, Eq, Structural)]
pub struct Vec3 {
    pub x: i64,
    pub y: i64,
    pub z: i64,
}

impl View for Vec3 {
    type V = V3;

    open spec fn view(&self) -> V3 {
        V3 { x: self.x as int, y: self.y as int, z: self.z as int }
    }
}

/// Component-wise saturating sum.
pub open spec fn vadd(a: V3, b: V3) -> V3 {
    V3 { x: sat64(a.x + b.x), y: sat64(a.y + b.y), z: sat64(a.z + b.z) }
}

pub open spec fn vsub(a: V3, b: V3) -> V3 {
    V3 { x: sat64(a.x - b.x), y: sat64(a.y - b.y), z: sat64(a.z - b.z) }
}

pub open spec fn vneg(a: V3) -> V3 {
    V3 { x: sat64(-a.x), y: sat64(-a.y), z: sat64(-a.z) }
}

/// Component-wise fixed-point product (used for color attenuation).
pub open spec fn vmul(a: V3, b: V3) -> V3 {
    V3 { x: mul_fx(a.x, b.x), y: mul_fx(a.y, b.y), z: mul_fx(a.z, b.z) }
}

/// Vector scaled by a fixed-point scalar.
pub open spec fn vscale(a: V3, k: int) -> V3 {
    V3 { x: mul_fx(a.x, k), y: mul_fx(a.y, k), z: mul_fx(a.z, k) }
}

/// Vector divided by a fixed-point scalar.
pub open spec fn vdiv(a: V3, k: int) -> V3
    recommends
        k != 0,
{
    V3 { x: div_fx(a.x, k), y: div_fx(a.y, k), z: div_fx(a.z, k) }
}

/// Dot product: the three fixed-point products are truncated term by term
/// and their sum saturated.
pub open spec fn vdot(a: V3, b: V3) -> int {
    sat64(mul_fx(a.x, b.x) + mul_fx(a.y, b.y) + mul_fx(a.z, b.z))
}

pub open spec fn vcross(a: V3, b: V3) -> V3 {
    V3 {
        x: sat64(mul_fx(a.y, b.z) - mul_fx(a.z, b.y)),
        y: sat64(mul_fx(a.z, b.x) - mul_fx(a.x, b.z)),
        z: sat64(mul_fx(a.x, b.y) - mul_fx(a.y, b.x)),
    }
}

/// Squared length (a nonnegative fixed-point scalar).
pub open spec fn vlen2(a: V3) -> int {
    vdot(a, a)
}

/// Length: fixed-point square root of the squared length.
pub open spec fn vlen(a: V3) -> int {
    sqrt_fx(vlen2(a))
}

/// The unit vector in the direction of `a`; meaningful only for `vlen(a) > 0`.
pub open spec fn vunit(a: V3) -> V3
    recommends
        vlen(a) > 0,
{
    vdiv(a, vlen(a))
}

/// Mirror reflection of `d` about the normal `n`: `d - 2 (d . n) n`.
pub open spec fn vreflect(d: V3, n: V3) -> V3 {
    vsub(d, vscale(n, sat64(2 * vdot(d, n))))
}

/// Snell refraction of `d` about the normal `n` with refractive ratio `k`.
pub open spec fn vrefract(d: V3, n: V3, k: int) -> V3 {
    let cos = vdot(vneg(d), n);
    let r_perp = vscale(vadd(d, vscale(n, cos)), k);
    let s = sqrt_fx(sat64((UNIT as int) - vlen2(r_perp)));
    vadd(r_perp, vscale(n, sat64(-s)))
}

/// Squared lengths are nonnegative.
pub proof fn lemma_vlen2_nonneg(v: V3)
    ensures
        0 <= vlen2(v),
{
    assert(v.x * v.x >= 0 && v.y * v.y >= 0 && v.z * v.z >= 0) by (nonlinear_arith);
    assert(mul_fx(v.x, v.x) >= 0 && mul_fx(v.y, v.y) >= 0 && mul_fx(v.z, v.z) >= 0);
}

/// A vector of nonzero squared length has positive length, so it can be
/// rescaled to a unit vector.
pub proof fn lemma_vlen_pos(v: V3)
    requires
        vlen2(v) >= 1,
    ensures
        vlen(v) >= 1,
{
    crate::fixed::lemma_sqrt_floor_bounds(vlen2(v) * (UNIT as int));
    let r = crate::fixed::sqrt_floor(vlen2(v) * (UNIT as int));
    if r == 0 {
        assert((r + 1) * (r + 1) == 1) by (nonlinear_arith)
            requires
                r == 0,
        {
        }
    }
}

impl Vec3 {
    pub fn new(x: i64, y: i64, z: i64) -> (r: Vec3)
        ensures
            r@ == (V3 { x: x as int, y: y as int, z: z as int }),
    {
        Vec3 { x, y, z }
    }

    pub fn default() -> (r: Vec3)
        ensures
            r@ == (V3 { x: 0, y: 0, z: 0 }),
    {
        Vec3 { x: 0, y: 0, z: 0 }
    }

    /// Common color constants.
    pub fn white() -> (r: Vec3)
        ensures
            r@ == (V3 { x: UNIT as int, y: UNIT as int, z: UNIT as int }),
    {
        Vec3 { x: UNIT, y: UNIT, z: UNIT }
    }

    pub fn black() -> (r: Vec3)
        ensures
            r@ == (V3 { x: 0, y: 0, z: 0 }),
    {
        Vec3 { x: 0, y: 0, z: 0 }
    }

    pub fn x(&self) -> (r: i64)
        ensures
            r as int == self@.x,
    {
        self.x
    }

    pub fn y(&self) -> (r: i64)
        ensures
            r as int == self@.y,
    {
        self.y
    }

    pub fn z(&self) -> (r: i64)
        ensures
            r as int == self@.z,
    {
        self.z
    }

    pub fn add(self, rhs: Vec3) -> (r: Vec3)
        ensures
            r@ == vadd(self@, rhs@),
    {
        Vec3 { x: add_fx(self.x, rhs.x), y: add_fx(self.y, rhs.y), z: add_fx(self.z, rhs.z) }
    }

    pub fn sub(self, rhs: Vec3) -> (r: Vec3)
        ensures
            r@ == vsub(self@, rhs@),
    {
        Vec3 { x: sub_fx(self.x, rhs.x), y: sub_fx(self.y, rhs.y), z: sub_fx(self.z, rhs.z) }
    }

    pub fn neg(self) -> (r: Vec3)
        ensures
            r@ == vneg(self@),
    {
        Vec3 { x: neg_fx(self.x), y: neg_fx(self.y), z: neg_fx(self.z) }
    }

    pub fn mul(self, rhs: Vec3) -> (r: Vec3)
        ensures
            r@ == vmul(self@, rhs@),
    {
        Vec3 { x: mul_fx_e(self.x, rhs.x), y: mul_fx_e(self.y, rhs.y), z: mul_fx_e(self.z, rhs.z) }
    }

    pub fn scale(self, k: i64) -> (r: Vec3)
        ensures
            r@ == vscale(self@, k as int),
    {
        Vec3 { x: mul_fx_e(self.x, k), y: mul_fx_e(self.y, k), z: mul_fx_e(self.z, k) }
    }

    pub fn div(self, k: i64) -> (r: Vec3)
        requires
            k != 0,
        ensures
            r@ == vdiv(self@, k as int),
    {
        Vec3 { x: div_fx_e(self.x, k), y: div_fx_e(self.y, k), z: div_fx_e(self.z, k) }
    }

    pub fn dot(u: Vec3, v: Vec3) -> (r: i64)
        ensures
            r as int == vdot(u@, v@),
    {
        let px: i64 = mul_fx_e(u.x, v.x);
        let py: i64 = mul_fx_e(u.y, v.y);
        let pz: i64 = mul_fx_e(u.z, v.z);
        crate::fixed::sat_i64(px as i128 + py as i128 + pz as i128)
    }

    pub fn cross(u: Vec3, v: Vec3) -> (r: Vec3)
        ensures
            r@ == vcross(u@, v@),
    {
        let x: i64 = sub_fx(mul_fx_e(u.y, v.z), mul_fx_e(u.z, v.y));
        let y: i64 = sub_fx(mul_fx_e(u.z, v.x), mul_fx_e(u.x, v.z));
        let z: i64 = sub_fx(mul_fx_e(u.x, v.y), mul_fx_e(u.y, v.x));
        Vec3 { x, y, z }
    }

    pub fn len2(&self) -> (r: i64)
        ensures
            r as int == vlen2(self@),
    {
        Vec3::dot(*self, *self)
    }

    /// Distance from the origin.
    pub fn length(&self) -> (r: i64)
        ensures
            r as int == vlen(self@),
    {
        sqrt_fx_e(self.len2())
    }

    pub fn norm(&self) -> (r: i64)
        ensures
            r as int == vlen(self@),
    {
        self.length()
    }

    /// The vector rescaled to (fixed-point) length one.
    pub fn unit(&self) -> (r: Vec3)
        requires
            vlen(self@) > 0,
        ensures
            r@ == vunit(self@),
    {
        let n: i64 = self.length();
        self.div(n)
    }

    pub fn reflect(dir_in: Vec3, normal: Vec3) -> (r: Vec3)
        ensures
            r@ == vreflect(dir_in@, normal@),
    {
        let k: i64 = crate::fixed::sat_i64(2 * (Vec3::dot(dir_in, normal) as i128));
        dir_in.sub(normal.scale(k))
    }

    pub fn refract(dir_in: Vec3, normal: Vec3, refractive_ratio: i64) -> (r: Vec3)
        ensures
            r@ == vrefract(dir_in@, normal@, refractive_ratio as int),
    {
        let cos: i64 = Vec3::dot(dir_in.neg(), normal);
        let r_perp: Vec3 = dir_in.add(normal.scale(cos)).scale(refractive_ratio);
        let s: i64 = sqrt_fx_e(sub_fx(UNIT, r_perp.len2()));
        r_perp.add(normal.scale(neg_fx(s)))
    }
}

} // verus!
