//! Spheres: center, radius, material, and a precomputed bounding box.

use vstd::prelude::*;

use crate::aabb::{box_wf, slab_hit, AABB, B3};
use crate::fixed::{div_fx, mul_fx, sat64, sqrt_fx, sqrt_fx_e, sat_i64, sub_fx, add_fx};
use crate::hittable::{opt_rec_view, orient_normal, RecV, Record};
use crate::material::Material;
use crate::ray::{ray_at_spec, Ray, RayV};
use crate::vec3::{lemma_vlen2_nonneg, vdiv, vdot, vscale, vsub, V3, Vec3};

verus! {

#[derive(Clone, Copy, Debug)]
pub struct Sphere {
    pub center: Vec3,
    pub radius: i64,
    pub material: Material,
    pub bounds: AABB,
}

/// The box of a sphere: center plus and minus the radius on each axis.
pub open spec fn sphere_bounds(c: V3, r: int) -> B3 {
    B3 {
        min: V3 { x: sat64(c.x - r), y: sat64(c.y - r), z: sat64(c.z - r) },
        max: V3 { x: sat64(c.x + r), y: sat64(c.y + r), z: sat64(c.z + r) },
    }
}

/// The closest sphere hit in `[t_min, t_max]`, if any: the box pre-test,
/// then the quadratic, trying the nearer root first.
pub open spec fn sphere_hit_spec(s: Sphere, r: RayV, t_min: int, t_max: int) -> Option<RecV> {
    if !slab_hit(s.bounds@, r) {
        None
    } else {
        let oc = vsub(r.origin, s.center@);
        let a = vdot(r.direction, r.direction);
        let b = vdot(vscale(r.direction, 2 * (crate::fixed::UNIT as int)), oc);
        let c = sat64(vdot(oc, oc) - mul_fx(s.radius as int, s.radius as int));
        let disc = sat64(mul_fx(b, b) - mul_fx(sat64(4 * a), c));
        if disc < 0 || a == 0 {
            None
        } else {
            let sq = sqrt_fx(disc);
            let t1 = div_fx(sat64(-b - sq), sat64(2 * a));
            if t_min <= t1 <= t_max {
                Some(sphere_rec(s, r, t1))
            } else {
                let t2 = div_fx(sat64(-b + sq), sat64(2 * a));
                if t_min <= t2 <= t_max {
                    Some(sphere_rec(s, r, t2))
                } else {
                    None
                }
            }
        }
    }
}

/// The record of a sphere hit at parameter `t`: point along the ray and the
/// outward normal `(point - center) / radius`, oriented against the ray.
pub open spec fn sphere_rec(s: Sphere, r: RayV, t: int) -> RecV {
    let p = ray_at_spec(r, t);
    let n = vdiv(vsub(p, s.center@), s.radius as int);
    let oriented = orient_normal(r, n);
    RecV { t, point: p, normal: oriented.0, outside_face: oriented.1, material: s.material }
}

impl Sphere {
    /// A positive radius and a bounding box that matches the geometry.
    pub open spec fn wf(self) -> bool {
        1 <= self.radius && self.bounds@ == sphere_bounds(self.center@, self.radius as int)
    }

    pub proof fn lemma_wf_box(self)
        requires
            self.wf(),
        ensures
            box_wf(self.bounds@),
    {
    }

    pub fn new(center: Vec3, radius: i64, material: Material) -> (s: Sphere)
        requires
            radius >= 1,
        ensures
            s.wf(),
            s.center == center,
            s.radius == radius,
            s.material == material,
    {
        let min: Vec3 = Vec3 {
            x: sub_fx(center.x, radius),
            y: sub_fx(center.y, radius),
            z: sub_fx(center.z, radius),
        };
        let max: Vec3 = Vec3 {
            x: add_fx(center.x, radius),
            y: add_fx(center.y, radius),
            z: add_fx(center.z, radius),
        };
        Sphere { center, radius, material, bounds: AABB::new(min, max) }
    }

    /// The closest hit in `[t_min, t_max]`, after the box pre-test.
    pub fn ray_hit(&self, ray: &Ray, t_min: i64, t_max: i64) -> (res: Option<Record>)
        requires
            self.wf(),
        ensures
            opt_rec_view(res) == sphere_hit_spec(*self, ray@, t_min as int, t_max as int),
    {
        if !self.bounds.hit(ray) {
            return None;
        }
        let oc: Vec3 = ray.origin().sub(self.center);
        let a: i64 = Vec3::dot(ray.direction(), ray.direction());
        let b: i64 = Vec3::dot(ray.direction().scale(2 * crate::fixed::UNIT), oc);
        let c: i64 = sub_fx(Vec3::dot(oc, oc), crate::fixed::mul_fx_e(self.radius, self.radius));
        let disc: i64 = sub_fx(
            crate::fixed::mul_fx_e(b, b),
            crate::fixed::mul_fx_e(sat_i64(4 * (a as i128)), c),
        );
        if disc < 0 || a == 0 {
            return None;
        }
        proof {
            lemma_vlen2_nonneg(ray@.direction);
        }
        let sq: i64 = sqrt_fx_e(disc);
        let two_a: i64 = sat_i64(2 * (a as i128));
        let t1: i64 = crate::fixed::div_fx_e(sat_i64(-(b as i128) - (sq as i128)), two_a);
        if t_min <= t1 && t1 <= t_max {
            return Some(self.make_record(ray, t1));
        }
        let t2: i64 = crate::fixed::div_fx_e(sat_i64(-(b as i128) + (sq as i128)), two_a);
        if t_min <= t2 && t2 <= t_max {
            return Some(self.make_record(ray, t2));
        }
        None
    }

    fn make_record(&self, ray: &Ray, t: i64) -> (rec: Record)
        requires
            self.wf(),
        ensures
            rec@ == sphere_rec(*self, ray@, t as int),
    {
        let p: Vec3 = ray.ray_at(t);
        let normal: Vec3 = p.sub(self.center).div(self.radius);
        let mut rec: Record = Record::new();
        rec.t = t;
        rec.point = p;
        rec.material = self.material;
        rec.calculate_normal(ray, normal);
        rec
    }

    pub fn bounds(&self) -> (b: AABB)
        ensures
            b@ == self.bounds@,
    {
        self.bounds
    }

    pub fn centroid(&self) -> (c: Vec3)
        ensures
            c@ == self.center@,
    {
        self.center
    }
}

} // verus!
