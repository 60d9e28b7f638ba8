//! Infinite planes: a point and a normal.  Planes have no bounding box and
//! take part only in the unaccelerated whole-scene scan, never in the BVH.

use vstd::prelude::*;

use crate::aabb::AABB;
use crate::fixed::div_fx;
use crate::hittable::{opt_rec_view, orient_normal, RecV, Record};
use crate::material::Material;
use crate::ray::{ray_at_spec, Ray, RayV};
use crate::vec3::{lemma_vlen2_nonneg, lemma_vlen_pos, vdot, vlen2, vsub, vunit, Vec3};

verus! {

#[derive(Clone, Copy, Debug)]
pub struct Plane {
    pub point: Vec3,
    pub normal: Vec3,
    pub material: Material,
}

/// The plane hit in `[t_min, t_max]`, if any: a single ray-plane
/// intersection; a parallel ray or a degenerate normal reports no hit.
pub open spec fn plane_hit_spec(pl: Plane, r: RayV, t_min: int, t_max: int) -> Option<RecV> {
    let v_dot_n = vdot(r.direction, pl.normal@);
    if v_dot_n == 0 || vlen2(pl.normal@) == 0 {
        None
    } else {
        let qp = vsub(pl.point@, r.origin);
        let tt = div_fx(vdot(qp, pl.normal@), v_dot_n);
        if !(t_min <= tt <= t_max) {
            None
        } else {
            let p = ray_at_spec(r, tt);
            let oriented = orient_normal(r, vunit(pl.normal@));
            Some(
                RecV {
                    t: tt,
                    point: p,
                    normal: oriented.0,
                    outside_face: oriented.1,
                    material: pl.material,
                },
            )
        }
    }
}

impl Plane {
    pub fn new(point: Vec3, normal: Vec3, material: Material) -> (pl: Plane)
        ensures
            pl.point == point,
            pl.normal == normal,
            pl.material == material,
    {
        Plane { point, normal, material }
    }

    pub fn ray_hit(&self, ray: &Ray, t_min: i64, t_max: i64) -> (res: Option<Record>)
        ensures
            opt_rec_view(res) == plane_hit_spec(*self, ray@, t_min as int, t_max as int),
    {
        let v_dot_n: i64 = Vec3::dot(ray.direction(), self.normal);
        proof {
            lemma_vlen2_nonneg(self.normal@);
        }
        if v_dot_n == 0 || self.normal.len2() == 0 {
            return None;
        }
        proof {
            lemma_vlen_pos(self.normal@);
        }
        let qp: Vec3 = self.point.sub(ray.origin());
        let tt: i64 = crate::fixed::div_fx_e(Vec3::dot(qp, self.normal), v_dot_n);
        if t_min > tt || tt > t_max {
            return None;
        }
        let mut rec: Record = Record::new();
        rec.t = tt;
        rec.point = ray.ray_at(tt);
        rec.material = self.material;
        rec.calculate_normal(ray, self.normal.unit());
        Some(rec)
    }

    /// Planes are unbounded: the empty box stands in, and never encloses
    /// the geometry (which keeps planes out of the accelerated path).
    pub fn bounds(&self) -> (b: AABB)
        ensures
            b@ == crate::aabb::empty_box(),
    {
        AABB::default()
    }

    pub fn centroid(&self) -> (c: Vec3)
        ensures
            c@ == (crate::vec3::V3 { x: 0, y: 0, z: 0 }),
    {
        Vec3::default()
    }
}

} // verus!
