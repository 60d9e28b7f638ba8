//! Triangles: three vertices, a precomputed face normal, optional
//! per-vertex normals for smooth shading, and a bounding box.

use vstd::prelude::*;

use crate::aabb::{box_add, box_wf, empty_box, slab_hit, AABB, B3};
use crate::fixed::{div_fx, sat64, UNIT};
use crate::hittable::{opt_rec_view, orient_normal, RecV, Record};
use crate::material::Material;
use crate::ray::{ray_at_spec, Ray, RayV};
use crate::vec3::{
    lemma_vlen2_nonneg, lemma_vlen_pos, vadd, vcross, vdot, vlen, vlen2, vscale, vsub, vunit, V3,
    Vec3,
};

verus! {

/// Two in fixed point, the divisor of the sub-triangle areas.
pub const TWO_FX: i64 = 131072;

#[derive(Clone, Copy, Debug)]
pub struct Triangle {
    pub p1: Vec3,
    pub p2: Vec3,
    pub p3: Vec3,
    pub e1: Vec3,
    pub e2: Vec3,
    pub normal: Vec3,
    pub n1: Option<Vec3>,
    pub n2: Option<Vec3>,
    pub n3: Option<Vec3>,
    pub material: Material,
    pub bounds: AABB,
}

/// The box of the three vertices.
pub open spec fn tri_bounds(p1: V3, p2: V3, p3: V3) -> B3 {
    box_add(box_add(box_add(empty_box(), p1), p2), p3)
}

/// The shading normal at barycentric weights `x`, `y`: interpolated from
/// the vertex normals when all three are present and the face has area,
/// the flat face normal otherwise.
pub open spec fn tri_shading_normal(t: Triangle, x: int, y: int, area: int) -> V3 {
    match (t.n1, t.n2, t.n3) {
        (Some(n1), Some(n2), Some(n3)) => {
            if area != 0 {
                vadd(
                    vadd(vscale(n3@, sat64((UNIT as int) - x - y)), vscale(n1@, x)),
                    vscale(n2@, y),
                )
            } else {
                t.normal@
            }
        },
        _ => t.normal@,
    }
}

/// The triangle hit in `[t_min, t_max]`, if any: box pre-test, plane
/// intersection, then the three edge-sign tests; a ray parallel to the
/// plane or a degenerate shading normal reports no hit.
pub open spec fn triangle_hit_spec(t: Triangle, r: RayV, t_min: int, t_max: int) -> Option<RecV> {
    if !slab_hit(t.bounds@, r) {
        None
    } else {
        let v_dot_n = vdot(r.direction, t.normal@);
        if v_dot_n == 0 {
            None
        } else {
            let qp = vsub(t.p1@, r.origin);
            let tt = div_fx(vdot(qp, t.normal@), v_dot_n);
            if !(t_min <= tt <= t_max) {
                None
            } else {
                let p = ray_at_spec(r, tt);
                let c1 = vcross(vsub(t.p2@, t.p1@), vsub(p, t.p1@));
                let c2 = vcross(vsub(t.p3@, t.p2@), vsub(p, t.p2@));
                let c3 = vcross(vsub(t.p1@, t.p3@), vsub(p, t.p3@));
                if vdot(t.normal@, c1) < 0 || vdot(t.normal@, c2) < 0 || vdot(t.normal@, c3) < 0 {
                    None
                } else {
                    let area = div_fx(
                        vlen(vcross(vsub(t.p2@, t.p1@), vsub(t.p3@, t.p1@))),
                        TWO_FX as int,
                    );
                    let x = if area != 0 {
                        div_fx(div_fx(vlen(c2), TWO_FX as int), area)
                    } else {
                        0
                    };
                    let y = if area != 0 {
                        div_fx(div_fx(vlen(c3), TWO_FX as int), area)
                    } else {
                        0
                    };
                    let n = tri_shading_normal(t, x, y, area);
                    if vlen2(n) == 0 {
                        None
                    } else {
                        let oriented = orient_normal(r, vunit(n));
                        Some(
                            RecV {
                                t: tt,
                                point: p,
                                normal: oriented.0,
                                outside_face: oriented.1,
                                material: t.material,
                            },
                        )
                    }
                }
            }
        }
    }
}

impl Triangle {
    /// The bounding box matches the vertices (so it is a nonempty box).
    pub open spec fn wf(self) -> bool {
        self.bounds@ == tri_bounds(self.p1@, self.p2@, self.p3@)
    }

    pub proof fn lemma_wf_box(self)
        requires
            self.wf(),
        ensures
            box_wf(self.bounds@),
    {
    }

    pub fn new(p1: Vec3, p2: Vec3, p3: Vec3, material: Material) -> (t: Triangle)
        ensures
            t.wf(),
            t.p1 == p1 && t.p2 == p2 && t.p3 == p3,
            t.material == material,
            t.e1@ == vsub(p2@, p1@),
            t.e2@ == vsub(p3@, p1@),
            t.normal@ == vcross(vsub(p2@, p1@), vsub(p3@, p1@)),
            t.n1 is None && t.n2 is None && t.n3 is None,
    {
        let e1: Vec3 = p2.sub(p1);
        let e2: Vec3 = p3.sub(p1);
        let normal: Vec3 = Vec3::cross(e1, e2);
        let mut bounds: AABB = AABB::default();
        bounds.add(p1);
        bounds.add(p2);
        bounds.add(p3);
        Triangle {
            p1,
            p2,
            p3,
            e1,
            e2,
            normal,
            bounds,
            material,
            n1: None,
            n2: None,
            n3: None,
        }
    }

    /// The hit in `[t_min, t_max]`, after the box pre-test.
    pub fn ray_hit(&self, ray: &Ray, t_min: i64, t_max: i64) -> (res: Option<Record>)
        requires
            self.wf(),
        ensures
            opt_rec_view(res) == triangle_hit_spec(*self, ray@, t_min as int, t_max as int),
    {
        if !self.bounds.hit(ray) {
            return None;
        }
        let v_dot_n: i64 = Vec3::dot(ray.direction(), self.normal);
        if v_dot_n == 0 {
            return None;
        }
        let qp: Vec3 = self.p1.sub(ray.origin());
        let tt: i64 = crate::fixed::div_fx_e(Vec3::dot(qp, self.normal), v_dot_n);
        if t_min > tt || tt > t_max {
            return None;
        }
        let p: Vec3 = ray.ray_at(tt);
        let c1: Vec3 = Vec3::cross(self.p2.sub(self.p1), p.sub(self.p1));
        let c2: Vec3 = Vec3::cross(self.p3.sub(self.p2), p.sub(self.p2));
        let c3: Vec3 = Vec3::cross(self.p1.sub(self.p3), p.sub(self.p3));
        if Vec3::dot(self.normal, c1) < 0 || Vec3::dot(self.normal, c2) < 0 || Vec3::dot(
            self.normal,
            c3,
        ) < 0 {
            return None;
        }
        let area: i64 = crate::fixed::div_fx_e(
            Vec3::cross(self.p2.sub(self.p1), self.p3.sub(self.p1)).length(),
            TWO_FX,
        );
        let x: i64 = if area != 0 {
            crate::fixed::div_fx_e(crate::fixed::div_fx_e(c2.length(), TWO_FX), area)
        } else {
            0
        };
        let y: i64 = if area != 0 {
            crate::fixed::div_fx_e(crate::fixed::div_fx_e(c3.length(), TWO_FX), area)
        } else {
            0
        };
        let n: Vec3 = match (self.n1, self.n2, self.n3) {
            (Some(n1), Some(n2), Some(n3)) => {
                if area != 0 {
                    n3.scale(crate::fixed::sat_i64(UNIT as i128 - x as i128 - y as i128)).add(
                        n1.scale(x),
                    ).add(n2.scale(y))
                } else {
                    self.normal
                }
            },
            _ => self.normal,
        };
        proof {
            lemma_vlen2_nonneg(n@);
            assert(n@ == tri_shading_normal(*self, x as int, y as int, area as int));
        }
        if n.len2() == 0 {
            return None;
        }
        proof {
            lemma_vlen_pos(n@);
        }
        let mut rec: Record = Record::new();
        rec.t = tt;
        rec.point = p;
        rec.material = self.material;
        rec.calculate_normal(ray, n.unit());
        Some(rec)
    }

    pub fn bounds(&self) -> (b: AABB)
        ensures
            b@ == self.bounds@,
    {
        self.bounds
    }

    /// The average of the three vertices.
    pub fn centroid(&self) -> (c: Vec3)
        ensures
            c@ == vdiv3(self.p1@, self.p2@, self.p3@),
    {
        self.p1.add(self.p2).add(self.p3).div(3 * UNIT)
    }
}

/// The centroid of three points: their sum scaled by one third.
pub open spec fn vdiv3(p1: V3, p2: V3, p3: V3) -> V3 {
    crate::vec3::vdiv(vadd(vadd(p1, p2), p3), 3 * (UNIT as int))
}

} // verus!
