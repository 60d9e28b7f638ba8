//! The closed set of shapes the accelerated path traces: spheres and
//! triangles, dispatched by pattern matching.

use vstd::prelude::*;

use crate::aabb::{box_wf, slab_hit, AABB, B3};
use crate::hittable::{opt_rec_view, RecV, Record};
use crate::ray::{Ray, RayV};
use crate::sphere::{sphere_hit_spec, Sphere};
use crate::triangle::{triangle_hit_spec, vdiv3, Triangle};
use crate::vec3::{V3, Vec3};

verus! {

#[derive(Clone, Copy, Debug)]
pub enum Primitive {
    Sphere(Sphere),
    Triangle(Triangle),
}

pub open spec fn prim_wf(p: Primitive) -> bool {
    match p {
        Primitive::Sphere(s) => s.wf(),
        Primitive::Triangle(t) => t.wf(),
    }
}

pub open spec fn prim_bounds(p: Primitive) -> B3 {
    match p {
        Primitive::Sphere(s) => s.bounds@,
        Primitive::Triangle(t) => t.bounds@,
    }
}

pub open spec fn prim_centroid(p: Primitive) -> V3 {
    match p {
        Primitive::Sphere(s) => s.center@,
        Primitive::Triangle(t) => vdiv3(t.p1@, t.p2@, t.p3@),
    }
}

/// Opaque at use sites: the traversal and scan reason about hits only
/// through this function's identity, never its body.
#[verifier::opaque]
pub open spec fn prim_hit(p: Primitive, r: RayV, t_min: int, t_max: int) -> Option<RecV> {
    match p {
        Primitive::Sphere(s) => sphere_hit_spec(s, r, t_min, t_max),
        Primitive::Triangle(t) => triangle_hit_spec(t, r, t_min, t_max),
    }
}

/// Every primitive hit has passed the primitive's own box pre-test; this is
/// what makes the box prune of the traversal sound.
pub proof fn lemma_prim_hit_needs_box(p: Primitive, r: RayV, t_min: int, t_max: int)
    requires
        prim_hit(p, r, t_min, t_max) is Some,
    ensures
        slab_hit(prim_bounds(p), r),
{
    reveal(prim_hit);
}

pub proof fn lemma_prim_wf_box(p: Primitive)
    requires
        prim_wf(p),
    ensures
        box_wf(prim_bounds(p)),
{
    match p {
        Primitive::Sphere(s) => s.lemma_wf_box(),
        Primitive::Triangle(t) => t.lemma_wf_box(),
    }
}

impl Primitive {
    pub fn ray_hit(&self, ray: &Ray, t_min: i64, t_max: i64) -> (res: Option<Record>)
        requires
            prim_wf(*self),
        ensures
            opt_rec_view(res) == prim_hit(*self, ray@, t_min as int, t_max as int),
    {
        proof {
            reveal(prim_hit);
        }
        match self {
            Primitive::Sphere(s) => s.ray_hit(ray, t_min, t_max),
            Primitive::Triangle(t) => t.ray_hit(ray, t_min, t_max),
        }
    }

    pub fn bounds(&self) -> (b: AABB)
        ensures
            b@ == prim_bounds(*self),
    {
        match self {
            Primitive::Sphere(s) => s.bounds,
            Primitive::Triangle(t) => t.bounds,
        }
    }

    pub fn centroid(&self) -> (c: Vec3)
        ensures
            c@ == prim_centroid(*self),
    {
        match self {
            Primitive::Sphere(s) => s.centroid(),
            Primitive::Triangle(t) => t.centroid(),
        }
    }
}

} // verus!
