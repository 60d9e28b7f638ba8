//! A ray: a point and a direction, with positions along it given by the
//! fixed-point parameter `t` via `origin + t * direction`.

use vstd::prelude::*;

use crate::vec3::{vadd, vscale, V3, Vec3};

verus! {

/// Mathematical view of a ray.
pub ghost struct RayV {
    pub origin: V3,
    pub direction: V3,
}

#[derive(Clone, Copy, Debug)]
pub struct Ray {
    pub origin: Vec3,
    pub direction: Vec3,
}

impl View for Ray {
    type V = RayV;

    open spec fn view(&self) -> RayV {
        RayV { origin: self.origin@, direction: self.direction@ }
    }
}

/// The point at parameter `t` along the ray.
pub open spec fn ray_at_spec(r: RayV, t: int) -> V3 {
    vadd(r.origin, vscale(r.direction, t))
}

impl Ray {
    pub fn new(origin: Vec3, direction: Vec3) -> (r: Ray)
        ensures
            r@ == (RayV { origin: origin@, direction: direction@ }),
    {
        Ray { origin, direction }
    }

    pub fn origin(&self) -> (r: Vec3)
        ensures
            r@ == self@.origin,
    {
        self.origin
    }

    pub fn direction(&self) -> (r: Vec3)
        ensures
            r@ == self@.direction,
    {
        self.direction
    }

    pub fn ray_at(&self, t: i64) -> (r: Vec3)
        ensures
            r@ == ray_at_spec(self@, t as int),
    {
        self.origin.add(self.direction.scale(t))
    }
}

} // verus!
