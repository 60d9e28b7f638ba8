//! A triangle mesh: a list of triangles scanned as one object, with a
//! joined bounding box.  Loading mesh files into triangle lists is a
//! caller's concern; the mesh itself only intersects.

use vstd::prelude::*;

use crate::aabb::{box_contains, AABB};
use crate::hittable::{opt_rec_view, RecV, Record};
use crate::ray::{Ray, RayV};
use crate::triangle::{triangle_hit_spec, Triangle};

verus! {

/// Closest hit over the first `n` triangles, first-found among ties.
pub open spec fn scan_tris(tris: Seq<Triangle>, r: RayV, t_min: int, t_max: int, n: int) -> Option<
    RecV,
>
    decreases n,
{
    if n <= 0 {
        None
    } else {
        let prev = scan_tris(tris, r, t_min, t_max, n - 1);
        match triangle_hit_spec(tris[n - 1], r, t_min, t_max) {
            None => prev,
            Some(g) => match prev {
                None => Some(g),
                Some(pg) => if g.t < pg.t {
                    Some(g)
                } else {
                    prev
                },
            },
        }
    }
}

pub struct TriMesh {
    pub triangles: Vec<Triangle>,
    pub bounds: AABB,
}

impl TriMesh {
    pub open spec fn wf(self) -> bool {
        forall|k: int| 0 <= k < self.triangles@.len() ==> (#[trigger] self.triangles@[k]).wf()
    }

    /// A mesh from an already-loaded triangle list; the box is the join
    /// of the triangles' boxes.
    pub fn new(triangles: Vec<Triangle>) -> (m: TriMesh)
        ensures
            m.triangles == triangles,
            forall|k: int|
                0 <= k < triangles@.len() ==> box_contains(
                    m.bounds@,
                    (#[trigger] triangles@[k]).bounds@,
                ),
    {
        let mut bounds: AABB = AABB::default();
        let mut k: usize = 0;
        let n: usize = triangles.len();
        while k < n
            invariant
                0 <= k <= n,
                n == triangles@.len(),
                forall|j: int|
                    0 <= j < k ==> box_contains(bounds@, (#[trigger] triangles@[j]).bounds@),
            decreases n - k,
        {
            let ghost bold = bounds@;
            let tb: AABB = triangles[k].bounds;
            bounds.join(&tb);
            proof {
                crate::aabb::lemma_join_contains(bold, tb@);
                assert forall|j: int|
                    0 <= j < k + 1 implies box_contains(
                    bounds@,
                    (#[trigger] triangles@[j]).bounds@,
                ) by {
                    if j < k {
                        crate::bvh::lemma_box_contains_trans(
                            bounds@,
                            bold,
                            triangles@[j].bounds@,
                        );
                    }
                }
            }
            k = k + 1;
        }
        TriMesh { triangles, bounds }
    }

    /// The closest triangle hit in `[t_min, t_max]`, by plain scan.
    pub fn ray_hit(&self, ray: &Ray, t_min: i64, t_max: i64) -> (res: Option<Record>)
        requires
            self.wf(),
        ensures
            opt_rec_view(res) == scan_tris(
                self.triangles@,
                ray@,
                t_min as int,
                t_max as int,
                self.triangles@.len() as int,
            ),
    {
        let mut best: Option<Record> = None;
        let mut i: usize = 0;
        let n: usize = self.triangles.len();
        while i < n
            invariant
                0 <= i <= n,
                n == self.triangles@.len(),
                self.wf(),
                opt_rec_view(best) == scan_tris(
                    self.triangles@,
                    ray@,
                    t_min as int,
                    t_max as int,
                    i as int,
                ),
            decreases n - i,
        {
            let cur: Option<Record> = self.triangles[i].ray_hit(ray, t_min, t_max);
            match cur {
                Some(c) => {
                    match best {
                        Some(b) => {
                            if c.t < b.t {
                                best = Some(c);
                            }
                        },
                        None => {
                            best = Some(c);
                        },
                    }
                },
                None => {
                },
            }
            i = i + 1;
        }
        best
    }

    pub fn bounds(&self) -> (b: AABB)
        ensures
            b@ == self.bounds@,
    {
        self.bounds
    }
}

} // verus!
