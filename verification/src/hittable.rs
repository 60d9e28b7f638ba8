//! Hit records: what a successful ray-primitive intersection reports.

use vstd::prelude::*;

use crate::aabb::{box_join, AABB};
use crate::material::Material;
use crate::plane::{plane_hit_spec, Plane};
use crate::primitive::{prim_bounds, prim_hit, prim_wf, Primitive};
use crate::ray::{Ray, RayV};
use crate::vec3::{vdot, vneg, V3, Vec3};

verus! {

/// Mathematical view of a hit record.
pub ghost struct RecV {
    pub t: int,
    pub point: V3,
    pub normal: V3,
    pub outside_face: bool,
    pub material: Material,
}

/// The result of a successful intersection: parametric distance, hit point,
/// surface normal oriented against the ray, which face was struck, and the
/// material of the primitive that was hit.
#[derive(Clone, Copy, Debug)]
pub struct Record {
    pub t: i64,
    pub point: Vec3,
    pub normal: Vec3,
    pub outside_face: bool,
    pub material: Material,
}

impl View for Record {
    type V = RecV;

    open spec fn view(&self) -> RecV {
        RecV {
            t: self.t as int,
            point: self.point@,
            normal: self.normal@,
            outside_face: self.outside_face,
            material: self.material,
        }
    }
}

/// The outward test: a geometric normal is flipped to face the incoming
/// ray, and the flip is recorded as an inside-face hit.
pub open spec fn orient_normal(r: RayV, n: V3) -> (V3, bool) {
    if vdot(r.direction, n) > 0 {
        (vneg(n), false)
    } else {
        (n, true)
    }
}

/// View of an optional hit.
pub open spec fn opt_rec_view(o: Option<Record>) -> Option<RecV> {
    match o {
        Some(r) => Some(r@),
        None => None,
    }
}

impl Record {
    pub fn new() -> (r: Record)
        ensures
            r@ == (RecV {
                t: 0,
                point: V3 { x: 0, y: 0, z: 0 },
                normal: V3 { x: 0, y: 0, z: 0 },
                outside_face: true,
                material: Material::Empty,
            }),
    {
        Record {
            t: 0,
            point: Vec3 { x: 0, y: 0, z: 0 },
            normal: Vec3 { x: 0, y: 0, z: 0 },
            outside_face: true,
            material: Material::Empty,
        }
    }

    /// Store `normal` oriented to face the incoming ray.
    pub fn calculate_normal(&mut self, ray: &Ray, normal: Vec3)
        ensures
            final(self).normal@ == orient_normal(ray@, normal@).0,
            final(self).outside_face == orient_normal(ray@, normal@).1,
            final(self).t == old(self).t,
            final(self).point == old(self).point,
            final(self).material == old(self).material,
    {
        if Vec3::dot(ray.direction(), normal) > 0 {
            self.normal = normal.neg();
            self.outside_face = false;
        } else {
            self.normal = normal;
            self.outside_face = true;
        }
    }
}

/// Closest-hit order: by parametric distance, then by primitive index, so
/// that among exact ties the first primitive in scene order wins.
pub open spec fn lex_le(t1: int, i1: usize, t2: int, i2: usize) -> bool {
    t1 < t2 || (t1 == t2 && i1 <= i2)
}

/// The hit of the primitive referred to by position `k` of an index list.
pub open spec fn hit_at(
    prims: Seq<Primitive>,
    idxs: Seq<usize>,
    k: int,
    r: RayV,
    t_min: int,
    t_max: int,
) -> Option<RecV> {
    prim_hit(prims[idxs[k] as int], r, t_min, t_max)
}

/// `res` is the closest hit (in the `lex_le` order) among the primitives
/// listed in `idxs`: none hits, or `res` names a listed primitive whose hit
/// it carries and no listed primitive beats it.
pub open spec fn best_of(
    prims: Seq<Primitive>,
    idxs: Seq<usize>,
    r: RayV,
    t_min: int,
    t_max: int,
    res: Option<(RecV, usize)>,
) -> bool {
    match res {
        None => forall|k: int|
            0 <= k < idxs.len() ==> #[trigger] hit_at(prims, idxs, k, r, t_min, t_max) is None,
        Some(pair) => {
            &&& idxs.contains(pair.1)
            &&& (pair.1 as int) < prims.len()
            &&& prim_hit(prims[pair.1 as int], r, t_min, t_max) == Some(pair.0)
            &&& forall|k: int|
                0 <= k < idxs.len() && (#[trigger] hit_at(prims, idxs, k, r, t_min, t_max))
                    is Some ==> lex_le(
                    pair.0.t,
                    pair.1,
                    hit_at(prims, idxs, k, r, t_min, t_max)->Some_0.t,
                    idxs[k],
                )
        },
    }
}

/// Two closest-hit results over index lists naming the same primitives are
/// the same result.
pub proof fn lemma_best_unique(
    prims: Seq<Primitive>,
    idxs1: Seq<usize>,
    idxs2: Seq<usize>,
    r: RayV,
    t_min: int,
    t_max: int,
    r1: Option<(RecV, usize)>,
    r2: Option<(RecV, usize)>,
)
    requires
        best_of(prims, idxs1, r, t_min, t_max, r1),
        best_of(prims, idxs2, r, t_min, t_max, r2),
        forall|v: usize| idxs1.contains(v) <==> idxs2.contains(v),
    ensures
        r1 == r2,
{
    match (r1, r2) {
        (None, None) => {
        },
        (Some(p1), None) => {
            assert(idxs2.contains(p1.1));
            let k = choose|k: int| 0 <= k < idxs2.len() && idxs2[k] == p1.1;
            assert(hit_at(prims, idxs2, k, r, t_min, t_max) is Some);
        },
        (None, Some(p2)) => {
            assert(idxs1.contains(p2.1));
            let k = choose|k: int| 0 <= k < idxs1.len() && idxs1[k] == p2.1;
            assert(hit_at(prims, idxs1, k, r, t_min, t_max) is Some);
        },
        (Some(p1), Some(p2)) => {
            assert(idxs2.contains(p1.1));
            let k1 = choose|k: int| 0 <= k < idxs2.len() && idxs2[k] == p1.1;
            assert(hit_at(prims, idxs2, k1, r, t_min, t_max) is Some);
            assert(lex_le(p2.0.t, p2.1, p1.0.t, p1.1));
            assert(idxs1.contains(p2.1));
            let k2 = choose|k: int| 0 <= k < idxs1.len() && idxs1[k] == p2.1;
            assert(hit_at(prims, idxs1, k2, r, t_min, t_max) is Some);
            assert(lex_le(p1.0.t, p1.1, p2.0.t, p2.1));
            assert(p1.1 == p2.1);
        },
    }
}

/// The full per-primitive scan over the first `n` primitives, closest hit
/// with first-found tie-breaking.
pub open spec fn scan_prims(prims: Seq<Primitive>, r: RayV, t_min: int, t_max: int, n: int) -> Option<
    (RecV, usize),
>
    decreases n,
{
    if n <= 0 {
        None
    } else {
        let prev = scan_prims(prims, r, t_min, t_max, n - 1);
        match prim_hit(prims[n - 1], r, t_min, t_max) {
            None => prev,
            Some(g) => match prev {
                None => Some((g, (n - 1) as usize)),
                Some(pg) => if g.t < pg.0.t {
                    Some((g, (n - 1) as usize))
                } else {
                    prev
                },
            },
        }
    }
}

/// The index list `0, 1, ..., n-1`.
pub open spec fn identity_upto(n: int) -> Seq<usize> {
    Seq::new(n as nat, |i: int| i as usize)
}

/// The scan is the closest hit over the identity index list.
pub proof fn lemma_scan_best(prims: Seq<Primitive>, r: RayV, t_min: int, t_max: int, n: int)
    requires
        0 <= n <= prims.len(),
        n <= usize::MAX,
    ensures
        best_of(prims, identity_upto(n), r, t_min, t_max, scan_prims(prims, r, t_min, t_max, n)),
    decreases n,
{
    if n > 0 {
        lemma_scan_best(prims, r, t_min, t_max, n - 1);
        let prev = scan_prims(prims, r, t_min, t_max, n - 1);
        let cur = scan_prims(prims, r, t_min, t_max, n);
        let small = identity_upto(n - 1);
        let big = identity_upto(n);
        assert forall|k: int| 0 <= k < n - 1 implies hit_at(prims, big, k, r, t_min, t_max)
            == hit_at(prims, small, k, r, t_min, t_max) by {
        }
        assert(hit_at(prims, big, n - 1, r, t_min, t_max) == prim_hit(
            prims[n - 1],
            r,
            t_min,
            t_max,
        ));
        match cur {
            None => {
                assert forall|k: int| 0 <= k < n implies #[trigger] hit_at(
                    prims,
                    big,
                    k,
                    r,
                    t_min,
                    t_max,
                ) is None by {
                    if k < n - 1 {
                        assert(hit_at(prims, small, k, r, t_min, t_max) is None);
                    }
                }
            },
            Some(p) => {
                if prev is Some && p == prev->Some_0 {
                    assert(big[p.1 as int] == p.1);
                    assert(big.contains(p.1));
                } else {
                    assert(big[n - 1] == (n - 1) as usize);
                    assert(big.contains((n - 1) as usize));
                }
                assert forall|k: int|
                    0 <= k < n && (#[trigger] hit_at(prims, big, k, r, t_min, t_max))
                        is Some implies lex_le(
                    p.0.t,
                    p.1,
                    hit_at(prims, big, k, r, t_min, t_max)->Some_0.t,
                    big[k],
                ) by {
                    if k < n - 1 {
                        assert(hit_at(prims, small, k, r, t_min, t_max) is Some);
                    }
                }
            },
        }
    }
}

/// The closest plane hit folded over an already-found primitive hit.
pub open spec fn scan_planes(
    planes: Seq<Plane>,
    r: RayV,
    t_min: int,
    t_max: int,
    n: int,
    acc: Option<RecV>,
) -> Option<RecV>
    decreases n,
{
    if n <= 0 {
        acc
    } else {
        let prev = scan_planes(planes, r, t_min, t_max, n - 1, acc);
        match plane_hit_spec(planes[n - 1], r, t_min, t_max) {
            None => prev,
            Some(g) => match prev {
                None => Some(g),
                Some(pg) => if g.t < pg.t {
                    Some(g)
                } else {
                    prev
                },
            },
        }
    }
}

pub open spec fn first_of(res: Option<(RecV, usize)>) -> Option<RecV> {
    match res {
        Some(p) => Some(p.0),
        None => None,
    }
}

/// The whole-scene result: primitives scanned first, then planes folded in.
pub open spec fn hv_hit_spec(hv: HittableVec, r: RayV, t_min: int, t_max: int) -> Option<RecV> {
    scan_planes(
        hv.planes@,
        r,
        t_min,
        t_max,
        hv.planes@.len() as int,
        first_of(scan_prims(hv.list@, r, t_min, t_max, hv.list@.len() as int)),
    )
}

/// The unaccelerated whole-scene list: every primitive plus the unbounded planes,
/// scanned one by one with no acceleration.
pub struct HittableVec {
    pub list: Vec<Primitive>,
    pub planes: Vec<Plane>,
    pub bounds: AABB,
}

impl HittableVec {
    pub open spec fn wf(self) -> bool {
        forall|k: int| 0 <= k < self.list@.len() ==> prim_wf(#[trigger] self.list@[k])
    }

    pub fn new() -> (r: HittableVec)
        ensures
            r.wf(),
            r.list@.len() == 0,
            r.planes@.len() == 0,
            r.bounds@ == crate::aabb::empty_box(),
    {
        HittableVec { list: Vec::new(), planes: Vec::new(), bounds: AABB::default() }
    }

    pub fn add(&mut self, hittable: Primitive)
        requires
            prim_wf(hittable),
        ensures
            final(self).list@ == old(self).list@.push(hittable),
            final(self).planes@ == old(self).planes@,
            final(self).bounds@ == box_join(old(self).bounds@, prim_bounds(hittable)),
            old(self).wf() ==> final(self).wf(),
    {
        let b: AABB = hittable.bounds();
        self.bounds.join(&b);
        self.list.push(hittable);
    }

    pub fn add_plane(&mut self, plane: Plane)
        ensures
            final(self).planes@ == old(self).planes@.push(plane),
            final(self).list@ == old(self).list@,
            final(self).bounds@ == old(self).bounds@,
            old(self).wf() ==> final(self).wf(),
    {
        self.planes.push(plane);
    }

    pub fn bounds(&self) -> (b: AABB)
        ensures
            b@ == self.bounds@,
    {
        self.bounds
    }

    /// The center of the joined bounding box.
    pub fn centroid(&self) -> (c: Vec3)
        ensures
            c@ == crate::vec3::vscale(
                crate::vec3::vadd(self.bounds@.min, self.bounds@.max),
                crate::rng::HALF_UNIT as int,
            ),
    {
        self.bounds.min.add(self.bounds.max).scale(crate::rng::HALF_UNIT)
    }

    /// The closest hit over everything in the list, by plain scan.
    pub fn ray_hit(&self, ray: &Ray, t_min: i64, t_max: i64) -> (res: Option<Record>)
        requires
            self.wf(),
        ensures
            opt_rec_view(res) == hv_hit_spec(*self, ray@, t_min as int, t_max as int),
    {
        let mut best: Option<Record> = None;
        let mut i: usize = 0;
        let n: usize = self.list.len();
        while i < n
            invariant
                0 <= i <= n,
                n == self.list@.len(),
                self.wf(),
                opt_rec_view(best) == first_of(
                    scan_prims(self.list@, ray@, t_min as int, t_max as int, i as int),
                ),
            decreases n - i,
        {
            let cur: Option<Record> = self.list[i].ray_hit(ray, t_min, t_max);
            match cur {
                Some(c) => {
                    match best {
                        Some(b) => {
                            if c.t < b.t {
                                best = Some(c);
                            }
                        },
                        None => {
                            best = Some(c);
                        },
                    }
                },
                None => {
                },
            }
            i = i + 1;
        }
        let mut j: usize = 0;
        let m: usize = self.planes.len();
        let ghost acc0: Option<RecV> = first_of(
            scan_prims(self.list@, ray@, t_min as int, t_max as int, n as int),
        );
        while j < m
            invariant
                0 <= j <= m,
                m == self.planes@.len(),
                opt_rec_view(best) == scan_planes(
                    self.planes@,
                    ray@,
                    t_min as int,
                    t_max as int,
                    j as int,
                    acc0,
                ),
            decreases m - j,
        {
            let cur: Option<Record> = self.planes[j].ray_hit(ray, t_min, t_max);
            match cur {
                Some(c) => {
                    match best {
                        Some(b) => {
                            if c.t < b.t {
                                best = Some(c);
                            }
                        },
                        None => {
                            best = Some(c);
                        },
                    }
                },
                None => {
                },
            }
            j = j + 1;
        }
        best
    }
}

} // verus!
