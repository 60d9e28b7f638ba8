//! Axis-aligned bounding boxes with an exact slab ray-rejection test.
//!
//! The slab test works on exact rationals: for each axis the entry and exit
//! parameters are the quotients `(corner - origin) / direction`, kept as
//! numerator/denominator pairs (or signed infinities for axis-parallel rays)
//! and compared by cross-multiplication, so no rounding enters the test.

use vstd::prelude::*;

use crate::fixed::lemma_mul_bound;
use crate::ray::{Ray, RayV};
use crate::vec3::{V3, Vec3};

verus! {

/// Sentinel corners of the empty box: any join leaves the other box as is.
pub const INF: i64 = i64::MAX;

pub const NEG_INF: i64 = i64::MIN;

/// Mathematical view of a box: two corner vectors.
pub ghost struct B3 {
    pub min: V3,
    pub max: V3,
}

#[derive(Clone, Copy, Debug)]
pub struct AABB {
    pub min: Vec3,
    pub max: Vec3,
}

impl View for AABB {
    type V = B3;

    open spec fn view(&self) -> B3 {
        B3 { min: self.min@, max: self.max@ }
    }
}

/// The view of the empty box.
pub open spec fn empty_box() -> B3 {
    B3 {
        min: V3 { x: INF as int, y: INF as int, z: INF as int },
        max: V3 { x: NEG_INF as int, y: NEG_INF as int, z: NEG_INF as int },
    }
}

pub open spec fn mini(a: int, b: int) -> int {
    if a <= b {
        a
    } else {
        b
    }
}

pub open spec fn maxi(a: int, b: int) -> int {
    if a <= b {
        b
    } else {
        a
    }
}

/// Component of a vector selected by axis index 0, 1 or 2.
pub open spec fn axis(v: V3, i: int) -> int {
    if i == 0 {
        v.x
    } else if i == 1 {
        v.y
    } else {
        v.z
    }
}

/// A box that holds at least one point: min and max ordered on every axis.
pub open spec fn box_wf(b: B3) -> bool {
    forall|i: int| 0 <= i < 3 ==> axis(b.min, i) <= axis(b.max, i)
}

/// The box expanded to include a point.
pub open spec fn box_add(b: B3, p: V3) -> B3 {
    B3 {
        min: V3 { x: mini(b.min.x, p.x), y: mini(b.min.y, p.y), z: mini(b.min.z, p.z) },
        max: V3 { x: maxi(b.max.x, p.x), y: maxi(b.max.y, p.y), z: maxi(b.max.z, p.z) },
    }
}

/// Union of two boxes: the component-wise min of mins and max of maxes.
pub open spec fn box_join(a: B3, b: B3) -> B3 {
    B3 {
        min: V3 { x: mini(a.min.x, b.min.x), y: mini(a.min.y, b.min.y), z: mini(a.min.z, b.min.z) },
        max: V3 { x: maxi(a.max.x, b.max.x), y: maxi(a.max.y, b.max.y), z: maxi(a.max.z, b.max.z) },
    }
}

/// `big` encloses `small` on every axis.
pub open spec fn box_contains(big: B3, small: B3) -> bool {
    forall|i: int|
        0 <= i < 3 ==> axis(big.min, i) <= axis(small.min, i) && axis(small.max, i) <= axis(
            big.max,
            i,
        )
}

/// One end of a rational parameter interval: finite `num / den` with
/// `den > 0`, or an infinity.
pub ghost enum End {
    Neg,
    Fin { num: int, den: int },
    Pos,
}

/// Total order on interval ends, by cross-multiplication on finite ones.
pub open spec fn end_le(a: End, b: End) -> bool {
    match (a, b) {
        (End::Neg, _) => true,
        (_, End::Pos) => true,
        (End::Pos, _) => false,
        (_, End::Neg) => false,
        (End::Fin { num: p1, den: q1 }, End::Fin { num: p2, den: q2 }) => p1 * q2 <= p2 * q1,
    }
}

pub open spec fn end_min(a: End, b: End) -> End {
    if end_le(a, b) {
        a
    } else {
        b
    }
}

pub open spec fn end_max(a: End, b: End) -> End {
    if end_le(a, b) {
        b
    } else {
        a
    }
}

/// The rational `num / d` as an end with positive denominator.
pub open spec fn fin_quot(num: int, d: int) -> End
    recommends
        d != 0,
{
    if d > 0 {
        End::Fin { num, den: d }
    } else {
        End::Fin { num: -num, den: -d }
    }
}

/// Ends used by the comparisons: positive denominator, and magnitudes from
/// differences of `i64` values, so cross-products fit in `i128`.
pub open spec fn end_bounded(e: End) -> bool {
    match e {
        End::Fin { num, den } => 1 <= den <= 0x8000_0000_0000_0000
            && -0xffff_ffff_ffff_ffff <= num <= 0xffff_ffff_ffff_ffff,
        _ => true,
    }
}

/// The ordered pair of slab-interval ends for one axis: the two corner
/// quotients in either order, normalized by a rational min/max; for an
/// axis-parallel ray the interval is everything or nothing, by whether the
/// origin lies between the slabs.
pub open spec fn axis_ends(cmin: int, cmax: int, o: int, d: int) -> (End, End) {
    if d == 0 {
        if cmin <= o && o <= cmax {
            (End::Neg, End::Pos)
        } else {
            (End::Pos, End::Neg)
        }
    } else {
        let q0 = fin_quot(cmin - o, d);
        let q1 = fin_quot(cmax - o, d);
        (end_min(q0, q1), end_max(q0, q1))
    }
}

pub open spec fn slab_lo(b: B3, r: RayV, i: int) -> End {
    axis_ends(axis(b.min, i), axis(b.max, i), axis(r.origin, i), axis(r.direction, i)).0
}

pub open spec fn slab_hi(b: B3, r: RayV, i: int) -> End {
    axis_ends(axis(b.min, i), axis(b.max, i), axis(r.origin, i), axis(r.direction, i)).1
}

/// The slab test: the three per-axis parameter intervals intersect, which
/// holds exactly when every lower end is at most every upper end.
pub open spec fn slab_hit(b: B3, r: RayV) -> bool {
    forall|i: int, j: int|
        0 <= i < 3 && 0 <= j < 3 ==> #[trigger] end_le(slab_lo(b, r, i), slab_hi(b, r, j))
}

/// Transitivity of the end order (for positive denominators).
pub proof fn lemma_end_le_trans(a: End, b: End, c: End)
    requires
        end_le(a, b),
        end_le(b, c),
        (b is Fin) ==> b->den > 0,
        (a is Fin) ==> a->den > 0,
        (c is Fin) ==> c->den > 0,
    ensures
        end_le(a, c),
{
    if (a is Fin) && (b is Fin) && (c is Fin) {
        let (p1, q1) = (a->num, a->den);
        let (p2, q2) = (b->num, b->den);
        let (p3, q3) = (c->num, c->den);
        assert(p1 * q3 <= p3 * q1) by (nonlinear_arith)
            requires
                p1 * q2 <= p2 * q1,
                p2 * q3 <= p3 * q2,
                q1 > 0,
                q2 > 0,
                q3 > 0,
        {
        }
    }
}

/// Widening the slab on one axis moves its lower end down and its upper end
/// up (in the rational order).
proof fn lemma_axis_widen(cmin2: int, cmax2: int, cmin: int, cmax: int, o: int, d: int)
    requires
        cmin2 <= cmin,
        cmax <= cmax2,
        cmin <= cmax,
    ensures
        end_le(axis_ends(cmin2, cmax2, o, d).0, axis_ends(cmin, cmax, o, d).0),
        end_le(axis_ends(cmin, cmax, o, d).1, axis_ends(cmin2, cmax2, o, d).1),
{
    if d != 0 {
        assert forall|p1: int, p2: int, q: int| #![trigger p1 * q, p2 * q]
            p1 <= p2 && q > 0 implies p1 * q <= p2 * q by {
            lemma_mul_mono(p1, p2, q);
        }
    }
}

proof fn lemma_mul_mono(p1: int, p2: int, q: int)
    by (nonlinear_arith)
    requires
        p1 <= p2,
        q > 0,
    ensures
        p1 * q <= p2 * q,
{
}

proof fn lemma_mul_le_iff(p0: int, p1: int, q: int)
    by (nonlinear_arith)
    requires
        q > 0,
    ensures
        (p0 <= p1) == (p0 * q <= p1 * q),
{
}

/// The prune step of the traversal is sound: a ray that passes the slab test
/// of an enclosed box passes it for the enclosing box too.
pub proof fn lemma_slab_monotone(big: B3, small: B3, r: RayV)
    requires
        box_contains(big, small),
        box_wf(small),
        slab_hit(small, r),
    ensures
        slab_hit(big, r),
{
    assert forall|i: int, j: int| 0 <= i < 3 && 0 <= j < 3 implies #[trigger] end_le(
        slab_lo(big, r, i),
        slab_hi(big, r, j),
    ) by {
        lemma_axis_widen(
            axis(big.min, i),
            axis(big.max, i),
            axis(small.min, i),
            axis(small.max, i),
            axis(r.origin, i),
            axis(r.direction, i),
        );
        lemma_axis_widen(
            axis(big.min, j),
            axis(big.max, j),
            axis(small.min, j),
            axis(small.max, j),
            axis(r.origin, j),
            axis(r.direction, j),
        );
        assert(end_le(slab_lo(small, r, i), slab_hi(small, r, j)));
        lemma_ends_wf(big, r, i);
        lemma_ends_wf(small, r, i);
        lemma_ends_wf(small, r, j);
        lemma_ends_wf(big, r, j);
        lemma_end_le_trans(slab_lo(big, r, i), slab_lo(small, r, i), slab_hi(small, r, j));
        lemma_end_le_trans(slab_lo(big, r, i), slab_hi(small, r, j), slab_hi(big, r, j));
    }
}

/// Slab ends always carry positive denominators.
proof fn lemma_ends_wf(b: B3, r: RayV, i: int)
    ensures
        (slab_lo(b, r, i) is Fin) ==> slab_lo(b, r, i)->den > 0,
        (slab_hi(b, r, i) is Fin) ==> slab_hi(b, r, i)->den > 0,
{
}

/// The union of boxes is commutative.
pub proof fn lemma_join_comm(a: B3, b: B3)
    ensures
        box_join(a, b) == box_join(b, a),
{
}

/// The union of boxes is associative.
pub proof fn lemma_join_assoc(a: B3, b: B3, c: B3)
    ensures
        box_join(box_join(a, b), c) == box_join(a, box_join(b, c)),
{
}

/// The joined box is exactly the component-wise min of the mins and max of
/// the maxes of its two inputs.
pub proof fn lemma_join_minmax(a: B3, b: B3)
    ensures
        forall|i: int|
            0 <= i < 3 ==> axis(box_join(a, b).min, i) == mini(axis(a.min, i), axis(b.min, i)),
        forall|i: int|
            0 <= i < 3 ==> axis(box_join(a, b).max, i) == maxi(axis(a.max, i), axis(b.max, i)),
{
}

/// The joined box encloses both inputs, and any common container encloses it.
pub proof fn lemma_join_contains(a: B3, b: B3)
    ensures
        box_contains(box_join(a, b), a),
        box_contains(box_join(a, b), b),
{
}

/// Index permutation applied to a vector.
pub open spec fn vperm(v: V3, p0: int, p1: int, p2: int) -> V3 {
    V3 { x: axis(v, p0), y: axis(v, p1), z: axis(v, p2) }
}

pub open spec fn sel(p0: int, p1: int, p2: int, i: int) -> int {
    if i == 0 {
        p0
    } else if i == 1 {
        p1
    } else {
        p2
    }
}

/// The slab test is symmetric under a joint permutation of the axes of the
/// box and the ray.
pub proof fn lemma_slab_hit_axis_permutation(b: B3, r: RayV, p0: int, p1: int, p2: int)
    requires
        0 <= p0 < 3,
        0 <= p1 < 3,
        0 <= p2 < 3,
        p0 != p1,
        p1 != p2,
        p0 != p2,
    ensures
        slab_hit(
            B3 { min: vperm(b.min, p0, p1, p2), max: vperm(b.max, p0, p1, p2) },
            RayV {
                origin: vperm(r.origin, p0, p1, p2),
                direction: vperm(r.direction, p0, p1, p2),
            },
        ) == slab_hit(b, r),
{
    let bp = B3 { min: vperm(b.min, p0, p1, p2), max: vperm(b.max, p0, p1, p2) };
    let rp = RayV {
        origin: vperm(r.origin, p0, p1, p2),
        direction: vperm(r.direction, p0, p1, p2),
    };
    assert forall|i: int| 0 <= i < 3 implies #[trigger] slab_lo(bp, rp, i) == slab_lo(
        b,
        r,
        sel(p0, p1, p2, i),
    ) && slab_hi(bp, rp, i) == slab_hi(b, r, sel(p0, p1, p2, i)) by {
    }
    if slab_hit(b, r) {
        assert forall|i: int, j: int| 0 <= i < 3 && 0 <= j < 3 implies #[trigger] end_le(
            slab_lo(bp, rp, i),
            slab_hi(bp, rp, j),
        ) by {
            assert(end_le(slab_lo(b, r, sel(p0, p1, p2, i)), slab_hi(b, r, sel(p0, p1, p2, j))));
        }
    }
    if slab_hit(bp, rp) {
        assert forall|i: int, j: int| 0 <= i < 3 && 0 <= j < 3 implies #[trigger] end_le(
            slab_lo(b, r, i),
            slab_hi(b, r, j),
        ) by {
            let ii = if p0 == i {
                0int
            } else if p1 == i {
                1int
            } else {
                2int
            };
            let jj = if p0 == j {
                0int
            } else if p1 == j {
                1int
            } else {
                2int
            };
            assert(sel(p0, p1, p2, ii) == i);
            assert(sel(p0, p1, p2, jj) == j);
            assert(end_le(slab_lo(bp, rp, ii), slab_hi(bp, rp, jj)));
        }
    }
}

/// Computing the two corner parameters of an axis in either order gives the
/// same normalized interval ends.
pub proof fn lemma_axis_ends_swap(cmin: int, cmax: int, o: int, d: int)
    requires
        d != 0,
    ensures
        axis_ends(cmin, cmax, o, d) == axis_ends(cmax, cmin, o, d),
{
    let q0 = fin_quot(cmin - o, d);
    let q1 = fin_quot(cmax - o, d);
    let qd = if d > 0 {
        d
    } else {
        -d
    };
    assert(q0->den == qd && q1->den == qd);
    if end_le(q0, q1) && end_le(q1, q0) {
        assert(q0->num == q1->num) by (nonlinear_arith)
            requires
                q0->num * q1->den <= q1->num * q0->den,
                q1->num * q0->den <= q0->num * q1->den,
                q0->den == q1->den,
                q0->den > 0,
        {
        }
    }
}

/// Executable interval end.
pub enum EndE {
    Neg,
    Fin(i128, i128),
    Pos,
}

pub open spec fn end_of(e: EndE) -> End {
    match e {
        EndE::Neg => End::Neg,
        EndE::Fin(num, den) => End::Fin { num: num as int, den: den as int },
        EndE::Pos => End::Pos,
    }
}

/// The interval ends of one axis, computed exactly.
fn axis_ends_e(cmin: i64, cmax: i64, o: i64, d: i64) -> (r: (EndE, EndE))
    ensures
        end_of(r.0) == axis_ends(cmin as int, cmax as int, o as int, d as int).0,
        end_of(r.1) == axis_ends(cmin as int, cmax as int, o as int, d as int).1,
        end_bounded(end_of(r.0)),
        end_bounded(end_of(r.1)),
{
    if d == 0 {
        if cmin <= o && o <= cmax {
            (EndE::Neg, EndE::Pos)
        } else {
            (EndE::Pos, EndE::Neg)
        }
    } else {
        let p0: i128;
        let p1: i128;
        let q: i128;
        if d > 0 {
            p0 = cmin as i128 - o as i128;
            p1 = cmax as i128 - o as i128;
            q = d as i128;
        } else {
            p0 = o as i128 - cmin as i128;
            p1 = o as i128 - cmax as i128;
            q = -(d as i128);
        }
        proof {
            lemma_mul_le_iff(p0 as int, p1 as int, q as int);
        }
        if p0 <= p1 {
            (EndE::Fin(p0, q), EndE::Fin(p1, q))
        } else {
            (EndE::Fin(p1, q), EndE::Fin(p0, q))
        }
    }
}

/// One exact rational comparison of interval ends.
fn end_le_e(a: &EndE, b: &EndE) -> (r: bool)
    requires
        end_bounded(end_of(*a)),
        end_bounded(end_of(*b)),
    ensures
        r == end_le(end_of(*a), end_of(*b)),
{
    match (a, b) {
        (EndE::Neg, _) => true,
        (_, EndE::Pos) => true,
        (EndE::Pos, _) => false,
        (_, EndE::Neg) => false,
        (EndE::Fin(p1, q1), EndE::Fin(p2, q2)) => {
            proof {
                lemma_mul_bound(
                    *p1 as int,
                    *q2 as int,
                    0xffff_ffff_ffff_ffff,
                    0x8000_0000_0000_0000,
                );
                lemma_mul_bound(
                    *p2 as int,
                    *q1 as int,
                    0xffff_ffff_ffff_ffff,
                    0x8000_0000_0000_0000,
                );
            }
            *p1 * *q2 <= *p2 * *q1
        },
    }
}

impl AABB {
    /// The empty box: joins and adds leave the other operand unchanged.
    pub fn default() -> (r: AABB)
        ensures
            r@ == (B3 {
                min: V3 { x: INF as int, y: INF as int, z: INF as int },
                max: V3 { x: NEG_INF as int, y: NEG_INF as int, z: NEG_INF as int },
            }),
    {
        AABB {
            min: Vec3 { x: INF, y: INF, z: INF },
            max: Vec3 { x: NEG_INF, y: NEG_INF, z: NEG_INF },
        }
    }

    pub fn new(min: Vec3, max: Vec3) -> (r: AABB)
        ensures
            r@ == (B3 { min: min@, max: max@ }),
    {
        AABB { min, max }
    }

    /// Expand the box to include a point.
    pub fn add(&mut self, point: Vec3)
        ensures
            final(self)@ == box_add(old(self)@, point@),
    {
        if point.x < self.min.x {
            self.min.x = point.x;
        }
        if point.y < self.min.y {
            self.min.y = point.y;
        }
        if point.z < self.min.z {
            self.min.z = point.z;
        }
        if point.x > self.max.x {
            self.max.x = point.x;
        }
        if point.y > self.max.y {
            self.max.y = point.y;
        }
        if point.z > self.max.z {
            self.max.z = point.z;
        }
    }

    /// Expand the box to include another box.
    pub fn join(&mut self, existing: &AABB)
        ensures
            final(self)@ == box_join(old(self)@, existing@),
    {
        if existing.min.x < self.min.x {
            self.min.x = existing.min.x;
        }
        if existing.min.y < self.min.y {
            self.min.y = existing.min.y;
        }
        if existing.min.z < self.min.z {
            self.min.z = existing.min.z;
        }
        if existing.max.x > self.max.x {
            self.max.x = existing.max.x;
        }
        if existing.max.y > self.max.y {
            self.max.y = existing.max.y;
        }
        if existing.max.z > self.max.z {
            self.max.z = existing.max.z;
        }
    }

    /// The slab test, exact: true when the three per-axis parameter
    /// intervals of the ray against the box have a common point.
    pub fn hit(&self, ray: &Ray) -> (res: bool)
        ensures
            res == slab_hit(self@, ray@),
    {
        let (lx, hx) = axis_ends_e(self.min.x, self.max.x, ray.origin.x, ray.direction.x);
        let (ly, hy) = axis_ends_e(self.min.y, self.max.y, ray.origin.y, ray.direction.y);
        let (lz, hz) = axis_ends_e(self.min.z, self.max.z, ray.origin.z, ray.direction.z);
        let res = end_le_e(&lx, &hx) && end_le_e(&lx, &hy) && end_le_e(&lx, &hz) && end_le_e(
            &ly,
            &hx,
        ) && end_le_e(&ly, &hy) && end_le_e(&ly, &hz) && end_le_e(&lz, &hx) && end_le_e(&lz, &hy)
            && end_le_e(&lz, &hz);
        proof {
            let b = self@;
            let r = ray@;
            assert(end_of(lx) == slab_lo(b, r, 0) && end_of(hx) == slab_hi(b, r, 0));
            assert(end_of(ly) == slab_lo(b, r, 1) && end_of(hy) == slab_hi(b, r, 1));
            assert(end_of(lz) == slab_lo(b, r, 2) && end_of(hz) == slab_hi(b, r, 2));
            if res {
                assert forall|i: int, j: int| 0 <= i < 3 && 0 <= j < 3 implies #[trigger] end_le(
                    slab_lo(b, r, i),
                    slab_hi(b, r, j),
                ) by {
                }
            } else {
                assert(!slab_hit(b, r)) by {
                    if slab_hit(b, r) {
                        assert(end_le(slab_lo(b, r, 0), slab_hi(b, r, 0)));
                        assert(end_le(slab_lo(b, r, 0), slab_hi(b, r, 1)));
                        assert(end_le(slab_lo(b, r, 0), slab_hi(b, r, 2)));
                        assert(end_le(slab_lo(b, r, 1), slab_hi(b, r, 0)));
                        assert(end_le(slab_lo(b, r, 1), slab_hi(b, r, 1)));
                        assert(end_le(slab_lo(b, r, 1), slab_hi(b, r, 2)));
                        assert(end_le(slab_lo(b, r, 2), slab_hi(b, r, 0)));
                        assert(end_le(slab_lo(b, r, 2), slab_hi(b, r, 1)));
                        assert(end_le(slab_lo(b, r, 2), slab_hi(b, r, 2)));
                    }
                }
            }
        }
        res
    }
}

} // verus!
