//! The bounding-volume hierarchy: a binary tree over a permuted index
//! array, built once by object-median splits and queried per ray.
//!
//! Well-formedness ties every node's box to the primitives its range
//! holds; the builder permutes only the sub-range it was given and keeps
//! its contents as a multiset, which is what the partition and
//! scan-equivalence results rest on.

use vstd::prelude::*;
use vstd::seq_lib::lemma_multiset_commutative;

use crate::aabb::{box_contains, box_join, AABB, B3};
use crate::fixed::sub_fx;
use crate::hittable::{
    best_of, hit_at, identity_upto, lemma_best_unique, lemma_scan_best, lex_le, opt_rec_view,
    scan_prims, RecV, Record,
};
use crate::primitive::{
    lemma_prim_hit_needs_box, lemma_prim_wf_box, prim_bounds, prim_centroid, prim_hit, prim_wf,
    Primitive,
};
use crate::ray::{Ray, RayV};
use crate::vec3::Vec3;

verus! {

pub struct BVHNode {
    pub bounds: AABB,
    pub left: Option<Box<BVHNode>>,
    pub right: Option<Box<BVHNode>>,
    pub start: usize,
    pub end: usize,
}

/// Containment of boxes composes.
pub proof fn lemma_box_contains_trans(a: B3, b: B3, c: B3)
    requires
        box_contains(a, b),
        box_contains(b, c),
    ensures
        box_contains(a, c),
{
}

/// A node over `[start, end)` of the index array: every indexed primitive
/// is well formed and enclosed by the node's box, and the node is a leaf
/// or has exactly two children that split its range.
pub open spec fn wf_node(n: BVHNode, prims: Seq<Primitive>, idxs: Seq<usize>) -> bool
    decreases n,
{
    &&& n.start < n.end <= idxs.len()
    &&& forall|k: int|
        n.start <= k < n.end ==> (#[trigger] idxs[k] as int) < prims.len() && prim_wf(
            prims[idxs[k] as int],
        ) && box_contains(n.bounds@, prim_bounds(prims[idxs[k] as int]))
    &&& match (n.left, n.right) {
        (None, None) => true,
        (Some(l), Some(r)) => l.start == n.start && l.end == r.start && r.end == n.end && wf_node(
            *l,
            prims,
            idxs,
        ) && wf_node(*r, prims, idxs),
        _ => false,
    }
}

/// Well-formedness reads only the node's own range of the index array.
pub proof fn lemma_wf_stable(n: BVHNode, prims: Seq<Primitive>, idxs1: Seq<usize>, idxs2: Seq<
    usize,
>)
    requires
        wf_node(n, prims, idxs1),
        idxs1.len() == idxs2.len(),
        forall|k: int| n.start <= k < n.end ==> idxs1[k] == #[trigger] idxs2[k],
    ensures
        wf_node(n, prims, idxs2),
    decreases n,
{
    reveal_with_fuel(wf_node, 3);
    match (n.left, n.right) {
        (Some(l), Some(r)) => {
            assert(l.start == n.start && l.end == r.start && r.end == n.end);
            assert(r.start < r.end);
            assert forall|k: int| l.start <= k < l.end implies idxs1[k] == #[trigger] idxs2[k] by {
            }
            assert forall|k: int| r.start <= k < r.end implies idxs1[k] == #[trigger] idxs2[k] by {
            }
            lemma_wf_stable(*l, prims, idxs1, idxs2);
            lemma_wf_stable(*r, prims, idxs1, idxs2);
        },
        _ => {
        },
    }
}

/// The sort key of a position: the chosen axis of the centroid of the
/// primitive it points at.
pub open spec fn key_at(prims: Seq<Primitive>, idxs: Seq<usize>, k: int, ax: int) -> int {
    crate::aabb::axis(prim_centroid(prims[idxs[k] as int]), ax)
}

/// Exchanging two positions of a sequence keeps its multiset.
proof fn lemma_swap_multiset(s: Seq<usize>, i: int, j: int)
    requires
        0 <= i < s.len(),
        0 <= j < s.len(),
        i != j,
    ensures
        s.update(i, s[j]).update(j, s[i]).to_multiset() == s.to_multiset(),
{
    broadcast use vstd::seq_lib::group_to_multiset_ensures;
    broadcast use vstd::multiset::group_multiset_axioms;

    let s1 = s.update(i, s[j]);
    let s2 = s1.update(j, s[i]);
    vstd::seq_lib::to_multiset_update(s, i, s[j]);
    vstd::seq_lib::to_multiset_update(s1, j, s[i]);
    assert(s1[j] == s[j]);
    assert(s2.to_multiset() =~= s.to_multiset());
}

/// A subrange update inside the window updates the window.
proof fn lemma_subrange_update(s: Seq<usize>, start: int, end: int, k: int, v: usize)
    requires
        0 <= start <= k < end <= s.len(),
    ensures
        s.update(k, v).subrange(start, end) == s.subrange(start, end).update(k - start, v),
{
    assert(s.update(k, v).subrange(start, end) =~= s.subrange(start, end).update(k - start, v));
}

/// Exchange two entries of the index array.
fn swap_idx(idxs: &mut Vec<usize>, a: usize, b: usize)
    requires
        a < old(idxs)@.len(),
        b < old(idxs)@.len(),
    ensures
        final(idxs)@ == old(idxs)@.update(a as int, old(idxs)@[b as int]).update(
            b as int,
            old(idxs)@[a as int],
        ),
{
    let x: usize = idxs[a];
    let y: usize = idxs[b];
    idxs[a] = y;
    idxs[b] = x;
}

/// The chosen axis of a primitive's centroid.
fn key_e(primitives: &Vec<Primitive>, v: usize, ax: u8) -> (r: i64)
    requires
        (v as int) < primitives@.len(),
        ax <= 2,
    ensures
        r as int == crate::aabb::axis(prim_centroid(primitives@[v as int]), ax as int),
{
    let c: Vec3 = primitives[v].centroid();
    if ax == 0 {
        c.x
    } else if ax == 1 {
        c.y
    } else {
        c.z
    }
}

/// Selection sort of `idxs[start..end)` by centroid key: the window keeps
/// its contents (as a multiset, drawn from the old window), everything
/// outside is untouched, and the window ends ordered by key.
fn sort_range(primitives: &Vec<Primitive>, idxs: &mut Vec<usize>, start: usize, end: usize, ax: u8)
    requires
        start <= end <= old(idxs)@.len(),
        ax <= 2,
        forall|k: int|
            start <= k < end ==> (#[trigger] old(idxs)@[k] as int) < primitives@.len(),
    ensures
        final(idxs)@.len() == old(idxs)@.len(),
        forall|k: int|
            0 <= k < old(idxs)@.len() && !(start <= k < end) ==> final(idxs)@[k] == #[trigger] old(
                idxs,
            )@[k],
        final(idxs)@.subrange(start as int, end as int).to_multiset() == old(idxs)@.subrange(
            start as int,
            end as int,
        ).to_multiset(),
        forall|k: int|
            start <= k < end ==> old(idxs)@.subrange(start as int, end as int).contains(
                #[trigger] final(idxs)@[k],
            ),
        forall|p: int, q: int|
            start <= p < q < end ==> key_at(primitives@, final(idxs)@, p, ax as int) <= key_at(
                primitives@,
                final(idxs)@,
                q,
                ax as int,
            ),
{
    let ghost orig: Seq<usize> = idxs@;
    let ghost sub0: Seq<usize> = orig.subrange(start as int, end as int);
    let mut i: usize = start;
    proof {
        assert forall|k: int| start <= k < end implies sub0.contains(#[trigger] idxs@[k]) by {
            assert(sub0[k - start] == idxs@[k]);
        }
    }
    while i < end
        invariant
            start <= i <= end <= idxs@.len(),
            idxs@.len() == orig.len(),
            ax <= 2,
            forall|k: int| 0 <= k < orig.len() && !(start <= k < end) ==> idxs@[k] == #[trigger] orig[k],
            idxs@.subrange(start as int, end as int).to_multiset() == sub0.to_multiset(),
            forall|k: int| start <= k < end ==> sub0.contains(#[trigger] idxs@[k]),
            forall|k: int| start <= k < end ==> (#[trigger] idxs@[k] as int) < primitives@.len(),
            forall|p: int, q: int|
                start <= p < q < i ==> key_at(primitives@, idxs@, p, ax as int) <= key_at(
                    primitives@,
                    idxs@,
                    q,
                    ax as int,
                ),
            forall|p: int, q: int|
                start <= p < i <= q < end ==> key_at(primitives@, idxs@, p, ax as int) <= key_at(
                    primitives@,
                    idxs@,
                    q,
                    ax as int,
                ),
        decreases end - i,
    {
        let mut m: usize = i;
        let mut j: usize = i + 1;
        let mut mkey: i64 = key_e(primitives, idxs[i], ax);
        while j < end
            invariant
                start <= i <= m < j <= end <= idxs@.len(),
                ax <= 2,
                forall|k: int| start <= k < end ==> (#[trigger] idxs@[k] as int) < primitives@.len(),
                mkey as int == key_at(primitives@, idxs@, m as int, ax as int),
                forall|q: int|
                    i <= q < j ==> mkey as int <= key_at(primitives@, idxs@, q, ax as int),
            decreases end - j,
        {
            let jkey: i64 = key_e(primitives, idxs[j], ax);
            if jkey < mkey {
                m = j;
                mkey = jkey;
            }
            j = j + 1;
        }
        let ghost before: Seq<usize> = idxs@;
        if m != i {
            swap_idx(idxs, i, m);
            proof {
                lemma_swap_multiset(before, i as int, m as int);
                lemma_subrange_update(before, start as int, end as int, i as int, before[m as int]);
                lemma_subrange_update(
                    before.update(i as int, before[m as int]),
                    start as int,
                    end as int,
                    m as int,
                    before[i as int],
                );
                assert(idxs@.subrange(start as int, end as int).to_multiset() == before.subrange(
                    start as int,
                    end as int,
                ).to_multiset()) by {
                    let bs = before.subrange(start as int, end as int);
                    lemma_swap_multiset(bs, i - start, m - start);
                    assert(idxs@.subrange(start as int, end as int) == bs.update(
                        i - start,
                        bs[m - start],
                    ).update(m - start, bs[i - start]));
                }
            }
        }
        proof {
            let s_now = idxs@;
            assert(key_at(primitives@, s_now, i as int, ax as int) == key_at(
                primitives@,
                before,
                m as int,
                ax as int,
            ));
            assert forall|p: int, q: int|
                start <= p < q < i + 1 implies key_at(primitives@, s_now, p, ax as int) <= key_at(
                primitives@,
                s_now,
                q,
                ax as int,
            ) by {
                if q == i {
                    assert(key_at(primitives@, before, p, ax as int) <= key_at(
                        primitives@,
                        before,
                        m as int,
                        ax as int,
                    ));
                } else {
                    assert(key_at(primitives@, s_now, p, ax as int) == key_at(
                        primitives@,
                        before,
                        p,
                        ax as int,
                    ));
                    assert(key_at(primitives@, before, p, ax as int) <= key_at(
                        primitives@,
                        before,
                        q,
                        ax as int,
                    ));
                }
            }
            assert forall|p: int, q: int|
                start <= p < i + 1 && i + 1 <= q < end implies key_at(
                primitives@,
                s_now,
                p,
                ax as int,
            ) <= key_at(primitives@, s_now, q, ax as int) by {
                if p == i {
                    if q == m {
                        assert(key_at(primitives@, s_now, q, ax as int) == key_at(
                            primitives@,
                            before,
                            i as int,
                            ax as int,
                        ));
                        assert(key_at(primitives@, before, m as int, ax as int) <= key_at(
                            primitives@,
                            before,
                            i as int,
                            ax as int,
                        ));
                    } else {
                        assert(key_at(primitives@, s_now, q, ax as int) == key_at(
                            primitives@,
                            before,
                            q,
                            ax as int,
                        ));
                    }
                } else {
                    if q == m {
                        assert(key_at(primitives@, s_now, q, ax as int) == key_at(
                            primitives@,
                            before,
                            i as int,
                            ax as int,
                        ));
                        assert(key_at(primitives@, before, p, ax as int) <= key_at(
                            primitives@,
                            before,
                            i as int,
                            ax as int,
                        ));
                    } else {
                        assert(key_at(primitives@, s_now, q, ax as int) == key_at(
                            primitives@,
                            before,
                            q,
                            ax as int,
                        ));
                        assert(key_at(primitives@, before, p, ax as int) <= key_at(
                            primitives@,
                            before,
                            q,
                            ax as int,
                        ));
                    }
                }
            }
        }
        i = i + 1;
    }
}

/// The box that encloses every primitive of the range.
fn bounds_of_range(primitives: &Vec<Primitive>, idxs: &Vec<usize>, start: usize, end: usize) -> (b:
    AABB)
    requires
        start <= end <= idxs@.len(),
        forall|k: int| start <= k < end ==> (#[trigger] idxs@[k] as int) < primitives@.len(),
    ensures
        forall|k: int|
            start <= k < end ==> box_contains(b@, prim_bounds(#[trigger] primitives@[idxs@[k] as int])),
{
    let mut b: AABB = AABB::default();
    let mut k: usize = start;
    while k < end
        invariant
            start <= k <= end <= idxs@.len(),
            forall|j: int| start <= j < end ==> (#[trigger] idxs@[j] as int) < primitives@.len(),
            forall|j: int|
                start <= j < k ==> box_contains(
                    b@,
                    prim_bounds(#[trigger] primitives@[idxs@[j] as int]),
                ),
        decreases end - k,
    {
        let ghost bold: B3 = b@;
        let pb: AABB = primitives[idxs[k]].bounds();
        b.join(&pb);
        proof {
            crate::aabb::lemma_join_contains(bold, pb@);
            assert forall|j: int|
                start <= j < k + 1 implies box_contains(
                b@,
                prim_bounds(#[trigger] primitives@[idxs@[j] as int]),
            ) by {
                if j < k {
                    lemma_box_contains_trans(b@, bold, prim_bounds(primitives@[idxs@[j] as int]));
                }
            }
        }
        k = k + 1;
    }
    b
}

/// Concatenating the two halves of a window: multiset equality of the
/// whole window from the equalities of its halves.
proof fn lemma_window_multiset(s1: Seq<usize>, s2: Seq<usize>, start: int, mid: int, end: int)
    requires
        s1.len() == s2.len(),
        0 <= start <= mid <= end <= s1.len(),
        s1.subrange(start, mid).to_multiset() == s2.subrange(start, mid).to_multiset(),
        s1.subrange(mid, end).to_multiset() == s2.subrange(mid, end).to_multiset(),
    ensures
        s1.subrange(start, end).to_multiset() == s2.subrange(start, end).to_multiset(),
{
    assert(s1.subrange(start, end) =~= s1.subrange(start, mid) + s1.subrange(mid, end));
    assert(s2.subrange(start, end) =~= s2.subrange(start, mid) + s2.subrange(mid, end));
    lemma_multiset_commutative(s1.subrange(start, mid), s1.subrange(mid, end));
    lemma_multiset_commutative(s2.subrange(start, mid), s2.subrange(mid, end));
}

impl BVHNode {
    /// Build the tree over `idxs[start..end)`, permuting only that window
    /// of the index array: object-median split on the axis of largest
    /// extent, with a depth cap that closes the range into one leaf.
    pub fn new(
        primitives: &Vec<Primitive>,
        indices: &mut Vec<usize>,
        start: usize,
        end: usize,
        depth: u32,
    ) -> (n: BVHNode)
        requires
            start < end <= old(indices)@.len(),
            forall|k: int|
                start <= k < end ==> (#[trigger] old(indices)@[k] as int) < primitives@.len()
                    && prim_wf(primitives@[old(indices)@[k] as int]),
        ensures
            wf_node(n, primitives@, final(indices)@),
            n.start == start,
            n.end == end,
            final(indices)@.len() == old(indices)@.len(),
            forall|k: int|
                0 <= k < old(indices)@.len() && !(start <= k < end) ==> final(indices)@[k]
                    == #[trigger] old(indices)@[k],
            final(indices)@.subrange(start as int, end as int).to_multiset() == old(
                indices,
            )@.subrange(start as int, end as int).to_multiset(),
        decreases end - start,
    {
        let num_obj: usize = end - start;
        if num_obj == 1 {
            let b: AABB = primitives[indices[start]].bounds();
            let n = BVHNode { bounds: b, left: None, right: None, start, end };
            proof {
                lemma_prim_wf_box(primitives@[indices@[start as int] as int]);
            }
            return n;
        }
        if depth == 0 {
            let b: AABB = bounds_of_range(primitives, indices, start, end);
            return BVHNode { bounds: b, left: None, right: None, start, end };
        }
        let rb: AABB = bounds_of_range(primitives, indices, start, end);
        let ext_x: i64 = sub_fx(rb.max.x, rb.min.x);
        let ext_y: i64 = sub_fx(rb.max.y, rb.min.y);
        let ext_z: i64 = sub_fx(rb.max.z, rb.min.z);
        let mut axis: u8 = 0;
        let mut ext: i64 = ext_x;
        if ext < ext_y {
            axis = 1;
            ext = ext_y;
        }
        if ext < ext_z {
            axis = 2;
        }
        let ghost pre_sort: Seq<usize> = indices@;
        sort_range(primitives, indices, start, end, axis);
        proof {
            assert forall|k: int|
                start <= k < end implies (#[trigger] indices@[k] as int) < primitives@.len()
                && prim_wf(primitives@[indices@[k] as int]) by {
                let sub = pre_sort.subrange(start as int, end as int);
                assert(sub.contains(indices@[k]));
                let j = choose|j: int| 0 <= j < sub.len() && sub[j] == indices@[k];
                assert(pre_sort[start + j] == indices@[k]);
            }
        }
        let ghost post_sort: Seq<usize> = indices@;
        let mid: usize = start + (end - start) / 2;
        let left: BVHNode = BVHNode::new(primitives, indices, start, mid, depth - 1);
        let ghost post_left: Seq<usize> = indices@;
        proof {
            assert forall|k: int|
                mid <= k < end implies (#[trigger] indices@[k] as int) < primitives@.len()
                && prim_wf(primitives@[indices@[k] as int]) by {
                assert(indices@[k] == post_sort[k]);
            }
        }
        let right: BVHNode = BVHNode::new(primitives, indices, mid, end, depth - 1);
        let ghost post_right: Seq<usize> = indices@;
        let left_bounds: AABB = left.bounds;
        let right_bounds: AABB = right.bounds;
        let mut bounds: AABB = AABB::default();
        bounds.join(&left_bounds);
        bounds.join(&right_bounds);
        proof {
            lemma_wf_stable(left, primitives@, post_left, post_right);
            let e0: B3 = crate::aabb::empty_box();
            crate::aabb::lemma_join_contains(e0, left_bounds@);
            crate::aabb::lemma_join_contains(box_join(e0, left_bounds@), right_bounds@);
            lemma_box_contains_trans(
                box_join(box_join(e0, left_bounds@), right_bounds@),
                box_join(e0, left_bounds@),
                left_bounds@,
            );
        }
        let n = BVHNode {
            bounds,
            left: Some(Box::new(left)),
            right: Some(Box::new(right)),
            start,
            end,
        };
        proof {
            assert forall|k: int|
                start <= k < end implies (#[trigger] indices@[k] as int) < primitives@.len()
                && prim_wf(primitives@[indices@[k] as int]) && box_contains(
                n.bounds@,
                prim_bounds(primitives@[indices@[k] as int]),
            ) by {
                if k < mid {
                    assert(box_contains(left_bounds@, prim_bounds(primitives@[indices@[k] as int])));
                    lemma_box_contains_trans(
                        n.bounds@,
                        left_bounds@,
                        prim_bounds(primitives@[indices@[k] as int]),
                    );
                } else {
                    assert(box_contains(
                        right_bounds@,
                        prim_bounds(primitives@[indices@[k] as int]),
                    ));
                    lemma_box_contains_trans(
                        n.bounds@,
                        right_bounds@,
                        prim_bounds(primitives@[indices@[k] as int]),
                    );
                }
            }
            assert(wf_node(n, primitives@, indices@));
            assert(post_right.subrange(start as int, mid as int) =~= post_left.subrange(
                start as int,
                mid as int,
            ));
            assert(post_left.subrange(mid as int, end as int) =~= post_sort.subrange(
                mid as int,
                end as int,
            ));
            lemma_window_multiset(post_right, post_sort, start as int, mid as int, end as int);
        }
        n
    }
}

/// The closer of two closest-hit results, in the `lex_le` order.
pub open spec fn combine_best(r1: Option<(RecV, usize)>, r2: Option<(RecV, usize)>) -> Option<
    (RecV, usize),
> {
    match (r1, r2) {
        (None, _) => r2,
        (Some(p1), None) => r1,
        (Some(p1), Some(p2)) => if lex_le(p1.0.t, p1.1, p2.0.t, p2.1) {
            r1
        } else {
            r2
        },
    }
}

/// The closest-hit result of a single primitive index.
pub open spec fn cand_of(prims: Seq<Primitive>, v: usize, r: RayV, t_min: int, t_max: int) -> Option<
    (RecV, usize),
> {
    match prim_hit(prims[v as int], r, t_min, t_max) {
        None => None,
        Some(g) => Some((g, v)),
    }
}

proof fn lemma_best_single(prims: Seq<Primitive>, v: usize, r: RayV, t_min: int, t_max: int)
    requires
        (v as int) < prims.len(),
    ensures
        best_of(prims, seq![v], r, t_min, t_max, cand_of(prims, v, r, t_min, t_max)),
{
    let s = seq![v];
    assert(s[0] == v);
    match cand_of(prims, v, r, t_min, t_max) {
        None => {
            assert forall|k: int| 0 <= k < s.len() implies #[trigger] hit_at(
                prims,
                s,
                k,
                r,
                t_min,
                t_max,
            ) is None by {
                assert(k == 0);
            }
        },
        Some(p) => {
            assert(s.contains(v));
        },
    }
}

/// The closest hit over a concatenation is the closer of the two halves'
/// closest hits.
proof fn lemma_best_concat(
    prims: Seq<Primitive>,
    s1: Seq<usize>,
    s2: Seq<usize>,
    r: RayV,
    t_min: int,
    t_max: int,
    r1: Option<(RecV, usize)>,
    r2: Option<(RecV, usize)>,
)
    requires
        best_of(prims, s1, r, t_min, t_max, r1),
        best_of(prims, s2, r, t_min, t_max, r2),
    ensures
        best_of(prims, s1 + s2, r, t_min, t_max, combine_best(r1, r2)),
{
    let s = s1 + s2;
    let res = combine_best(r1, r2);
    assert forall|k: int| 0 <= k < s.len() implies hit_at(prims, s, k, r, t_min, t_max) == (if k
        < s1.len() {
        hit_at(prims, s1, k, r, t_min, t_max)
    } else {
        hit_at(prims, s2, k - s1.len(), r, t_min, t_max)
    }) by {
        if k < s1.len() {
            assert(s[k] == s1[k]);
        } else {
            assert(s[k] == s2[k - s1.len()]);
        }
    }
    match res {
        None => {
            assert forall|k: int| 0 <= k < s.len() implies #[trigger] hit_at(
                prims,
                s,
                k,
                r,
                t_min,
                t_max,
            ) is None by {
                if k < s1.len() {
                    assert(hit_at(prims, s1, k, r, t_min, t_max) is None);
                } else {
                    assert(hit_at(prims, s2, k - s1.len(), r, t_min, t_max) is None);
                }
            }
        },
        Some(p) => {
            if r1 is Some && p == r1->Some_0 {
                let k1 = choose|k: int| 0 <= k < s1.len() && s1[k] == p.1;
                assert(s[k1] == p.1);
                assert(s.contains(p.1));
            } else {
                let k2 = choose|k: int| 0 <= k < s2.len() && s2[k] == p.1;
                assert(s[s1.len() + k2] == p.1);
                assert(s.contains(p.1));
            }
            assert forall|k: int|
                0 <= k < s.len() && (#[trigger] hit_at(prims, s, k, r, t_min, t_max))
                    is Some implies lex_le(
                p.0.t,
                p.1,
                hit_at(prims, s, k, r, t_min, t_max)->Some_0.t,
                s[k],
            ) by {
                if k < s1.len() {
                    assert(hit_at(prims, s1, k, r, t_min, t_max) is Some);
                    let q1 = r1->Some_0;
                    assert(lex_le(
                        q1.0.t,
                        q1.1,
                        hit_at(prims, s1, k, r, t_min, t_max)->Some_0.t,
                        s1[k],
                    ));
                } else {
                    assert(hit_at(prims, s2, k - s1.len(), r, t_min, t_max) is Some);
                    let q2 = r2->Some_0;
                    assert(lex_le(
                        q2.0.t,
                        q2.1,
                        hit_at(prims, s2, k - s1.len(), r, t_min, t_max)->Some_0.t,
                        s2[k - s1.len()],
                    ));
                }
            }
        },
    }
}

/// View of an executable (record, index) result.
pub open spec fn opt_pair_view(o: Option<(Record, usize)>) -> Option<(RecV, usize)> {
    match o {
        Some(p) => Some((p.0@, p.1)),
        None => None,
    }
}

/// The index array holds each primitive index below `n` exactly once.
pub open spec fn perm_of(idxs: Seq<usize>, n: int) -> bool {
    &&& idxs.len() == n
    &&& forall|k: int| 0 <= k < idxs.len() ==> (#[trigger] idxs[k] as int) < n
    &&& forall|v: usize| (v as int) < n ==> #[trigger] idxs.to_multiset().count(v) == 1
}

/// An index array with the same contents as a permutation is one.
pub proof fn lemma_perm_preserved(a: Seq<usize>, b: Seq<usize>, n: int)
    requires
        perm_of(a, n),
        b.len() == a.len(),
        b.to_multiset() == a.to_multiset(),
    ensures
        perm_of(b, n),
{
    broadcast use vstd::seq_lib::group_to_multiset_ensures;

    assert forall|k: int| 0 <= k < b.len() implies (#[trigger] b[k] as int) < n by {
        assert(b.contains(b[k]));
        assert(b.to_multiset().count(b[k]) > 0);
        assert(a.contains(b[k]));
    }
}

/// The identity index array is a permutation.
pub proof fn lemma_identity_perm(n: int)
    requires
        0 <= n <= usize::MAX,
    ensures
        perm_of(identity_upto(n), n),
{
    broadcast use vstd::seq_lib::group_to_multiset_ensures;

    let idf = identity_upto(n);
    assert(idf.no_duplicates());
    idf.lemma_multiset_has_no_duplicates();
    assert forall|v: usize| (v as int) < n implies #[trigger] idf.to_multiset().count(v) == 1 by {
        assert(idf[v as int] == v);
        assert(idf.contains(v));
    }
}

/// How many leaves of the subtree carry position `pos` in their range.
pub open spec fn leaf_count(n: BVHNode, pos: int) -> nat
    decreases n,
{
    match (n.left, n.right) {
        (Some(l), Some(r)) => leaf_count(*l, pos) + leaf_count(*r, pos),
        _ => if n.start <= pos < n.end {
            1
        } else {
            0
        },
    }
}

/// The leaf ranges of a well-formed tree tile its root range exactly:
/// every position inside it lies in exactly one leaf, and none outside.
pub proof fn lemma_leaf_partition(
    n: BVHNode,
    prims: Seq<Primitive>,
    idxs: Seq<usize>,
    pos: int,
)
    requires
        wf_node(n, prims, idxs),
    ensures
        leaf_count(n, pos) == if n.start <= pos < n.end {
            1nat
        } else {
            0nat
        },
    decreases n,
{
    match (n.left, n.right) {
        (Some(l), Some(r)) => {
            lemma_leaf_partition(*l, prims, idxs, pos);
            lemma_leaf_partition(*r, prims, idxs, pos);
        },
        _ => {
        },
    }
}

/// Every primitive index appears in exactly one leaf range of a tree over
/// a permutation: it sits at exactly one position of the index array, and
/// that position lies in exactly one leaf.
pub proof fn lemma_bvh_partitions(
    n: BVHNode,
    prims: Seq<Primitive>,
    idxs: Seq<usize>,
    v: usize,
)
    requires
        wf_node(n, prims, idxs),
        n.start == 0,
        n.end == idxs.len(),
        perm_of(idxs, prims.len() as int),
        (v as int) < prims.len(),
    ensures
        exists|pos: int| 0 <= pos < idxs.len() && idxs[pos] == v && leaf_count(n, pos) == 1,
        forall|p1: int, p2: int|
            0 <= p1 < idxs.len() && 0 <= p2 < idxs.len() && idxs[p1] == v && idxs[p2] == v ==> p1
                == p2,
{
    broadcast use vstd::seq_lib::group_to_multiset_ensures;

    assert(idxs.to_multiset().count(v) == 1);
    assert(idxs.to_multiset().contains(v));
    assert(idxs.contains(v));
    let pos = choose|pos: int| 0 <= pos < idxs.len() && idxs[pos] == v;
    lemma_leaf_partition(n, prims, idxs, pos);
    assert(idxs[pos] == v && leaf_count(n, pos) == 1);
    idxs.lemma_multiset_has_no_duplicates_conv();
}

/// Build a tree over a whole scene: fresh identity indices, then the
/// recursive build.  The result carries everything a query needs: a
/// well-formed root covering the array, over a permutation.
pub fn build_bvh(primitives: &Vec<Primitive>, depth: u32) -> (r: (BVHNode, Vec<usize>))
    requires
        primitives@.len() >= 1,
        forall|k: int| 0 <= k < primitives@.len() ==> prim_wf(#[trigger] primitives@[k]),
    ensures
        wf_node(r.0, primitives@, r.1@),
        r.0.start == 0,
        r.0.end == r.1@.len(),
        perm_of(r.1@, primitives@.len() as int),
{
    let n: usize = primitives.len();
    let mut indices: Vec<usize> = Vec::new();
    let mut i: usize = 0;
    while i < n
        invariant
            0 <= i <= n,
            indices@ =~= identity_upto(i as int),
        decreases n - i,
    {
        indices.push(i);
        proof {
            assert(indices@ =~= identity_upto(i + 1));
        }
        i = i + 1;
    }
    proof {
        lemma_identity_perm(n as int);
        assert forall|k: int|
            0 <= k < n implies (#[trigger] indices@[k] as int) < primitives@.len() && prim_wf(
            primitives@[indices@[k] as int],
        ) by {
            assert(indices@[k] == k as usize);
        }
    }
    let ghost before: Seq<usize> = indices@;
    let node: BVHNode = BVHNode::new(primitives, &mut indices, 0, n, depth);
    proof {
        assert(indices@.subrange(0, n as int) =~= indices@);
        assert(before.subrange(0, n as int) =~= before);
        lemma_perm_preserved(before, indices@, n as int);
    }
    (node, indices)
}

impl BVHNode {
    /// The closest hit among the primitives of this node's range, found by
    /// pruned descent; `None` exactly when none of them hits.
    fn hit_node(
        &self,
        primitives: &Vec<Primitive>,
        indices: &Vec<usize>,
        ray: &Ray,
        t_min: i64,
        t_max: i64,
    ) -> (res: Option<(Record, usize)>)
        requires
            wf_node(*self, primitives@, indices@),
        ensures
            best_of(
                primitives@,
                indices@.subrange(self.start as int, self.end as int),
                ray@,
                t_min as int,
                t_max as int,
                opt_pair_view(res),
            ),
        decreases *self,
    {
        let ghost sub: Seq<usize> = indices@.subrange(self.start as int, self.end as int);
        if !self.bounds.hit(ray) {
            proof {
                assert forall|k: int| 0 <= k < sub.len() implies #[trigger] hit_at(
                    primitives@,
                    sub,
                    k,
                    ray@,
                    t_min as int,
                    t_max as int,
                ) is None by {
                    let p = primitives@[sub[k] as int];
                    assert(sub[k] == indices@[self.start + k]);
                    if prim_hit(p, ray@, t_min as int, t_max as int) is Some {
                        lemma_prim_hit_needs_box(p, ray@, t_min as int, t_max as int);
                        lemma_prim_wf_box(p);
                        crate::aabb::lemma_slab_monotone(self.bounds@, prim_bounds(p), ray@);
                    }
                }
            }
            return None;
        }
        match (&self.left, &self.right) {
            (None, None) => {
                let mut best: Option<(Record, usize)> = None;
                let mut k: usize = self.start;
                proof {
                    assert(indices@.subrange(self.start as int, self.start as int)
                        =~= Seq::<usize>::empty());
                }
                while k < self.end
                    invariant
                        self.start <= k <= self.end,
                        wf_node(*self, primitives@, indices@),
                        self.left is None && self.right is None,
                        best_of(
                            primitives@,
                            indices@.subrange(self.start as int, k as int),
                            ray@,
                            t_min as int,
                            t_max as int,
                            opt_pair_view(best),
                        ),
                    decreases self.end - k,
                {
                    let v: usize = indices[k];
                    let cur: Option<Record> = primitives[v].ray_hit(ray, t_min, t_max);
                    let ghost prefix = indices@.subrange(self.start as int, k as int);
                    proof {
                        lemma_best_single(primitives@, v, ray@, t_min as int, t_max as int);
                        lemma_best_concat(
                            primitives@,
                            prefix,
                            seq![v],
                            ray@,
                            t_min as int,
                            t_max as int,
                            opt_pair_view(best),
                            cand_of(primitives@, v, ray@, t_min as int, t_max as int),
                        );
                        assert(indices@.subrange(self.start as int, k + 1) =~= prefix + seq![v]);
                    }
                    match cur {
                        Some(c) => {
                            match best {
                                Some(b) => {
                                    if c.t < b.0.t || (c.t == b.0.t && v < b.1) {
                                        best = Some((c, v));
                                    }
                                },
                                None => {
                                    best = Some((c, v));
                                },
                            }
                        },
                        None => {
                        },
                    }
                    k = k + 1;
                }
                best
            },
            (Some(l), Some(r)) => {
                let lres: Option<(Record, usize)> = l.hit_node(
                    primitives,
                    indices,
                    ray,
                    t_min,
                    t_max,
                );
                let rres: Option<(Record, usize)> = r.hit_node(
                    primitives,
                    indices,
                    ray,
                    t_min,
                    t_max,
                );
                proof {
                    reveal_with_fuel(wf_node, 3);
                    assert(l.start == self.start && l.end == r.start && r.end == self.end);
                    assert(l.start < l.end && r.start < r.end && r.end <= indices@.len());
                    lemma_best_concat(
                        primitives@,
                        indices@.subrange(l.start as int, l.end as int),
                        indices@.subrange(r.start as int, r.end as int),
                        ray@,
                        t_min as int,
                        t_max as int,
                        opt_pair_view(lres),
                        opt_pair_view(rres),
                    );
                    assert(sub =~= indices@.subrange(l.start as int, l.end as int)
                        + indices@.subrange(r.start as int, r.end as int));
                }
                match (lres, rres) {
                    (Some(lp), Some(rp)) => {
                        if lp.0.t < rp.0.t || (lp.0.t == rp.0.t && lp.1 <= rp.1) {
                            Some(lp)
                        } else {
                            Some(rp)
                        }
                    },
                    (Some(lp), None) => Some(lp),
                    (None, x) => x,
                }
            },
            _ => {
                proof {
                    assert(false);
                }
                None
            },
        }
    }

    /// The accelerated closest hit agrees with the unaccelerated full
    /// per-primitive scan: the core correctness property of the tree.
    pub fn ray_hit(
        &self,
        primitives: &Vec<Primitive>,
        indices: &Vec<usize>,
        ray: &Ray,
        t_min: i64,
        t_max: i64,
    ) -> (res: Option<Record>)
        requires
            wf_node(*self, primitives@, indices@),
            self.start == 0,
            self.end == indices@.len(),
            perm_of(indices@, primitives@.len() as int),
    ensures
            opt_rec_view(res) == crate::hittable::first_of(
                scan_prims(
                    primitives@,
                    ray@,
                    t_min as int,
                    t_max as int,
                    primitives@.len() as int,
                ),
            ),
    {
        broadcast use vstd::seq_lib::group_to_multiset_ensures;

        let h: Option<(Record, usize)> = self.hit_node(primitives, indices, ray, t_min, t_max);
        proof {
            let n = primitives@.len() as int;
            lemma_scan_best(primitives@, ray@, t_min as int, t_max as int, n);
            let idf = identity_upto(n);
            assert(indices@.subrange(0, indices@.len() as int) =~= indices@);
            assert forall|v: usize| indices@.contains(v) <==> idf.contains(v) by {
                if indices@.contains(v) {
                    let k = choose|k: int| 0 <= k < indices@.len() && indices@[k] == v;
                    assert((v as int) < n);
                    assert(idf[v as int] == v);
                    assert(idf.contains(v));
                }
                if idf.contains(v) {
                    let k = choose|k: int| 0 <= k < idf.len() && idf[k] == v;
                    assert((v as int) < n);
                    assert(indices@.to_multiset().count(v) == 1);
                    assert(indices@.contains(v));
                }
            }
            lemma_best_unique(
                primitives@,
                indices@,
                idf,
                ray@,
                t_min as int,
                t_max as int,
                opt_pair_view(h),
                scan_prims(primitives@, ray@, t_min as int, t_max as int, n),
            );
        }
        match h {
            Some(p) => Some(p.0),
            None => None,
        }
    }
}

} // verus!
