//! What holds of the crossings of a cycle however its edges are numbered, and
//! whatever edges parallel to the ray it holds.

use super::face_point::{
    classification, crossings, crossings_after, first_touch, first_touched, is_crossing,
    is_parallel, is_touch, last_hit_after, one_if, opposite, seam, total_crossings, touch_at,
    touches, EdgeCast, FacePointIntersection,
};
use super::ray_segment::RaySegmentIntersection;
use vstd::prelude::*;

verus! {

/// The hit that stands for "no edge that is not parallel to the ray"
pub open spec fn parallel() -> Option<RaySegmentIntersection> {
    Some(RaySegmentIntersection::RayHitsSegmentAndAreParallel)
}

/// How the ray meets the first of `edges` that is not parallel to it, and the
/// parallel hit where all are
pub open spec fn first_hit(edges: Seq<EdgeCast>) -> Option<RaySegmentIntersection>
    decreases edges.len(),
{
    if edges.len() == 0 {
        parallel()
    } else if is_parallel(edges[0].hit) {
        first_hit(edges.drop_first())
    } else {
        edges[0].hit
    }
}

/// How the ray meets the last of `edges` that is not parallel to it, and the
/// parallel hit where all are
pub open spec fn last_hit(edges: Seq<EdgeCast>) -> Option<RaySegmentIntersection> {
    last_hit_after(edges, parallel())
}

/// The crossing at the seam that the numbering of a cycle hides: 1 where the
/// last edge is parallel to the ray, so that the first edge is held against
/// it, while the ray passes through the vertex between the last and the first
/// of the other edges; else 0
pub open spec fn seam_defect(cycle: Seq<EdgeCast>) -> nat {
    one_if(
        cycle.len() > 0 && is_parallel(cycle.last().hit) && opposite(
            first_hit(cycle),
            last_hit(cycle),
        ),
    )
}

/// The cycle with its edges numbered from the edge `r` on
pub open spec fn rotate(cycle: Seq<EdgeCast>, r: int) -> Seq<EdgeCast> {
    cycle.subrange(r, cycle.len() as int) + cycle.subrange(0, r)
}

/// Looking at two runs of edges, one after the other, is looking at the first
/// and then at the second with what the first left behind.
proof fn lemma_append(a: Seq<EdgeCast>, b: Seq<EdgeCast>, p: Option<RaySegmentIntersection>)
    ensures
        crossings_after(a + b, p) == crossings_after(a, p) + crossings_after(
            b,
            last_hit_after(a, p),
        ),
        last_hit_after(a + b, p) == last_hit_after(b, last_hit_after(a, p)),
        first_hit(a + b) == if is_parallel(first_hit(a)) {
            first_hit(b)
        } else {
            first_hit(a)
        },
    decreases a.len(),
{
    if a.len() == 0 {
        assert(a + b == b);
    } else {
        assert((a + b).drop_first() == a.drop_first() + b);
        assert((a + b)[0] == a[0]);
        if is_parallel(a[0].hit) {
            lemma_append(a.drop_first(), b, p);
        } else {
            lemma_append(a.drop_first(), b, a[0].hit);
        }
    }
}

/// The state with which a run of edges is entered matters to its first edge
/// that is not parallel, and to nothing else.
proof fn lemma_entry(
    edges: Seq<EdgeCast>,
    p: Option<RaySegmentIntersection>,
    q: Option<RaySegmentIntersection>,
)
    ensures
        crossings_after(edges, p) + one_if(opposite(first_hit(edges), q)) == crossings_after(
            edges,
            q,
        ) + one_if(opposite(first_hit(edges), p)),
        last_hit_after(edges, p) == if is_parallel(first_hit(edges)) {
            p
        } else {
            last_hit_after(edges, q)
        },
        !is_parallel(first_hit(edges)) ==> !is_parallel(last_hit_after(edges, p)),
        !is_parallel(p) ==> !is_parallel(last_hit_after(edges, p)),
    decreases edges.len(),
{
    if edges.len() == 0 {
    } else if is_parallel(edges[0].hit) {
        lemma_entry(edges.drop_first(), p, q);
    } else {
        lemma_entry(edges.drop_first(), edges[0].hit, edges[0].hit);
    }
}

/// One edge, looked at alone
proof fn lemma_single(e: EdgeCast, p: Option<RaySegmentIntersection>)
    ensures
        crossings_after(seq![e], p) == if is_parallel(e.hit) {
            0
        } else {
            one_if(is_crossing(e.hit, p))
        },
        last_hit_after(seq![e], p) == if is_parallel(e.hit) {
            p
        } else {
            e.hit
        },
        first_hit(seq![e]) == if is_parallel(e.hit) {
            parallel()
        } else {
            e.hit
        },
{
    let s = seq![e];
    assert(s.drop_first().len() == 0);
    assert(s[0] == e);
    assert(crossings_after(s.drop_first(), p) == 0);
    assert(crossings_after(s.drop_first(), e.hit) == 0);
    assert(last_hit_after(s.drop_first(), p) == p);
    assert(last_hit_after(s.drop_first(), e.hit) == e.hit);
    assert(first_hit(s.drop_first()) == parallel());
}

/// The crossings of a cycle and the crossing that its numbering hides,
/// together, are as many when the numbering starts one edge later.
proof fn lemma_rotate_one(cycle: Seq<EdgeCast>)
    requires
        cycle.len() > 0,
    ensures
        crossings(rotate(cycle, 1)) + seam_defect(rotate(cycle, 1)) == crossings(cycle)
            + seam_defect(cycle),
{
    let e = cycle[0];
    let h = e.hit;
    let rest = cycle.drop_first();
    let turned = rotate(cycle, 1);
    assert(cycle.subrange(1, cycle.len() as int) == rest);
    assert(cycle.subrange(0, 1) == seq![e]);
    assert(turned == rest + seq![e]);
    assert(cycle == seq![e] + rest);
    assert(turned.last() == e);
    assert(seam(turned) == h);

    lemma_single(e, h);
    lemma_single(e, parallel());
    lemma_single(e, seam(cycle));
    lemma_single(e, last_hit_after(rest, h));
    lemma_single(e, last_hit_after(rest, parallel()));

    lemma_append(rest, seq![e], h);
    lemma_append(rest, seq![e], parallel());
    lemma_append(seq![e], rest, seam(cycle));
    lemma_append(seq![e], rest, parallel());

    lemma_entry(rest, seam(cycle), h);
    lemma_entry(rest, seam(cycle), parallel());
    lemma_entry(rest, h, parallel());

    if rest.len() > 0 {
        assert(cycle.last() == rest.last());
        let front = rest.drop_last();
        let l = rest.last();
        assert(rest == front + seq![l]);
        lemma_append(front, seq![l], h);
        lemma_append(front, seq![l], parallel());
        lemma_single(l, last_hit_after(front, h));
        lemma_single(l, last_hit_after(front, parallel()));
    } else {
        assert(cycle.last() == e);
    }
}

/// The crossings of a cycle and the crossing that its numbering hides,
/// together, do not depend on the edge at which the numbering starts.
pub proof fn lemma_rotation_keeps_crossings(cycle: Seq<EdgeCast>, r: int)
    requires
        0 <= r <= cycle.len(),
    ensures
        crossings(rotate(cycle, r)) + seam_defect(rotate(cycle, r)) == crossings(cycle)
            + seam_defect(cycle),
    decreases r,
{
    if r == 0 {
        assert(rotate(cycle, 0) == cycle);
    } else {
        lemma_rotation_keeps_crossings(cycle, r - 1);
        let before = rotate(cycle, r - 1);
        assert(before.len() == cycle.len());
        assert(rotate(before, 1) == rotate(cycle, r));
        lemma_rotate_one(before);
    }
}

/// The crossings of a cycle and the crossing that its numbering hides,
/// together, do not change when an edge parallel to the ray is put into the
/// cycle, before the edge `k` or, with `k` the number of edges, at the end.
pub proof fn lemma_parallel_edge_keeps_crossings(cycle: Seq<EdgeCast>, k: int, e: EdgeCast)
    requires
        0 <= k <= cycle.len(),
        is_parallel(e.hit),
    ensures
        crossings(cycle.insert(k, e)) + seam_defect(cycle.insert(k, e)) == crossings(cycle)
            + seam_defect(cycle),
{
    let n = cycle.len() as int;
    let a = cycle.subrange(0, k);
    let b = cycle.subrange(k, n);
    let grown = cycle.insert(k, e);
    assert(cycle == a + b);
    assert(grown == (a + seq![e]) + b);
    let s = seam(cycle);
    let t = seam(grown);

    lemma_single(e, last_hit_after(a, s));
    lemma_single(e, last_hit_after(a, t));
    lemma_single(e, last_hit_after(a, parallel()));
    lemma_append(a, seq![e], s);
    lemma_append(a, seq![e], t);
    lemma_append(a, seq![e], parallel());
    lemma_append(a + seq![e], b, s);
    lemma_append(a + seq![e], b, t);
    lemma_append(a + seq![e], b, parallel());
    lemma_append(a, b, s);
    lemma_append(a, b, t);
    lemma_append(a, b, parallel());
    assert(crossings_after(grown, t) == crossings_after(cycle, t));
    assert(last_hit(grown) == last_hit(cycle));
    assert(first_hit(grown) == first_hit(cycle));

    if k < n {
        assert(grown.last() == cycle.last());
    } else {
        assert(grown.last() == e);
        lemma_entry(cycle, s, parallel());
        if n > 0 {
            let front = cycle.drop_last();
            let l = cycle.last();
            assert(cycle == front + seq![l]);
            lemma_append(front, seq![l], parallel());
            lemma_single(l, last_hit_after(front, parallel()));
        }
    }
}

/// Every edge of the cycle on which the point lies says the same of where
/// the point lies
pub open spec fn touches_agree(cycle: Seq<EdgeCast>) -> bool {
    forall|i: int, j: int|
        0 <= i < cycle.len() && 0 <= j < cycle.len() && is_touch(#[trigger] cycle[i].hit)
            && is_touch(#[trigger] cycle[j].hit) ==> touch_at(cycle, i) == touch_at(cycle, j)
}

/// The index after `i` in a cycle of `n` edges
spec fn follows(i: int, n: int) -> int {
    if i + 1 < n {
        i + 1
    } else {
        0
    }
}

/// The index after `i` is `i + 1`, taken modulo the number of edges.
proof fn lemma_follows(i: int, n: int)
    requires
        0 <= i < n,
    ensures
        (i + 1) % n == follows(i, n),
{
    if i + 1 < n {
        vstd::arithmetic::div_mod::lemma_small_mod((i + 1) as nat, n as nat);
    } else {
        vstd::arithmetic::div_mod::lemma_mod_self_0(n);
    }
}

/// The first edge on which the point lies is the edge `f`, where the point
/// lies on it and on no edge before it.
proof fn lemma_first_touch_is(edges: Seq<EdgeCast>, f: int)
    requires
        0 <= f <= edges.len(),
        forall|j: int| 0 <= j < f ==> !is_touch(#[trigger] edges[j].hit),
        f < edges.len() ==> is_touch(edges[f].hit),
    ensures
        first_touch(edges) == f,
    decreases edges.len(),
{
    if edges.len() > 0 && f > 0 {
        assert(!is_touch(edges[0].hit));
        let rest = edges.drop_first();
        assert forall|j: int| 0 <= j < f - 1 implies !is_touch(#[trigger] rest[j].hit) by {
            assert(rest[j] == edges[j + 1]);
        }
        lemma_first_touch_is(rest, f - 1);
    }
}

/// The point lies on the first edge on which it lies, and on none before.
proof fn lemma_first_touch(edges: Seq<EdgeCast>)
    ensures
        0 <= first_touch(edges) <= edges.len(),
        forall|j: int| 0 <= j < first_touch(edges) ==> !is_touch(#[trigger] edges[j].hit),
        first_touch(edges) < edges.len() ==> is_touch(edges[first_touch(edges)].hit),
    decreases edges.len(),
{
    if edges.len() > 0 && !is_touch(edges[0].hit) {
        let rest = edges.drop_first();
        lemma_first_touch(rest);
        assert forall|j: int| 0 <= j < first_touch(edges) implies !is_touch(
            #[trigger] edges[j].hit,
        ) by {
            if j > 0 {
                assert(rest[j - 1] == edges[j]);
            }
        }
        if first_touch(edges) < edges.len() {
            assert(rest[first_touch(rest)] == edges[first_touch(edges)]);
        }
    }
}

/// The first cycle on which the point lies is a cycle on which it lies, and
/// it lies on none before.
proof fn lemma_first_touched(cycles: Seq<Seq<EdgeCast>>)
    ensures
        0 <= first_touched(cycles) <= cycles.len(),
        forall|j: int| 0 <= j < first_touched(cycles) ==> !touches(#[trigger] cycles[j]),
        first_touched(cycles) < cycles.len() ==> touches(cycles[first_touched(cycles)]),
    decreases cycles.len(),
{
    if cycles.len() > 0 && !touches(cycles[0]) {
        let rest = cycles.drop_first();
        lemma_first_touched(rest);
        assert forall|j: int| 0 <= j < first_touched(cycles) implies !touches(
            #[trigger] cycles[j],
        ) by {
            if j > 0 {
                assert(rest[j - 1] == cycles[j]);
            }
        }
        if first_touched(cycles) < cycles.len() {
            assert(rest[first_touched(rest)] == cycles[first_touched(cycles)]);
        }
    }
}

/// Another cycle in the place of one changes the first cycle on which the
/// point lies, and the number of crossings, by what the two cycles differ in.
proof fn lemma_replace_counts(cycles: Seq<Seq<EdgeCast>>, c: int, other: Seq<EdgeCast>)
    requires
        0 <= c < cycles.len(),
        touches(other) == touches(cycles[c]),
    ensures
        first_touched(cycles.update(c, other)) == first_touched(cycles),
        total_crossings(cycles.update(c, other)) + crossings(cycles[c]) == total_crossings(cycles)
            + crossings(other),
    decreases cycles.len(),
{
    let changed = cycles.update(c, other);
    if c == 0 {
        assert(changed.drop_first() == cycles.drop_first());
    } else {
        assert(changed.drop_first() == cycles.drop_first().update(c - 1, other));
        assert(cycles.drop_first()[c - 1] == cycles[c]);
        lemma_replace_counts(cycles.drop_first(), c - 1, other);
    }
}

/// A face is classified alike with another cycle in the place of one, where
/// the point lies on both cycles in the same place or on neither, and the ray
/// crosses both an even or both an odd number of times.
proof fn lemma_replace_cycle(cycles: Seq<Seq<EdgeCast>>, c: int, other: Seq<EdgeCast>)
    requires
        0 <= c < cycles.len(),
        touches(other) == touches(cycles[c]),
        touches(other) ==> touch_at(other, first_touch(other)) == touch_at(
            cycles[c],
            first_touch(cycles[c]),
        ),
        first_touched(cycles) == cycles.len() ==> crossings(other) % 2 == crossings(cycles[c]) % 2,
    ensures
        classification(cycles.update(c, other)) == classification(cycles),
{
    lemma_replace_counts(cycles, c, other);
    lemma_first_touched(cycles);
}

/// The edges of a rotated cycle say of the point what the edges of the cycle
/// say, each at its new index.
proof fn lemma_rotate_touch(cycle: Seq<EdgeCast>, r: int)
    requires
        0 <= r <= cycle.len(),
        touches_agree(cycle),
    ensures
        touches(rotate(cycle, r)) == touches(cycle),
        touches(cycle) ==> touch_at(rotate(cycle, r), first_touch(rotate(cycle, r))) == touch_at(
            cycle,
            first_touch(cycle),
        ),
{
    let n = cycle.len() as int;
    let turned = rotate(cycle, r);
    lemma_first_touch(cycle);
    lemma_first_touch(turned);
    assert(turned.len() == n);
    assert forall|j: int| 0 <= j < n implies #[trigger] turned[j] == cycle[if j + r < n {
        j + r
    } else {
        j + r - n
    }] by {}
    let f = first_touch(cycle);
    let g = first_touch(turned);
    if f < n {
        let j = if f >= r {
            f - r
        } else {
            f - r + n
        };
        assert(turned[j] == cycle[f]);
        assert(g < n);
    }
    if g < n {
        let i = if g + r < n {
            g + r
        } else {
            g + r - n
        };
        assert(turned[g] == cycle[i]);
        assert(is_touch(cycle[i].hit));
        assert(f < n);
        lemma_follows(g, n);
        lemma_follows(i, n);
        assert(turned[follows(g, n)] == cycle[follows(i, n)]);
        assert(touch_at(turned, g) == touch_at(cycle, i));
        assert(is_touch(cycle[f].hit));
        assert(touch_at(cycle, i) == touch_at(cycle, f));
    }
}

/// The edges of a cycle say of the point what they said before an edge
/// parallel to the ray was put among them, where that edge starts at the
/// position at which the edge after it starts.
proof fn lemma_parallel_edge_touch(cycle: Seq<EdgeCast>, k: int, e: EdgeCast)
    requires
        0 <= k <= cycle.len(),
        is_parallel(e.hit),
        cycle.len() > 0 ==> e.start == cycle[if k < cycle.len() {
            k
        } else {
            0
        }].start,
    ensures
        touches(cycle.insert(k, e)) == touches(cycle),
        touches(cycle) ==> touch_at(cycle.insert(k, e), first_touch(cycle.insert(k, e)))
            == touch_at(cycle, first_touch(cycle)),
{
    let n = cycle.len() as int;
    let grown = cycle.insert(k, e);
    lemma_first_touch(cycle);
    assert(grown.len() == n + 1);
    assert(grown[k] == e);
    assert forall|j: int| 0 <= j < k implies #[trigger] grown[j] == cycle[j] by {}
    assert forall|j: int| k < j <= n implies #[trigger] grown[j] == cycle[j - 1] by {}
    let f = first_touch(cycle);
    let g = if f < k {
        f
    } else {
        f + 1
    };
    assert forall|j: int| 0 <= j < g && j <= n implies !is_touch(#[trigger] grown[j].hit) by {
        if j < k {
            assert(grown[j] == cycle[j]);
        } else if j > k {
            assert(grown[j] == cycle[j - 1]);
        }
    }
    if f < n {
        assert(grown[g] == cycle[f]);
        lemma_first_touch_is(grown, g);
        lemma_follows(g, n + 1);
        lemma_follows(f, n);
        let after = follows(g, n + 1);
        if after == k {
            assert(grown[after].start == cycle[follows(f, n)].start);
        } else if after < k {
            assert(grown[after] == cycle[after]);
        } else {
            assert(grown[after] == cycle[after - 1]);
        }
        assert(touch_at(grown, g) == touch_at(cycle, f));
    } else {
        lemma_first_touch_is(grown, n + 1);
    }
}

/// A face is classified alike however the edges of one of its cycles are
/// numbered, where every edge of that cycle on which the point lies says the
/// same of where it lies and, if the point lies on no edge of the face, the
/// two numberings hide the same crossing at the seam.
pub proof fn lemma_rotation_keeps_classification(cycles: Seq<Seq<EdgeCast>>, c: int, r: int)
    requires
        0 <= c < cycles.len(),
        0 <= r <= cycles[c].len(),
        touches_agree(cycles[c]),
        first_touched(cycles) == cycles.len() ==> seam_defect(rotate(cycles[c], r)) == seam_defect(
            cycles[c],
        ),
    ensures
        classification(cycles.update(c, rotate(cycles[c], r))) == classification(cycles),
{
    lemma_rotate_touch(cycles[c], r);
    lemma_rotation_keeps_crossings(cycles[c], r);
    lemma_replace_cycle(cycles, c, rotate(cycles[c], r));
}

/// A face is classified alike with and without an edge parallel to the ray
/// in one of its cycles, before the edge `k` or, with `k` the number of
/// edges, at the end, where that edge starts at the position at which the
/// edge after it starts and, if the point lies on no edge of the face, the
/// cycle hides the same crossing at the seam with it and without it.
pub proof fn lemma_parallel_edge_keeps_classification(
    cycles: Seq<Seq<EdgeCast>>,
    c: int,
    k: int,
    e: EdgeCast,
)
    requires
        0 <= c < cycles.len(),
        0 <= k <= cycles[c].len(),
        is_parallel(e.hit),
        cycles[c].len() > 0 ==> e.start == cycles[c][if k < cycles[c].len() {
            k
        } else {
            0
        }].start,
        first_touched(cycles) == cycles.len() ==> seam_defect(cycles[c].insert(k, e))
            == seam_defect(cycles[c]),
    ensures
        classification(cycles.update(c, cycles[c].insert(k, e))) == classification(cycles),
{
    lemma_parallel_edge_touch(cycles[c], k, e);
    lemma_parallel_edge_keeps_crossings(cycles[c], k, e);
    lemma_replace_cycle(cycles, c, cycles[c].insert(k, e));
}

/// An edge parallel to the ray that is put before an edge of a cycle, and not
/// at the end, hides no crossing at the seam that was not hidden before.
pub proof fn lemma_parallel_edge_inside_keeps_seam(cycle: Seq<EdgeCast>, k: int, e: EdgeCast)
    requires
        0 <= k < cycle.len(),
        is_parallel(e.hit),
    ensures
        seam_defect(cycle.insert(k, e)) == seam_defect(cycle),
        crossings(cycle.insert(k, e)) == crossings(cycle),
{
    lemma_parallel_edge_keeps_crossings(cycle, k, e);
    let n = cycle.len() as int;
    let a = cycle.subrange(0, k);
    let b = cycle.subrange(k, n);
    let grown = cycle.insert(k, e);
    assert(cycle == a + b);
    assert(grown == (a + seq![e]) + b);
    assert(grown.last() == cycle.last());
    lemma_single(e, last_hit_after(a, seam(cycle)));
    lemma_append(a, seq![e], seam(cycle));
    lemma_append(a + seq![e], b, seam(cycle));
    lemma_append(a, b, seam(cycle));
}

/// A cycle behind the cycles of a face adds its crossings to theirs, and is
/// the first cycle on which the point lies if it lies on none of theirs.
proof fn lemma_one_more_cycle(cycles: Seq<Seq<EdgeCast>>, cycle: Seq<EdgeCast>)
    ensures
        total_crossings(cycles.push(cycle)) == total_crossings(cycles) + crossings(cycle),
        first_touched(cycles.push(cycle)) == if first_touched(cycles) < cycles.len() {
            first_touched(cycles)
        } else if touches(cycle) {
            cycles.len() as int
        } else {
            (cycles.len() + 1) as int
        },
    decreases cycles.len(),
{
    let more = cycles.push(cycle);
    lemma_first_touched(cycles);
    if cycles.len() == 0 {
        assert(more.drop_first().len() == 0);
        assert(more[0] == cycle);
        assert(total_crossings(more.drop_first()) == 0);
        assert(first_touched(more.drop_first()) == 0);
    } else {
        assert(more.drop_first() == cycles.drop_first().push(cycle));
        assert(more[0] == cycles[0]);
        lemma_one_more_cycle(cycles.drop_first(), cycle);
        lemma_first_touched(cycles.drop_first());
    }
}

/// A hole turns the inside into the outside: where the point lies on no edge
/// and the ray crosses a further cycle an odd number of times, the point is
/// inside the face with that cycle if and only if it is outside the face
/// without it.
pub proof fn lemma_hole_flips_inside(cycles: Seq<Seq<EdgeCast>>, hole: Seq<EdgeCast>)
    requires
        first_touched(cycles) == cycles.len(),
        !touches(hole),
        crossings(hole) % 2 == 1,
    ensures
        classification(cycles.push(hole)) == Some(FacePointIntersection::PointIsInsideFace)
            <==> classification(cycles) is None,
        classification(cycles.push(hole)) is None <==> classification(cycles) == Some(
            FacePointIntersection::PointIsInsideFace,
        ),
{
    lemma_one_more_cycle(cycles, hole);
}

/// A further cycle that the ray crosses an even number of times, and on no
/// edge of which the point lies, does not change where the point lies.
pub proof fn lemma_far_cycle_changes_nothing(cycles: Seq<Seq<EdgeCast>>, far: Seq<EdgeCast>)
    requires
        !touches(far),
        crossings(far) % 2 == 0,
    ensures
        classification(cycles.push(far)) == classification(cycles),
{
    lemma_one_more_cycle(cycles, far);
    lemma_first_touched(cycles);
    if first_touched(cycles) < cycles.len() {
        assert(cycles.push(far)[first_touched(cycles)] == cycles[first_touched(cycles)]);
    }
}

} // verus!
