//! Intersection between faces and points in 2D
//!
//! A horizontal ray is cast from the point to the right. How the ray meets
//! each edge of the face is the input here; what follows from those meetings
//! for the point is decided here.

use super::ray_segment::RaySegmentIntersection;
use crate::objects::Edge;
use crate::storage::Handle;
use fj_math::Point;
use vstd::prelude::*;

verus! {

/// An edge of a cycle, and how the ray from the point meets it
#[derive(Clone, Copy, Debug)]
pub struct EdgeCast {
    /// The edge
    pub edge: Handle<Edge>,
    /// The position at which the edge starts
    pub start: Point<2>,
    /// How the ray meets the segment from the start of the edge to the start
    /// of the next edge of the cycle; `None` where it does not
    pub hit: Option<RaySegmentIntersection>,
}

/// The intersection between a face and a point
#[derive(Clone, Copy, Debug)]
pub enum FacePointIntersection {
    /// The point is inside of the face
    PointIsInsideFace,
    /// The point is coincident with an edge
    PointIsOnEdge(Handle<Edge>),
    /// The point is coincident with a vertex
    PointIsOnVertex(Point<2>),
}

/// The ray starts on the edge or on one of its vertices: the point lies on
/// the boundary
pub open spec fn is_touch(hit: Option<RaySegmentIntersection>) -> bool {
    hit == Some(RaySegmentIntersection::RayStartsOnSegment) || hit == Some(
        RaySegmentIntersection::RayStartsOnOnFirstVertex,
    ) || hit == Some(RaySegmentIntersection::RayStartsOnSecondVertex)
}

/// The edge is parallel to the ray and the ray runs along it
pub open spec fn is_parallel(hit: Option<RaySegmentIntersection>) -> bool {
    hit == Some(RaySegmentIntersection::RayHitsSegmentAndAreParallel)
}

/// One of the hits is on an upper vertex and the other on a lower vertex
pub open spec fn opposite(
    hit: Option<RaySegmentIntersection>,
    previous: Option<RaySegmentIntersection>,
) -> bool {
    ||| hit == Some(RaySegmentIntersection::RayHitsUpperVertex) && previous == Some(
        RaySegmentIntersection::RayHitsLowerVertex,
    )
    ||| hit == Some(RaySegmentIntersection::RayHitsLowerVertex) && previous == Some(
        RaySegmentIntersection::RayHitsUpperVertex,
    )
}

/// Whether the ray crosses the boundary at an edge that it meets with `hit`,
/// where `previous` is how it met the edge looked at before
///
/// A hit on the segment itself is a crossing. A hit on a vertex is one where
/// the edge before was hit on the other kind of vertex: the ray then passes
/// through the vertex in which the two edges meet, and does not only graze
/// it.
pub open spec fn is_crossing(
    hit: Option<RaySegmentIntersection>,
    previous: Option<RaySegmentIntersection>,
) -> bool {
    hit == Some(RaySegmentIntersection::RayHitsSegment) || opposite(hit, previous)
}

/// 1 for `true` and 0 for `false`
pub open spec fn one_if(b: bool) -> nat {
    if b {
        1
    } else {
        0
    }
}

/// The number of crossings among `edges`, looked at in order, where
/// `previous` is how the ray met the edge looked at before the first
///
/// An edge parallel to the ray is passed over: it is no crossing, and the
/// edge after it is held against the edge before it.
pub open spec fn crossings_after(
    edges: Seq<EdgeCast>,
    previous: Option<RaySegmentIntersection>,
) -> nat
    decreases edges.len(),
{
    if edges.len() == 0 {
        0
    } else if is_parallel(edges[0].hit) {
        crossings_after(edges.drop_first(), previous)
    } else {
        one_if(is_crossing(edges[0].hit, previous)) + crossings_after(
            edges.drop_first(),
            edges[0].hit,
        )
    }
}

/// How the ray met the last of `edges` that is not parallel to it, and
/// `previous` where all are
pub open spec fn last_hit_after(
    edges: Seq<EdgeCast>,
    previous: Option<RaySegmentIntersection>,
) -> Option<RaySegmentIntersection>
    decreases edges.len(),
{
    if edges.len() == 0 {
        previous
    } else if is_parallel(edges[0].hit) {
        last_hit_after(edges.drop_first(), previous)
    } else {
        last_hit_after(edges.drop_first(), edges[0].hit)
    }
}

/// How the ray meets the last edge of a cycle, whatever that edge is: the
/// state with which the look at the first edge begins
pub open spec fn seam(cycle: Seq<EdgeCast>) -> Option<RaySegmentIntersection> {
    if cycle.len() == 0 {
        None
    } else {
        cycle.last().hit
    }
}

/// The number of times that the ray crosses a cycle
pub open spec fn crossings(cycle: Seq<EdgeCast>) -> nat {
    crossings_after(cycle, seam(cycle))
}

/// The index of the first edge on which the point lies, and the number of
/// edges where it lies on none
pub open spec fn first_touch(edges: Seq<EdgeCast>) -> int
    decreases edges.len(),
{
    if edges.len() == 0 {
        0
    } else if is_touch(edges[0].hit) {
        0
    } else {
        1 + first_touch(edges.drop_first())
    }
}

/// Whether the point lies on an edge of the cycle
pub open spec fn touches(cycle: Seq<EdgeCast>) -> bool {
    first_touch(cycle) < cycle.len()
}

/// Where the point lies, given that it lies on the edge `i` of the cycle: on
/// that edge, on the vertex in which it starts, or on the vertex in which the
/// next edge of the cycle starts
pub open spec fn touch_at(cycle: Seq<EdgeCast>, i: int) -> FacePointIntersection {
    match cycle[i].hit {
        Some(RaySegmentIntersection::RayStartsOnOnFirstVertex) => {
            FacePointIntersection::PointIsOnVertex(cycle[i].start)
        },
        Some(RaySegmentIntersection::RayStartsOnSecondVertex) => {
            FacePointIntersection::PointIsOnVertex(cycle[(i + 1) % (cycle.len() as int)].start)
        },
        _ => FacePointIntersection::PointIsOnEdge(cycle[i].edge),
    }
}

/// The index of the first cycle on which the point lies, and the number of
/// cycles where it lies on none
pub open spec fn first_touched(cycles: Seq<Seq<EdgeCast>>) -> int
    decreases cycles.len(),
{
    if cycles.len() == 0 {
        0
    } else if touches(cycles[0]) {
        0
    } else {
        1 + first_touched(cycles.drop_first())
    }
}

/// The number of times that the ray crosses the cycles
pub open spec fn total_crossings(cycles: Seq<Seq<EdgeCast>>) -> nat
    decreases cycles.len(),
{
    if cycles.len() == 0 {
        0
    } else {
        crossings(cycles[0]) + total_crossings(cycles.drop_first())
    }
}

/// Where the point lies relative to the face with these cycles
///
/// Where it lies on an edge, the first such edge of the first such cycle says
/// where. Else it lies inside where the ray crosses the cycles an odd number
/// of times, and outside, which is `None`, where it crosses them an even
/// number of times.
pub open spec fn classification(cycles: Seq<Seq<EdgeCast>>) -> Option<FacePointIntersection> {
    let c = first_touched(cycles);
    if c < cycles.len() {
        Some(touch_at(cycles[c], first_touch(cycles[c])))
    } else if total_crossings(cycles) % 2 == 1 {
        Some(FacePointIntersection::PointIsInsideFace)
    } else {
        None
    }
}

/// The cycles of a face as sequences
pub open spec fn cycles_view(cycles: Seq<Vec<EdgeCast>>) -> Seq<Seq<EdgeCast>> {
    Seq::new(cycles.len(), |i: int| cycles[i]@)
}

/// Where the point lies relative to the face
///
/// `cycles` holds the cycles of the face, the exterior one first, and for
/// each edge how the ray from the point meets it.
pub fn intersect(cycles: &Vec<Vec<EdgeCast>>) -> (r: Option<FacePointIntersection>)
    ensures
        r == classification(cycles_view(cycles@)),
{
    let ghost all = cycles_view(cycles@);
    let ghost mut done: nat = 0;
    let mut inside = false;

    let mut c: usize = 0;
    assert(all.subrange(0, all.len() as int) == all);
    while c < cycles.len()
        invariant
            c <= cycles@.len(),
            all == cycles_view(cycles@),
            first_touched(all) == c + first_touched(all.subrange(c as int, all.len() as int)),
            total_crossings(all) == done + total_crossings(
                all.subrange(c as int, all.len() as int),
            ),
            inside == (done % 2 == 1),
        decreases cycles@.len() - c,
    {
        let cycle = &cycles[c];
        let n = cycle.len();
        let ghost rest = all.subrange(c as int, all.len() as int);
        assert(rest[0] == cycle@);
        assert(rest.drop_first() == all.subrange(c + 1, all.len() as int));

        // The ray may pass the boundary at the seam of the cycle, the vertex
        // between the last and the first edge. The loop detects that as at
        // any other vertex, as long as it starts with how the ray met the
        // last edge.
        let mut previous_hit = if n > 0 {
            cycle[n - 1].hit
        } else {
            None
        };
        let ghost mut counted: nat = 0;

        let mut i: usize = 0;
        assert(cycle@.subrange(0, n as int) == cycle@);
        while i < n
            invariant
                i <= n,
                n == cycle@.len(),
                first_touch(cycle@) == i + first_touch(cycle@.subrange(i as int, n as int)),
                crossings(cycle@) == counted + crossings_after(
                    cycle@.subrange(i as int, n as int),
                    previous_hit,
                ),
                inside == ((done + counted) % 2 == 1),
                c < cycles@.len(),
                all == cycles_view(cycles@),
                all[c as int] == cycle@,
                first_touched(all) == c + first_touched(all.subrange(c as int, all.len() as int)),
                all.subrange(c as int, all.len() as int)[0] == cycle@,
            decreases n - i,
        {
            let ghost ahead = cycle@.subrange(i as int, n as int);
            assert(ahead[0] == cycle@[i as int]);
            assert(ahead.drop_first() == cycle@.subrange(i + 1, n as int));

            let hit = cycle[i].hit;
            match hit {
                Some(RaySegmentIntersection::RayStartsOnSegment) => {
                    // If the ray starts on the boundary of the face, there is
                    // nothing else to check.
                    return Some(FacePointIntersection::PointIsOnEdge(cycle[i].edge));
                },
                Some(RaySegmentIntersection::RayStartsOnOnFirstVertex) => {
                    return Some(FacePointIntersection::PointIsOnVertex(cycle[i].start));
                },
                Some(RaySegmentIntersection::RayStartsOnSecondVertex) => {
                    let next = if i + 1 < n {
                        i + 1
                    } else {
                        0
                    };
                    assert(next == (i + 1) % (n as int)) by {
                        if i + 1 < n {
                            vstd::arithmetic::div_mod::lemma_small_mod((i + 1) as nat, n as nat);
                        } else {
                            vstd::arithmetic::div_mod::lemma_mod_self_0(n as int);
                        }
                    }
                    return Some(FacePointIntersection::PointIsOnVertex(cycle[next].start));
                },
                Some(RaySegmentIntersection::RayHitsSegmentAndAreParallel) => {
                    // A parallel edge is ignored: its neighbors are looked at
                    // as if they were connected to each other.
                },
                _ => {
                    let count_hit = match (hit, previous_hit) {
                        (Some(RaySegmentIntersection::RayHitsSegment), _) => true,
                        (
                            Some(RaySegmentIntersection::RayHitsUpperVertex),
                            Some(RaySegmentIntersection::RayHitsLowerVertex),
                        ) => true,
                        (
                            Some(RaySegmentIntersection::RayHitsLowerVertex),
                            Some(RaySegmentIntersection::RayHitsUpperVertex),
                        ) => true,
                        _ => false,
                    };
                    assert(count_hit == is_crossing(hit, previous_hit));

                    if count_hit {
                        inside = !inside;
                        proof {
                            counted = counted + 1;
                        }
                    }
                    previous_hit = hit;
                },
            }
            i += 1;
        }
        assert(!touches(cycle@));
        proof {
            done = done + counted;
        }
        c += 1;
    }

    if inside {
        Some(FacePointIntersection::PointIsInsideFace)
    } else {
        None
    }
}

} // verus!
