//! The cast of a ray against the edges of a face.
//!
//! The edges of a face are reached through the stores: the face refers to its
//! region, the region to its cycles, a cycle to its edges. How the ray meets
//! the segment between two positions is the caller's to say.

use super::face_point::{classification, intersect, EdgeCast, FacePointIntersection};
use super::ray_segment::{ray_hit, ray_segment, RaySegmentIntersection, Side};
use crate::math::{coordinates, coordinates_of};
use crate::objects::{Cycle, Edge, Face, Objects, Region};
use crate::order::Ordered;
use crate::storage::Handle;
use fj_math::{Point, Scalar};
use vstd::prelude::*;

verus! {

/// The cycles of a region: the exterior one, then the interior ones
pub open spec fn all_cycles(region: Region) -> Seq<Handle<Cycle>> {
    seq![region.exterior] + region.interiors@
}

/// The stores hold the cycle and every edge of it
pub open spec fn cycle_is_whole(objects: Objects, cycle: Handle<Cycle>) -> bool {
    &&& objects.cycles.filled(cycle)
    &&& forall|i: int|
        0 <= i < objects.cycles.object(cycle).edges@.len() ==> objects.edges.filled(
            #[trigger] objects.cycles.object(cycle).edges@[i],
        )
}

/// The stores hold the region of the face, its cycles and their edges
pub open spec fn face_is_whole(objects: Objects, face: Face) -> bool {
    &&& objects.regions.filled(face.region)
    &&& forall|c: int|
        0 <= c < all_cycles(objects.regions.object(face.region)).len() ==> cycle_is_whole(
            objects,
            #[trigger] all_cycles(objects.regions.object(face.region))[c],
        )
}

/// `casts` is a cast of the ray against the edges of the cycle: for each
/// edge, in order, the edge, the position at which it starts, and a hit that
/// `ray_hit` gives for the segment from there to the position at which the
/// next edge of the cycle starts
pub open spec fn is_cast_of_cycle<F: Fn(&Point<2>, &Point<2>) -> Option<RaySegmentIntersection>>(
    objects: Objects,
    edges: Seq<Handle<Edge>>,
    casts: Seq<EdgeCast>,
    ray_hit: F,
) -> bool {
    &&& casts.len() == edges.len()
    &&& forall|i: int|
        0 <= i < casts.len() ==> {
            &&& (#[trigger] casts[i]).edge == edges[i]
            &&& casts[i].start == objects.edges.object(edges[i]).start_position
            &&& ray_hit.ensures(
                (
                    &objects.edges.object(edges[i]).start_position,
                    &objects.edges.object(
                        edges[(i + 1) % (edges.len() as int)],
                    ).start_position,
                ),
                casts[i].hit,
            )
        }
}

/// `casts` is a cast of the ray against the edges of the face: a cast
/// against each of its cycles, the exterior one first
pub open spec fn is_cast_of<F: Fn(&Point<2>, &Point<2>) -> Option<RaySegmentIntersection>>(
    objects: Objects,
    face: Face,
    casts: Seq<Seq<EdgeCast>>,
    ray_hit: F,
) -> bool {
    &&& casts.len() == all_cycles(objects.regions.object(face.region)).len()
    &&& forall|c: int|
        0 <= c < casts.len() ==> is_cast_of_cycle(
            objects,
            objects.cycles.object(all_cycles(objects.regions.object(face.region))[c]).edges@,
            #[trigger] casts[c],
            ray_hit,
        )
}

/// Whether the stores hold the cycle and every edge of it
fn holds_cycle(objects: &Objects, cycle: &Handle<Cycle>) -> (r: bool)
    ensures
        r == cycle_is_whole(*objects, *cycle),
{
    if !objects.cycles.is_filled(cycle) {
        return false;
    }
    let edges = &objects.cycles.get(cycle).edges;
    let mut i: usize = 0;
    while i < edges.len()
        invariant
            i <= edges@.len(),
            objects.cycles.filled(*cycle),
            edges@ == objects.cycles.object(*cycle).edges@,
            forall|k: int| 0 <= k < i ==> objects.edges.filled(#[trigger] edges@[k]),
        decreases edges@.len() - i,
    {
        if !objects.edges.is_filled(&edges[i]) {
            return false;
        }
        i += 1;
    }
    true
}

/// Whether the stores hold the region of the face, its cycles and their
/// edges: whether the face can be held against a ray
pub fn holds_face(objects: &Objects, face: &Face) -> (r: bool)
    ensures
        r == face_is_whole(*objects, *face),
{
    if !objects.regions.is_filled(&face.region) {
        return false;
    }
    let region = objects.regions.get(&face.region);
    let ghost cycles = all_cycles(*region);
    assert(cycles[0] == region.exterior);
    if !holds_cycle(objects, &region.exterior) {
        return false;
    }
    let mut c: usize = 0;
    while c < region.interiors.len()
        invariant
            c <= region.interiors@.len(),
            objects.regions.filled(face.region),
            *region == objects.regions.object(face.region),
            cycles == all_cycles(*region),
            forall|k: int| 0 <= k < c + 1 ==> cycle_is_whole(*objects, #[trigger] cycles[k]),
        decreases region.interiors@.len() - c,
    {
        assert(cycles[c + 1] == region.interiors@[c as int]);
        if !holds_cycle(objects, &region.interiors[c]) {
            return false;
        }
        c += 1;
    }
    true
}

/// Casts the ray against the edges of a cycle
fn cast_cycle<F: Fn(&Point<2>, &Point<2>) -> Option<RaySegmentIntersection>>(
    objects: &Objects,
    cycle: &Handle<Cycle>,
    ray_hit: &F,
) -> (casts: Vec<EdgeCast>)
    requires
        cycle_is_whole(*objects, *cycle),
        forall|a: &Point<2>, b: &Point<2>| ray_hit.requires((a, b)),
    ensures
        is_cast_of_cycle(*objects, objects.cycles.object(*cycle).edges@, casts@, *ray_hit),
{
    let edges = &objects.cycles.get(cycle).edges;
    let n = edges.len();
    let mut casts: Vec<EdgeCast> = Vec::new();
    let mut i: usize = 0;
    while i < n
        invariant
            i <= n,
            n == edges@.len(),
            edges@ == objects.cycles.object(*cycle).edges@,
            cycle_is_whole(*objects, *cycle),
            forall|a: &Point<2>, b: &Point<2>| ray_hit.requires((a, b)),
            casts@.len() == i,
            forall|k: int|
                0 <= k < i ==> {
                    &&& (#[trigger] casts@[k]).edge == edges@[k]
                    &&& casts@[k].start == objects.edges.object(edges@[k]).start_position
                    &&& ray_hit.ensures(
                        (
                            &objects.edges.object(edges@[k]).start_position,
                            &objects.edges.object(
                                edges@[(k + 1) % (edges@.len() as int)],
                            ).start_position,
                        ),
                        casts@[k].hit,
                    )
                },
        decreases n - i,
    {
        let next = if i + 1 < n {
            i + 1
        } else {
            0
        };
        assert(next == (i + 1) % (n as int)) by {
            if i + 1 < n {
                vstd::arithmetic::div_mod::lemma_small_mod((i + 1) as nat, n as nat);
            } else {
                vstd::arithmetic::div_mod::lemma_mod_self_0(n as int);
            }
        }
        let edge = objects.edges.get(&edges[i]);
        let next_edge = objects.edges.get(&edges[next]);
        let hit = ray_hit(&edge.start_position, &next_edge.start_position);
        casts.push(EdgeCast { edge: edges[i], start: edge.start_position, hit });
        i += 1;
    }
    casts
}

/// Where the point lies relative to the face
///
/// A horizontal ray is cast from the point to the right; `ray_hit` says how
/// it meets the segment between two positions. Every edge of the face is
/// held against the ray, as the segment from the position at which it starts
/// to the position at which the next edge of its cycle starts, and the face
/// is then classified by those hits.
pub fn intersect_face<F: Fn(&Point<2>, &Point<2>) -> Option<RaySegmentIntersection>>(
    objects: &Objects,
    face: &Face,
    ray_hit: F,
) -> (r: Option<FacePointIntersection>)
    requires
        face_is_whole(*objects, *face),
        forall|a: &Point<2>, b: &Point<2>| ray_hit.requires((a, b)),
    ensures
        exists|casts: Seq<Seq<EdgeCast>>|
            is_cast_of(*objects, *face, casts, ray_hit) && r == classification(casts),
{
    let region = objects.regions.get(&face.region);
    let ghost cycles = all_cycles(*region);
    let mut casts: Vec<Vec<EdgeCast>> = Vec::new();

    assert(cycles[0] == region.exterior);
    casts.push(cast_cycle(objects, &region.exterior, &ray_hit));

    let mut c: usize = 0;
    while c < region.interiors.len()
        invariant
            c <= region.interiors@.len(),
            *region == objects.regions.object(face.region),
            cycles == all_cycles(*region),
            face_is_whole(*objects, *face),
            forall|a: &Point<2>, b: &Point<2>| ray_hit.requires((a, b)),
            casts@.len() == c + 1,
            forall|k: int|
                0 <= k < c + 1 ==> is_cast_of_cycle(
                    *objects,
                    objects.cycles.object(cycles[k]).edges@,
                    (#[trigger] casts@[k])@,
                    ray_hit,
                ),
        decreases region.interiors@.len() - c,
    {
        assert(cycles[c + 1] == region.interiors@[c as int]);
        casts.push(cast_cycle(objects, &region.interiors[c], &ray_hit));
        c += 1;
    }

    let r = intersect(&casts);
    proof {
        let view = super::face_point::cycles_view(casts@);
        assert(is_cast_of(*objects, *face, view, ray_hit));
    }
    r
}

/// `hit` is how the horizontal ray from `point` to the right meets the
/// segment from `a` to `b`, with a side that `side_of` gives for the lower
/// end of the segment, its upper end, and the point
pub open spec fn is_hit_of<F: Fn(&Point<2>, &Point<2>, &Point<2>) -> Side>(
    point: Point<2>,
    a: Point<2>,
    b: Point<2>,
    side_of: F,
    hit: Option<RaySegmentIntersection>,
) -> bool {
    let (lower, upper) = if Scalar::ordered(coordinates(a).1, coordinates(b).1) {
        (a, b)
    } else {
        (b, a)
    };
    exists|side: Side|
        side_of.ensures((&lower, &upper, &point), side) && hit == ray_hit(
            coordinates(point),
            coordinates(a),
            coordinates(b),
            side,
        )
}

/// `casts` is a cast of the ray from `point` against the edges of the face:
/// for each edge of each cycle, the exterior cycle first, the edge, the
/// position at which it starts, and how the ray meets the segment from there
/// to the position at which the next edge of the cycle starts
pub open spec fn is_cast_from<F: Fn(&Point<2>, &Point<2>, &Point<2>) -> Side>(
    objects: Objects,
    face: Face,
    casts: Seq<Seq<EdgeCast>>,
    point: Point<2>,
    side_of: F,
) -> bool {
    let cycles = all_cycles(objects.regions.object(face.region));
    &&& casts.len() == cycles.len()
    &&& forall|c: int|
        0 <= c < casts.len() ==> (#[trigger] casts[c]).len() == objects.cycles.object(
            cycles[c],
        ).edges@.len()
    &&& forall|c: int, i: int|
        0 <= c < casts.len() && 0 <= i < casts[c].len() ==> {
            let edges = objects.cycles.object(cycles[c]).edges@;
            &&& (#[trigger] casts[c][i]).edge == edges[i]
            &&& casts[c][i].start == objects.edges.object(edges[i]).start_position
            &&& is_hit_of(
                point,
                objects.edges.object(edges[i]).start_position,
                objects.edges.object(edges[(i + 1) % (edges.len() as int)]).start_position,
                side_of,
                casts[c][i].hit,
            )
        }
}

/// How the horizontal ray from `point` to the right meets the segment from
/// `a` to `b`
fn hit_of<F: Fn(&Point<2>, &Point<2>, &Point<2>) -> Side>(
    point: &Point<2>,
    a: &Point<2>,
    b: &Point<2>,
    side_of: &F,
) -> (hit: Option<RaySegmentIntersection>)
    requires
        forall|lower: &Point<2>, upper: &Point<2>, origin: &Point<2>|
            side_of.requires((lower, upper, origin)),
    ensures
        is_hit_of(*point, *a, *b, *side_of, hit),
{
    let origin = coordinates_of(point);
    let first = coordinates_of(a);
    let second = coordinates_of(b);
    let side = if Scalar::in_order(&first.1, &second.1) {
        side_of(a, b, point)
    } else {
        side_of(b, a, point)
    };
    ray_segment(origin, first, second, side)
}

/// Where the point lies relative to the face
///
/// A horizontal ray is cast from the point to the right, and every edge of
/// the face is held against it, as the segment from the position at which
/// the edge starts to the position at which the next edge of its cycle
/// starts. The face is then classified by how the ray meets the edges.
///
/// `side_of` says on which side of the line through two positions, seen from
/// the first towards the second, a third position lies. It is asked for the
/// lower end of each segment, its upper end, and the point.
pub fn intersect_point<F: Fn(&Point<2>, &Point<2>, &Point<2>) -> Side>(
    objects: &Objects,
    face: &Face,
    point: &Point<2>,
    side_of: F,
) -> (r: Option<FacePointIntersection>)
    requires
        face_is_whole(*objects, *face),
        forall|lower: &Point<2>, upper: &Point<2>, origin: &Point<2>|
            side_of.requires((lower, upper, origin)),
    ensures
        exists|casts: Seq<Seq<EdgeCast>>|
            is_cast_from(*objects, *face, casts, *point, side_of) && r == classification(casts),
{
    let side = &side_of;
    let ray = |a: &Point<2>, b: &Point<2>| -> (hit: Option<RaySegmentIntersection>)
        ensures
            is_hit_of(*point, *a, *b, *side, hit),
        { hit_of(point, a, b, side) };
    let r = intersect_face(objects, face, ray);
    proof {
        let casts = choose|casts: Seq<Seq<EdgeCast>>|
            is_cast_of(*objects, *face, casts, ray) && r == classification(casts);
        let cycles = all_cycles(objects.regions.object(face.region));
        assert forall|c: int| 0 <= c < casts.len() implies (#[trigger] casts[c]).len()
            == objects.cycles.object(cycles[c]).edges@.len() by {
            assert(is_cast_of_cycle(
                *objects,
                objects.cycles.object(cycles[c]).edges@,
                casts[c],
                ray,
            ));
        }
        assert forall|c: int, i: int| 0 <= c < casts.len() && 0 <= i < casts[c].len() implies {
            let edges = objects.cycles.object(cycles[c]).edges@;
            &&& (#[trigger] casts[c][i]).edge == edges[i]
            &&& casts[c][i].start == objects.edges.object(edges[i]).start_position
            &&& is_hit_of(
                *point,
                objects.edges.object(edges[i]).start_position,
                objects.edges.object(edges[(i + 1) % (edges.len() as int)]).start_position,
                side_of,
                casts[c][i].hit,
            )
        } by {
            assert(is_cast_of_cycle(
                *objects,
                objects.cycles.object(cycles[c]).edges@,
                casts[c],
                ray,
            ));
        }
        assert(is_cast_from(*objects, *face, casts, *point, side_of));
    }
    r
}

} // verus!
