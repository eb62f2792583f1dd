//! Construction of edges and cycles.

use super::insert::Insert;
use crate::objects::stores::{appended, same_but, Kind};
use crate::objects::{Curve, Cycle, Edge, Objects, Vertex};
use crate::storage::Handle;
use fj_math::Point;
use itertools::Itertools;
use vstd::prelude::*;

verus! {

/// Calls `Itertools::circular_tuple_windows` of `itertools` on the points,
/// for windows of two. Its source takes the length of the iterator and then
/// as many windows from the iterator repeated without end: the contract
/// claims that there are as many windows as points, and that the window `i`
/// holds the point `i` and the point after it, which for the last point is
/// the first.
#[verifier::external_body]
fn circular_windows(points: &Vec<Point<2>>) -> (windows: Vec<(Point<2>, Point<2>)>)
    ensures
        windows@.len() == points@.len(),
        forall|i: int|
            0 <= i < points@.len() ==> #[trigger] windows@[i] == (
                points@[i],
                points@[(i + 1) % (points@.len() as int)],
            ),
{
    points.iter().copied().circular_tuple_windows().collect()
}

/// The slot `slot` of the stores holds the line segment from `start` to
/// `end`: an edge, with a curve and a vertex of its own in the slots `curve`
/// and `vertex`
pub open spec fn holds_segment(
    objects: Objects,
    slot: int,
    curve: int,
    vertex: int,
    start: Point<2>,
    end: Point<2>,
) -> bool {
    &&& 0 <= slot < objects.edges@.len()
    &&& 0 <= curve < objects.curves@.len()
    &&& 0 <= vertex < objects.vertices@.len()
    &&& objects.curves@[curve] is Some
    &&& objects.vertices@[vertex] is Some
    &&& objects.edges@[slot] matches Some(edge) && {
        &&& edge.start_position == start
        &&& edge.end_position == end
        &&& edge.curve@@ == (objects.curves.arena(), curve as nat)
        &&& edge.start_vertex@@ == (objects.vertices.arena(), vertex as nat)
    }
}

/// The stores of curves, vertices and edges have `n` more slots each in
/// `after` than in `before`, and hold in their other slots what they held;
/// the other stores are the same
pub open spec fn grown_by(before: Objects, after: Objects, n: int) -> bool {
    &&& same_but(before, after, set![Kind::Curve, Kind::Vertex, Kind::Edge])
    &&& after.curves.arena() == before.curves.arena()
    &&& after.vertices.arena() == before.vertices.arena()
    &&& after.edges.arena() == before.edges.arena()
    &&& after.curves@.len() == before.curves@.len() + n
    &&& after.vertices@.len() == before.vertices@.len() + n
    &&& after.edges@.len() == before.edges@.len() + n
    &&& after.curves@.subrange(0, before.curves@.len() as int) == before.curves@
    &&& after.vertices@.subrange(0, before.vertices@.len() as int) == before.vertices@
    &&& after.edges@.subrange(0, before.edges@.len() as int) == before.edges@
}

/// `edge` is the line segment from `start` to `end`, with a curve and a
/// vertex of its own, for which the stores of curves and of vertices have
/// one more slot each in `after` than in `before`
pub open spec fn line_segment_built(
    before: Objects,
    after: Objects,
    edge: Edge,
    start: Point<2>,
    end: Point<2>,
) -> bool {
    &&& edge.start_position == start
    &&& edge.end_position == end
    &&& appended(before.curves, after.curves, Curve {  }, edge.curve)
    &&& appended(before.vertices, after.vertices, Vertex {  }, edge.start_vertex)
    &&& same_but(before, after, set![Kind::Curve, Kind::Vertex])
}

impl Edge {
    /// Create a line segment from its two ends
    ///
    /// The edge gets a curve and a vertex of its own, which are inserted. The
    /// edge itself is not.
    pub fn line_segment(start: Point<2>, end: Point<2>, objects: &mut Objects) -> (edge: Edge)
        ensures
            old(objects).surfaces.wf() ==> final(objects).surfaces.wf(),
            line_segment_built(*old(objects), *final(objects), edge, start, end),
    {
        let curve = Curve {  }.insert(objects);
        let start_vertex = Vertex {  }.insert(objects);
        Edge { start_position: start, end_position: end, curve, start_vertex }
    }
}

/// Build a [`Cycle`]
pub trait BuildCycle: Sized {
    /// Build an empty cycle
    fn empty() -> Cycle;

    /// Build a polygon
    fn polygon(points: Vec<Point<2>>, objects: &mut Objects) -> Cycle
    ;
}

impl BuildCycle for Cycle {
    fn empty() -> (cycle: Cycle)
        ensures
            cycle.edges@ == Seq::<Handle<Edge>>::empty(),
    {
        Cycle { edges: Vec::new() }
    }

    /// The polygon has an edge for each point, from that point to the next
    /// and from the last to the first. Every edge is a line segment and is
    /// inserted, with a curve and a vertex of its own, in the order of the
    /// points.
    fn polygon(points: Vec<Point<2>>, objects: &mut Objects) -> (cycle: Cycle)
        ensures
            old(objects).surfaces.wf() ==> final(objects).surfaces.wf(),
            grown_by(*old(objects), *final(objects), points@.len() as int),
            cycle.edges@.len() == points@.len(),
            forall|i: int|
                0 <= i < points@.len() ==> (#[trigger] cycle.edges@[i])@@ == (
                    old(objects).edges.arena(),
                    (old(objects).edges@.len() + i) as nat,
                ),
            forall|i: int|
                0 <= i < points@.len() ==> holds_segment(
                    *final(objects),
                    old(objects).edges@.len() + i,
                    old(objects).curves@.len() + i,
                    old(objects).vertices@.len() + i,
                    #[trigger] points@[i],
                    points@[(i + 1) % (points@.len() as int)],
                ),
    {
        let windows = circular_windows(&points);
        let n = windows.len();
        let mut edges: Vec<Handle<Edge>> = Vec::new();

        let mut i: usize = 0;
        assert(objects.curves@.subrange(0, objects.curves@.len() as int) == objects.curves@);
        assert(objects.vertices@.subrange(0, objects.vertices@.len() as int)
            == objects.vertices@);
        assert(objects.edges@.subrange(0, objects.edges@.len() as int) == objects.edges@);
        while i < n
            invariant
                i <= n,
                n == windows@.len(),
                n == points@.len(),
                old(objects).surfaces.wf() ==> objects.surfaces.wf(),
                grown_by(*old(objects), *objects, i as int),
                edges@.len() == i,
                forall|k: int|
                    0 <= k < points@.len() ==> #[trigger] windows@[k] == (
                        points@[k],
                        points@[(k + 1) % (points@.len() as int)],
                    ),
                forall|k: int|
                    0 <= k < i ==> (#[trigger] edges@[k])@@ == (
                        old(objects).edges.arena(),
                        (old(objects).edges@.len() + k) as nat,
                    ),
                forall|k: int|
                    0 <= k < i ==> holds_segment(
                        *objects,
                        old(objects).edges@.len() + k,
                        old(objects).curves@.len() + k,
                        old(objects).vertices@.len() + k,
                        #[trigger] points@[k],
                        points@[(k + 1) % (points@.len() as int)],
                    ),
            decreases n - i,
        {
            let ghost before = *objects;
            let (start, end) = windows[i];
            let edge = Edge::line_segment(start, end, objects);
            let handle = edge.insert(objects);
            edges.push(handle);
            proof {
                assert(objects.curves@ =~= before.curves@.push(Some(Curve {  })));
                assert(objects.vertices@ =~= before.vertices@.push(Some(Vertex {  })));
                assert(objects.edges@ =~= before.edges@.push(Some(edge)));
                assert(objects.curves@.subrange(0, old(objects).curves@.len() as int)
                    =~= before.curves@.subrange(0, old(objects).curves@.len() as int));
                assert(objects.vertices@.subrange(0, old(objects).vertices@.len() as int)
                    =~= before.vertices@.subrange(0, old(objects).vertices@.len() as int));
                assert(objects.edges@.subrange(0, old(objects).edges@.len() as int)
                    =~= before.edges@.subrange(0, old(objects).edges@.len() as int));
                assert forall|k: int| 0 <= k < i + 1 implies holds_segment(
                    *objects,
                    old(objects).edges@.len() + k,
                    old(objects).curves@.len() + k,
                    old(objects).vertices@.len() + k,
                    #[trigger] points@[k],
                    points@[(k + 1) % (points@.len() as int)],
                ) by {
                    if k < i {
                        assert(holds_segment(
                            before,
                            old(objects).edges@.len() + k,
                            old(objects).curves@.len() + k,
                            old(objects).vertices@.len() + k,
                            points@[k],
                            points@[(k + 1) % (points@.len() as int)],
                        ));
                    } else {
                        assert(windows@[k] == (
                            points@[k],
                            points@[(k + 1) % (points@.len() as int)],
                        ));
                    }
                }
            }
            i += 1;
        }

        Cycle { edges }
    }
}

} // verus!
