//! Construction of faces, step by step.

use super::build_cycle::{grown_by, holds_segment, BuildCycle};
use super::insert::Insert;
use crate::objects::stores::{same_but, Kind};
use crate::objects::{Cycle, Objects, Surface};
use crate::storage::Handle;
use fj_math::Point;
use vstd::prelude::*;

verus! {

/// A face that is not complete yet: its parts are given one by one
#[derive(Debug)]
pub struct PartialFace {
    /// The surface on which the face lies, once it is known
    pub surface: Option<Handle<Surface>>,
    /// The cycle that bounds the face on the outside, once it is known
    pub exterior: Option<Handle<Cycle>>,
    /// The cycles that bound the holes of the face
    pub interiors: Vec<Handle<Cycle>>,
}

/// The stores have grown by the polygon with the given corners, and by the
/// cycle that holds its edges, which `cycle` refers to
pub open spec fn polygon_inserted(
    before: Objects,
    after: Objects,
    points: Seq<Point<2>>,
    cycle: Handle<Cycle>,
) -> bool {
    let n = points.len() as int;
    &&& same_but(before, after, set![Kind::Curve, Kind::Vertex, Kind::Edge, Kind::Cycle])
    &&& grown_by(Objects { cycles: after.cycles, ..before }, after, n)
    &&& after.cycles.arena() == before.cycles.arena()
    &&& after.cycles@.len() == before.cycles@.len() + 1
    &&& after.cycles@.subrange(0, before.cycles@.len() as int) == before.cycles@
    &&& cycle@@ == (before.cycles.arena(), before.cycles@.len())
    &&& after.cycles.filled(cycle)
    &&& after.cycles.object(cycle).edges@.len() == n
    &&& forall|i: int|
        0 <= i < n ==> (#[trigger] after.cycles.object(cycle).edges@[i])@@ == (
            before.edges.arena(),
            (before.edges@.len() + i) as nat,
        )
    &&& forall|i: int|
        0 <= i < n ==> holds_segment(
            after,
            before.edges@.len() + i,
            before.curves@.len() + i,
            before.vertices@.len() + i,
            #[trigger] points[i],
            points[(i + 1) % n],
        )
}

/// Builder API for [`PartialFace`]
pub trait FaceBuilder {
    /// Update the [`PartialFace`] with an exterior polygon
    fn with_exterior_polygon_from_points(
        &mut self,
        surface: Handle<Surface>,
        points: Vec<Point<2>>,
        objects: &mut Objects,
    );

    /// Update the [`PartialFace`] with an interior polygon
    fn with_interior_polygon_from_points(
        &mut self,
        surface: Handle<Surface>,
        points: Vec<Point<2>>,
        objects: &mut Objects,
    );
}

/// Builds the polygon and inserts it
fn insert_polygon(points: Vec<Point<2>>, objects: &mut Objects) -> (cycle: Handle<Cycle>)
    ensures
        polygon_inserted(*old(objects), *final(objects), points@, cycle),
{
    let ghost corners = points@;
    let polygon = Cycle::polygon(points, objects);
    let ghost built = *objects;
    let handle = polygon.insert(objects);
    proof {
        assert(objects.cycles@.subrange(0, old(objects).cycles@.len() as int) =~= old(
            objects,
        ).cycles@);
        assert(objects.curves@.subrange(0, old(objects).curves@.len() as int) == old(
            objects,
        ).curves@);
        assert forall|i: int| 0 <= i < corners.len() implies holds_segment(
            *objects,
            old(objects).edges@.len() + i,
            old(objects).curves@.len() + i,
            old(objects).vertices@.len() + i,
            #[trigger] corners[i],
            corners[(i + 1) % (corners.len() as int)],
        ) by {
            assert(holds_segment(
                built,
                old(objects).edges@.len() + i,
                old(objects).curves@.len() + i,
                old(objects).vertices@.len() + i,
                corners[i],
                corners[(i + 1) % (corners.len() as int)],
            ));
        }
    }
    handle
}

impl FaceBuilder for PartialFace {
    /// The polygon is inserted, and is the exterior of the face from now on.
    fn with_exterior_polygon_from_points(
        &mut self,
        surface: Handle<Surface>,
        points: Vec<Point<2>>,
        objects: &mut Objects,
    )
        ensures
            final(self).surface == Some(surface),
            final(self).interiors == old(self).interiors,
            final(self).exterior is Some,
            polygon_inserted(*old(objects), *final(objects), points@, final(self).exterior->0),
    {
        let cycle = insert_polygon(points, objects);
        self.surface = Some(surface);
        self.exterior = Some(cycle);
    }

    /// The polygon is inserted, and takes the place of the interior cycles
    /// that the face had.
    fn with_interior_polygon_from_points(
        &mut self,
        surface: Handle<Surface>,
        points: Vec<Point<2>>,
        objects: &mut Objects,
    )
        ensures
            final(self).surface == Some(surface),
            final(self).exterior == old(self).exterior,
            final(self).interiors@.len() == 1,
            polygon_inserted(*old(objects), *final(objects), points@, final(self).interiors@[0]),
    {
        let cycle = insert_polygon(points, objects);
        self.surface = Some(surface);
        self.interiors = vec![cycle];
    }
}

} // verus!
