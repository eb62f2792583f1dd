//! The kinds of object. An object refers to the objects that it is made of by
//! their handles.

use crate::geometry::path::SurfaceGeometry;
use crate::storage::Handle;
use fj_math::Point;
use vstd::prelude::*;

verus! {

/// A curve: what edges that coincide have in common
#[derive(Clone, Copy, Debug, Default, PartialEq, Eq, PartialOrd, Ord, Hash)]
pub struct Curve {}

/// A vertex: what edges that meet in a point have in common
#[derive(Clone, Copy, Debug, Default, PartialEq, Eq, PartialOrd, Ord, Hash)]
pub struct Vertex {}

/// A two-dimensional shape in model space
#[derive(Clone, Copy, Debug)]
pub struct Surface {
    geometry: SurfaceGeometry,
}

impl Surface {
    /// The geometry that the surface was made from
    pub closed spec fn spec_geometry(&self) -> SurfaceGeometry {
        self.geometry
    }

    /// Construct a surface from its geometry
    pub fn new(geometry: SurfaceGeometry) -> (surface: Surface)
        ensures
            surface.spec_geometry() == geometry,
    {
        Surface { geometry }
    }

    /// Access the geometry of the surface
    pub fn geometry(&self) -> (geometry: SurfaceGeometry)
        ensures
            geometry == self.spec_geometry(),
    {
        self.geometry
    }
}

/// A directed edge of a cycle, in the coordinates of the cycle's surface
///
/// In a cycle, an edge ends where the next edge starts.
#[derive(Clone, Copy, Debug)]
pub struct Edge {
    /// The position at which the edge starts
    pub start_position: Point<2>,
    /// The position at which the edge ends
    pub end_position: Point<2>,
    /// The curve on which the edge lies
    pub curve: Handle<Curve>,
    /// The vertex at which the edge starts
    pub start_vertex: Handle<Vertex>,
}

/// A closed sequence of edges, each of which ends where the next one starts,
/// and the last of which ends where the first one starts
#[derive(Debug)]
pub struct Cycle {
    /// The edges in the order of the cycle
    pub edges: Vec<Handle<Edge>>,
}

/// A bounded part of a surface: what lies inside the exterior cycle and
/// outside every interior one
#[derive(Debug)]
pub struct Region {
    /// The cycle that bounds the region on the outside
    pub exterior: Handle<Cycle>,
    /// The cycles that bound the holes of the region
    pub interiors: Vec<Handle<Cycle>>,
}

/// A region on a surface
#[derive(Clone, Copy, Debug)]
pub struct Face {
    /// The surface on which the face lies
    pub surface: Handle<Surface>,
    /// The region that the face covers
    pub region: Handle<Region>,
}

/// A connected set of faces
#[derive(Debug)]
pub struct Shell {
    /// The faces of the shell
    pub faces: Vec<Handle<Face>>,
}

/// A body that shells bound
#[derive(Debug)]
pub struct Solid {
    /// The shells of the solid
    pub shells: Vec<Handle<Shell>>,
}

/// A set of regions on one surface
#[derive(Debug)]
pub struct Sketch {
    /// The regions of the sketch
    pub regions: Vec<Handle<Region>>,
}

} // verus!
