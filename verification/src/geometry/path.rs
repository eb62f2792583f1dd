//! Paths through model space, and the geometry of surfaces.

use crate::math::{axis_line, line_through_origin, unit, unit_vector, Axis};
use fj_math::{Circle, Line, Vector};
use vstd::prelude::*;

verus! {

/// A path through global (3D) space
#[derive(Clone, Copy, Debug, PartialEq, Eq, PartialOrd, Ord, Hash)]
pub enum GlobalPath {
    /// A circle
    Circle(Circle<3>),
    /// A line
    Line(Line<3>),
}

impl GlobalPath {
    /// The line through the origin along an axis
    pub open spec fn axis(axis: Axis) -> GlobalPath {
        GlobalPath::Line(line_through_origin(unit_vector(axis)))
    }

    /// Construct a `GlobalPath` that represents the x-axis
    pub fn x_axis() -> (path: GlobalPath)
        ensures
            path == GlobalPath::axis(Axis::X),
    {
        GlobalPath::Line(axis_line(unit(Axis::X)))
    }

    /// Construct a `GlobalPath` that represents the y-axis
    pub fn y_axis() -> (path: GlobalPath)
        ensures
            path == GlobalPath::axis(Axis::Y),
    {
        GlobalPath::Line(axis_line(unit(Axis::Y)))
    }

    /// Construct a `GlobalPath` that represents the z-axis
    pub fn z_axis() -> (path: GlobalPath)
        ensures
            path == GlobalPath::axis(Axis::Z),
    {
        GlobalPath::Line(axis_line(unit(Axis::Z)))
    }
}

/// The geometry that defines a surface: a path, swept along a vector
#[derive(Clone, Copy, Debug, PartialEq, Eq, PartialOrd, Ord, Hash)]
pub struct SurfaceGeometry {
    /// The u-axis of the surface
    pub u: GlobalPath,
    /// The v-axis of the surface
    pub v: Vector<3>,
}

impl SurfaceGeometry {
    /// The plane through the origin that two axes span
    pub open spec fn plane(u: Axis, v: Axis) -> SurfaceGeometry {
        SurfaceGeometry { u: GlobalPath::axis(u), v: unit_vector(v) }
    }
}

} // verus!
