//! The types of `fj_math` that the kernel carries through, and the few calls
//! into that crate that it makes.
//!
//! A value of one of these types is opaque to the verifier: the kernel stores
//! it and hands it on, and learns about it only through the functions below.

use crate::order::Ordered;
use fj_math::{Line, Point, Scalar, Vector};
use vstd::prelude::*;

verus! {

/// `fj_math::Scalar`: a number that is not NaN
#[verifier::external_type_specification]
#[verifier::external_body]
pub struct ExScalar(fj_math::Scalar);

/// `fj_math::Point`: a position, of any dimension
#[verifier::external_type_specification]
#[verifier::external_body]
pub struct ExPoint<const D: usize>(fj_math::Point<D>);

/// `fj_math::Vector`: a direction and a length, of any dimension
#[verifier::external_type_specification]
#[verifier::external_body]
pub struct ExVector<const D: usize>(fj_math::Vector<D>);

/// `fj_math::Line`: a line without ends, of any dimension
#[verifier::external_type_specification]
#[verifier::external_body]
pub struct ExLine<const D: usize>(fj_math::Line<D>);

/// `fj_math::Circle`: a circle, of any dimension
#[verifier::external_type_specification]
#[verifier::external_body]
pub struct ExCircle<const D: usize>(fj_math::Circle<D>);

/// One of the three axes of model space
#[derive(Clone, Copy, Debug, PartialEq, Eq, Structural, Hash)]
pub enum Axis {
    X,
    Y,
    Z,
}

/// The vector of length one along an axis, as `fj_math` makes it
pub uninterp spec fn unit_vector(axis: Axis) -> Vector<3>;

/// The line through the origin of model space in a direction, as `fj_math`
/// makes it
pub uninterp spec fn line_through_origin(direction: Vector<3>) -> Line<3>;

/// Calls `Vector::unit_x`, `Vector::unit_y` or `Vector::unit_z` of `fj_math`,
/// which take nothing and return the same vector at every call. The contract
/// claims only that: the result is the one vector that belongs to the axis.
#[verifier::external_body]
pub(crate) fn unit(axis: Axis) -> (v: Vector<3>)
    ensures
        v == unit_vector(axis),
{
    match axis {
        Axis::X => Vector::unit_x(),
        Axis::Y => Vector::unit_y(),
        Axis::Z => Vector::unit_z(),
    }
}

/// Calls `Line::from_origin_and_direction` of `fj_math` with `Point::origin()`
/// as the origin. That function stores the two values and computes nothing
/// else; it panics where the direction has no length, which is not so for
/// the unit vector of an axis, which the contract asks for.
#[verifier::external_body]
pub(crate) fn axis_line(direction: Vector<3>) -> (line: Line<3>)
    requires
        exists|axis: Axis| direction == unit_vector(axis),
    ensures
        line == line_through_origin(direction),
{
    Line::from_origin_and_direction(Point::origin(), direction)
}

/// What `<=` of `fj_math::Scalar` says of two scalars
pub uninterp spec fn scalar_at_most(a: Scalar, b: Scalar) -> bool;

/// What `<=` of `fj_math::Point<1>` says of two points
pub uninterp spec fn point_at_most(a: Point<1>, b: Point<1>) -> bool;

/// Calls `<=` of `fj_math::Scalar`, which compares the two numbers. A scalar
/// is never NaN, so the comparison is decided and is the same at every call.
/// The contract claims that: the result is a function of the two scalars,
/// and of two scalars one is at most the other.
#[verifier::external_body]
fn scalars_in_order(a: &Scalar, b: &Scalar) -> (r: bool)
    ensures
        r == scalar_at_most(*a, *b),
        !r ==> scalar_at_most(*b, *a),
{
    a <= b
}

/// Calls `<=` of `fj_math::Point<1>`, which compares the one coordinate of
/// the two points, a scalar. The contract claims that the result is a
/// function of the two points, and that of two points one is at most the
/// other.
#[verifier::external_body]
fn points_in_order(a: &Point<1>, b: &Point<1>) -> (r: bool)
    ensures
        r == point_at_most(*a, *b),
        !r ==> point_at_most(*b, *a),
{
    a <= b
}

/// The two coordinates of a position on a surface, as `fj_math` holds them
pub uninterp spec fn coordinates(point: Point<2>) -> (Scalar, Scalar);

/// Reads the fields `u` and `v` of a `fj_math::Point<2>`, which it has
/// through `Deref`: the first and the second of its two coordinates. The
/// contract claims only that the result is a function of the point.
#[verifier::external_body]
pub(crate) fn coordinates_of(point: &Point<2>) -> (r: (Scalar, Scalar))
    ensures
        r == coordinates(*point),
{
    (point.u, point.v)
}

/// Scalars are ordered as numbers.
impl Ordered for Scalar {
    open spec fn ordered(a: Scalar, b: Scalar) -> bool {
        scalar_at_most(a, b)
    }

    fn in_order(a: &Scalar, b: &Scalar) -> (r: bool) {
        scalars_in_order(a, b)
    }
}

/// Positions on a curve are ordered as their coordinates are.
impl Ordered for Point<1> {
    open spec fn ordered(a: Point<1>, b: Point<1>) -> bool {
        point_at_most(a, b)
    }

    fn in_order(a: &Point<1>, b: &Point<1>) -> (r: bool) {
        points_in_order(a, b)
    }
}

} // verus!
