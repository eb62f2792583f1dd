//! Boundaries on a curve, and the interval algebra of those made of curve
//! coordinates.

use crate::objects::Vertex;
use crate::storage::HandleWrapper;
use crate::order::{before, earlier, is_total, later, Ordered};
use fj_math::Point;
use std::hash::Hash;
use vstd::prelude::*;

verus! {

/// An element of a curve boundary
///
/// Used for the type parameter of [`CurveBoundary`].
pub trait CurveBoundaryElement {
    /// The representation of the curve boundary element
    ///
    /// This is the actual data stored in [`CurveBoundary`].
    type Repr: Eq + Hash + Ord + Ordered;
}

/// An element of a curve boundary whose order is the order along the curve
///
/// Boundaries of such elements are intervals, which overlap, contain one
/// another and are joined.
pub trait CurveCoordinate: CurveBoundaryElement {

}

/// A position on the curve, in the coordinates of the curve, bounds a stretch
/// of it. The order of the positions is the order along the curve.
impl CurveBoundaryElement for Point<1> {
    type Repr = Self;
}

impl CurveCoordinate for Point<1> {

}

/// A vertex bounds a stretch of a curve by its identity. The order of two
/// vertices is the order of their ids, which serves to normalize a boundary
/// and says nothing of where on the curve the vertices lie.
impl CurveBoundaryElement for Vertex {
    type Repr = HandleWrapper<Vertex>;
}

/// A boundary on a curve: the pair of elements that bound a stretch of it, in
/// the direction of the stretch
#[derive(Debug, PartialEq, Eq, PartialOrd, Ord, Hash)]
pub struct CurveBoundary<T: CurveBoundaryElement> {
    /// The raw representation of the boundary
    pub inner: [T::Repr; 2],
}

impl<T: CurveBoundaryElement> Clone for CurveBoundary<T> {
    fn clone(&self) -> (r: Self)
        ensures
            r == *self,
    {
        *self
    }
}

impl<T: CurveBoundaryElement> Copy for CurveBoundary<T> {

}

impl<T: CurveBoundaryElement> From<[T::Repr; 2]> for CurveBoundary<T> {
    fn from(boundary: [T::Repr; 2]) -> (r: Self)
        ensures
            r.inner == boundary,
    {
        Self { inner: boundary }
    }
}

impl<T: CurveBoundaryElement> vstd::std_specs::convert::FromSpecImpl<[T::Repr; 2]> for CurveBoundary<T> {
    open spec fn obeys_from_spec() -> bool {
        true
    }

    open spec fn from_spec(boundary: [T::Repr; 2]) -> Self {
        CurveBoundary { inner: boundary }
    }
}

impl<T: CurveBoundaryElement> CurveBoundary<T> {
    /// The element at which the boundary starts
    pub open spec fn start(self) -> T::Repr {
        self.inner[0]
    }

    /// The element at which the boundary ends
    pub open spec fn end(self) -> T::Repr {
        self.inner[1]
    }

    /// The first element of the normalized boundary
    pub open spec fn low(self) -> T::Repr {
        if T::Repr::ordered(self.start(), self.end()) {
            self.start()
        } else {
            self.end()
        }
    }

    /// The second element of the normalized boundary
    pub open spec fn high(self) -> T::Repr {
        if T::Repr::ordered(self.start(), self.end()) {
            self.end()
        } else {
            self.start()
        }
    }

    /// Whether the two boundaries, normalized, share an element; those that
    /// only touch do
    pub open spec fn touches(self, other: Self) -> bool {
        T::Repr::ordered(self.low(), other.high()) && T::Repr::ordered(other.low(), self.high())
    }

    /// Indicate whether the boundary is normalized
    ///
    /// If the boundary is normalized, its bounding elements are in a defined
    /// order, and calling `normalize` will return an identical instance.
    pub fn is_normalized(&self) -> (r: bool)
        ensures
            r == T::Repr::ordered(self.start(), self.end()),
            !r ==> T::Repr::ordered(self.end(), self.start()),
    {
        T::Repr::in_order(&self.inner[0], &self.inner[1])
    }

    /// Reverse the direction of the boundary
    ///
    /// Returns a new instance of this struct, which has its direction reversed.
    #[must_use]
    pub fn reverse(self) -> (r: Self)
        ensures
            r.start() == self.end(),
            r.end() == self.start(),
    {
        Self { inner: [self.inner[1], self.inner[0]] }
    }

    /// Normalize the boundary
    ///
    /// Returns a new instance of this struct, which has the bounding elements
    /// in a defined order. This can be used to compare boundaries while
    /// disregarding their direction.
    #[must_use]
    pub fn normalize(self) -> (r: Self)
        ensures
            T::Repr::ordered(self.start(), self.end()) ==> r == self,
            r.start() == self.low(),
            r.end() == self.high(),
            T::Repr::ordered(r.start(), r.end()),
    {
        if self.is_normalized() {
            self
        } else {
            self.reverse()
        }
    }
}

// These methods are for coordinates alone. The order of vertices, which is
// the order of their ids, serves to normalize a boundary; it does not say
// which vertex lies before which on the curve, and so nothing of what two
// boundaries of vertices have in common.
impl<T: CurveCoordinate> CurveBoundary<T> {
    /// Indicate whether the boundary is empty: whether it ends where it
    /// starts, or before
    pub fn is_empty(&self) -> (r: bool)
        ensures
            r == T::Repr::ordered(self.end(), self.start()),
    {
        T::Repr::in_order(&self.inner[1], &self.inner[0])
    }

    /// Indicate whether the boundary contains the given element: whether the
    /// element lies after its start and before its end
    pub fn contains(&self, point: T::Repr) -> (r: bool)
        ensures
            r == (before(self.start(), point) && before(point, self.end())),
    {
        !T::Repr::in_order(&point, &self.inner[0]) && !T::Repr::in_order(&self.inner[1], &point)
    }

    /// Indicate whether the boundary overlaps another
    ///
    /// Boundaries that touch (i.e. their closest boundary elements are equal)
    /// count as overlapping.
    pub fn overlaps(&self, other: &Self) -> (r: bool)
        ensures
            r == self.touches(*other),
    {
        let a = self.normalize();
        let b = other.normalize();

        T::Repr::in_order(&a.inner[0], &b.inner[1]) && T::Repr::in_order(&b.inner[0], &a.inner[1])
    }

    /// Create the subset of this boundary and another: what the two, both
    /// normalized, have in common
    ///
    /// The result starts at the later of the two first elements and ends at
    /// the earlier of the two second elements.
    #[must_use]
    pub fn subset(self, other: Self) -> (r: Self)
        ensures
            r.start() == later(self.low(), other.low()),
            r.end() == earlier(self.high(), other.high()),
    {
        let self_ = self.normalize();
        let other = other.normalize();

        let min = crate::order::max(self_.inner[0], other.inner[0]);
        let max = crate::order::min(self_.inner[1], other.inner[1]);

        Self { inner: [min, max] }
    }

    /// Create the union of this boundary and another, which must overlap it
    /// (touching counts as overlapping)
    ///
    /// The result starts at the earlier of the two first elements, both
    /// boundaries normalized, and ends at the later of the two second
    /// elements.
    pub fn union(self, other: Self) -> (r: Self)
        requires
            self.touches(other),
        ensures
            r.start() == earlier(self.low(), other.low()),
            r.end() == later(self.high(), other.high()),
    {
        self.span(other)
    }

    /// Create the union of this boundary and another, if they overlap
    /// (touching counts as overlapping)
    pub fn try_union(self, other: Self) -> (r: Option<Self>)
        ensures
            (r is Some) == self.touches(other),
            r is Some ==> r->0.start() == earlier(self.low(), other.low()) && r->0.end() == later(
                self.high(),
                other.high(),
            ),
    {
        if self.overlaps(&other) {
            Some(self.span(other))
        } else {
            None
        }
    }

    /// The boundary from the earlier of the two first elements, both
    /// boundaries normalized, to the later of the two second elements
    fn span(self, other: Self) -> (r: Self)
        ensures
            r.start() == earlier(self.low(), other.low()),
            r.end() == later(self.high(), other.high()),
    {
        let self_ = self.normalize();
        let other = other.normalize();

        let min = crate::order::min(self_.inner[0], other.inner[0]);
        let max = crate::order::max(self_.inner[1], other.inner[1]);

        Self { inner: [min, max] }
    }
}

/// Where the order of the elements is total, a boundary in its normal form
/// is normalized, and it is the boundary itself or its reverse.
pub proof fn lemma_normal_form<T: CurveBoundaryElement>(boundary: CurveBoundary<T>)
    requires
        is_total::<T::Repr>(),
    ensures
        T::Repr::ordered(boundary.low(), boundary.high()),
        (boundary.low() == boundary.start() && boundary.high() == boundary.end()) || (
        boundary.low() == boundary.end() && boundary.high() == boundary.start()),
{
}

/// Whether two boundaries overlap does not depend on which of them is asked.
pub proof fn lemma_overlap_is_mutual<T: CurveBoundaryElement>(
    a: CurveBoundary<T>,
    b: CurveBoundary<T>,
)
    ensures
        a.touches(b) == b.touches(a),
{
}

/// Where the order of the elements is total, the union of two boundaries
/// covers both, and it starts and ends where one of them does. The union of
/// two that overlap is normalized.
pub proof fn lemma_union_covers_both<T: CurveBoundaryElement>(
    a: CurveBoundary<T>,
    b: CurveBoundary<T>,
)
    requires
        is_total::<T::Repr>(),
    ensures
        T::Repr::ordered(earlier(a.low(), b.low()), a.low()),
        T::Repr::ordered(earlier(a.low(), b.low()), b.low()),
        T::Repr::ordered(a.high(), later(a.high(), b.high())),
        T::Repr::ordered(b.high(), later(a.high(), b.high())),
        earlier(a.low(), b.low()) == a.low() || earlier(a.low(), b.low()) == b.low(),
        later(a.high(), b.high()) == a.high() || later(a.high(), b.high()) == b.high(),
        a.touches(b) ==> T::Repr::ordered(earlier(a.low(), b.low()), later(a.high(), b.high())),
{
}

/// Where the order of the elements is total, the subset of two boundaries
/// lies within both, and it is normalized if and only if the two overlap.
pub proof fn lemma_subset_lies_within_both<T: CurveBoundaryElement>(
    a: CurveBoundary<T>,
    b: CurveBoundary<T>,
)
    requires
        is_total::<T::Repr>(),
    ensures
        T::Repr::ordered(a.low(), later(a.low(), b.low())),
        T::Repr::ordered(b.low(), later(a.low(), b.low())),
        T::Repr::ordered(earlier(a.high(), b.high()), a.high()),
        T::Repr::ordered(earlier(a.high(), b.high()), b.high()),
        T::Repr::ordered(later(a.low(), b.low()), earlier(a.high(), b.high())) == a.touches(b),
{
}

} // verus!
