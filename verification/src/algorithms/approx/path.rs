//! # Path approximation
//!
//! Since paths are infinite (even circles have an infinite coordinate space,
//! even though they connect to themselves in global coordinates), a range must
//! be provided to approximate them. The approximation then returns points
//! within that range.
//!
//! The boundaries of the range are not included in the approximation. This is
//! done, to give the caller (who knows the boundary anyway) more options on how
//! to further process the approximation.
//!
//! ## Determinism
//!
//! The points that approximate a path lie on a lattice: the point with the
//! index `i` has the path coordinate `i` times an increment, and the increment
//! depends on the path and on the tolerance alone. A range selects the points
//! of the lattice that lie strictly inside it, and says in which order they
//! are returned; it has no part in where they lie. Approximations of ranges of
//! one path therefore fit together, whichever ranges they are.
//!
//! This module decides which points of the lattice are selected, by their
//! indices, and in which order. The caller places a range on the lattice, as
//! a [`LatticeWindow`], and turns the selected indices into coordinates.

use crate::order::{before, Ordered};
use crate::geometry::path::GlobalPath;
use fj_math::Point;
use vstd::prelude::*;

verus! {

/// The range on which a path should be approximated
#[derive(Clone, Copy, Debug, PartialEq, Eq, PartialOrd, Ord)]
pub struct RangeOnPath {
    boundary: [Point<1>; 2],
    is_reversed: bool,
}

impl RangeOnPath {
    /// The boundary of the range, the lower element first
    pub closed spec fn spec_boundary(&self) -> [Point<1>; 2] {
        self.boundary
    }

    /// Whether the elements were given in the other order
    pub closed spec fn spec_is_reversed(&self) -> bool {
        self.is_reversed
    }

    /// The range with the two elements as its boundary
    pub closed spec fn spec_new(boundary: [Point<1>; 2]) -> RangeOnPath {
        if before(boundary[0], boundary[1]) {
            RangeOnPath { boundary, is_reversed: false }
        } else {
            RangeOnPath { boundary: [boundary[1], boundary[0]], is_reversed: true }
        }
    }

    /// Construct an instance of `RangeOnPath`
    ///
    /// Ranges are normalized on construction, meaning that the order of
    /// vertices passed to this constructor does not influence the range that is
    /// constructed: the element that comes before the other is the first of
    /// the boundary.
    ///
    /// The caller can use `is_reversed` to determine, if the range was reversed
    /// during normalization, to adjust the approximation accordingly. A range
    /// counts as reversed unless its first element comes before its second.
    pub fn new(boundary: [Point<1>; 2]) -> (range: Self)
        ensures
            range == Self::spec_new(boundary),
            range.spec_is_reversed() == !before(boundary[0], boundary[1]),
            range.spec_boundary()[0] == if before(boundary[0], boundary[1]) {
                boundary[0]
            } else {
                boundary[1]
            },
            range.spec_boundary()[1] == if before(boundary[0], boundary[1]) {
                boundary[1]
            } else {
                boundary[0]
            },
    {
        let a = boundary[0];
        let b = boundary[1];

        if !Point::<1>::in_order(&b, &a) {
            let range = Self { boundary: [a, b], is_reversed: false };
            assert(range.boundary =~= boundary);
            range
        } else {
            let range = Self { boundary: [b, a], is_reversed: true };
            assert(range.boundary =~= [boundary[1], boundary[0]]);
            range
        }
    }

    /// Indicate whether the range was reversed during normalization
    pub fn is_reversed(&self) -> (r: bool)
        ensures
            r == self.spec_is_reversed(),
    {
        self.is_reversed
    }

    /// Access the boundary of the range
    pub fn boundary(&self) -> (r: [Point<1>; 2])
        ensures
            r == self.spec_boundary(),
    {
        self.boundary
    }
}

impl From<[Point<1>; 2]> for RangeOnPath {
    fn from(boundary: [Point<1>; 2]) -> (range: Self)
        ensures
            range.spec_is_reversed() == !before(boundary[0], boundary[1]),
            range.spec_boundary()[0] == if before(boundary[0], boundary[1]) {
                boundary[0]
            } else {
                boundary[1]
            },
            range.spec_boundary()[1] == if before(boundary[0], boundary[1]) {
                boundary[1]
            } else {
                boundary[0]
            },
    {
        Self::new(boundary)
    }
}

impl vstd::std_specs::convert::FromSpecImpl<[Point<1>; 2]> for RangeOnPath {
    open spec fn obeys_from_spec() -> bool {
        true
    }

    open spec fn from_spec(boundary: [Point<1>; 2]) -> Self {
        RangeOnPath::spec_new(boundary)
    }
}

/// A range on the lattice of a path
///
/// Where `increment` is the distance of two points of the lattice, the range
/// from `a` to `b`, in this order, has the window with `after` the largest
/// whole number that is at most `a / increment`, and `before` the smallest
/// whole number that is at least `b / increment`.
#[derive(Clone, Copy, Debug, PartialEq, Eq, Structural)]
pub struct LatticeWindow {
    /// The index of the last point of the lattice at or before the start of
    /// the range
    pub after: i64,
    /// The index of the first point of the lattice at or after the end of the
    /// range
    pub before: i64,
}

/// The indices of the points of the lattice that lie strictly between the
/// points `after` and `before`, in ascending order
pub open spec fn lattice_between(after: int, before: int) -> Seq<int> {
    Seq::new(
        if before - after - 1 > 0 {
            (before - after - 1) as nat
        } else {
            0
        },
        |k: int| after + 1 + k,
    )
}

/// The indices in the order in which a range returns its points: descending
/// for a range that was reversed
pub open spec fn in_order_of(indices: Seq<int>, is_reversed: bool) -> Seq<int> {
    if is_reversed {
        indices.reverse()
    } else {
        indices
    }
}

/// The values of a vector of indices
pub open spec fn values(indices: Seq<i64>) -> Seq<int> {
    Seq::new(indices.len(), |k: int| indices[k] as int)
}

/// Parameters for the approximation of a path: how many points approximate a
/// full circle, which fixes the lattice
#[derive(Clone, Copy, Debug, PartialEq, Eq, Structural)]
pub struct PathApproxParams {
    num_vertices: u64,
}

impl PathApproxParams {
    /// The number of points of the lattice on a full circle
    pub closed spec fn spec_num_vertices(&self) -> u64 {
        self.num_vertices
    }

    /// The parameters for a circle, from the smallest number of vertices with
    /// which a polygon stays within the tolerance of the circle
    ///
    /// No circle is approximated by less than 3 vertices.
    pub fn for_circle(vertices_within_tolerance: u64) -> (params: Self)
        ensures
            params.spec_num_vertices() == if vertices_within_tolerance < 3 {
                3
            } else {
                vertices_within_tolerance
            },
    {
        let num_vertices = if vertices_within_tolerance < 3 {
            3
        } else {
            vertices_within_tolerance
        };
        Self { num_vertices }
    }

    /// The number of points of the lattice on a full circle: the increment of
    /// the lattice is the full angle divided by this number
    pub fn num_vertices(&self) -> (r: u64)
        ensures
            r == self.spec_num_vertices(),
    {
        self.num_vertices
    }

    /// The indices of the points of the lattice that lie strictly inside the
    /// window, in ascending order
    pub fn points(&self, window: LatticeWindow) -> (indices: Vec<i64>)
        requires
            window.before - window.after - 1 <= usize::MAX,
        ensures
            values(indices@) == lattice_between(window.after as int, window.before as int),
    {
        let mut indices: Vec<i64> = Vec::new();
        if window.after >= window.before {
            assert(values(indices@) =~= lattice_between(
                window.after as int,
                window.before as int,
            ));
            return indices;
        }
        // A point exactly at the end of the range is no part of the
        // approximation: the last index is one step before `before`.
        let mut i: i64 = window.after + 1;
        while i < window.before
            invariant
                window.after < i <= window.before,
                values(indices@) == lattice_between(window.after as int, i as int),
            decreases window.before - i,
        {
            let ghost before = indices@;
            assert(values(before).len() == i - window.after - 1);
            indices.push(i);
            assert forall|k: int| 0 <= k < indices@.len() implies values(indices@)[k]
                == window.after + 1 + k by {
                if k < before.len() {
                    assert(values(before)[k] == window.after + 1 + k);
                }
            }
            assert(values(indices@) =~= lattice_between(window.after as int, i + 1));
            i += 1;
        }
        indices
    }
}

/// The indices of the points that approximate a path on a range, in the
/// order of the range
///
/// A line is exact without any point between the ends of the range. For a
/// circle see [`approx_circle`].
pub fn approx(
    path: &GlobalPath,
    range: &RangeOnPath,
    params: &PathApproxParams,
    window: LatticeWindow,
) -> (indices: Vec<i64>)
    requires
        window.before - window.after - 1 <= usize::MAX,
    ensures
        values(indices@) == match *path {
            GlobalPath::Circle(_) => in_order_of(
                lattice_between(window.after as int, window.before as int),
                range.spec_is_reversed(),
            ),
            GlobalPath::Line(_) => Seq::<int>::empty(),
        },
{
    match path {
        GlobalPath::Circle(_) => approx_circle(range, params, window),
        GlobalPath::Line(_) => {
            let points: Vec<i64> = Vec::new();
            assert(values(points@) =~= Seq::<int>::empty());
            points
        },
    }
}

/// Approximate a circle: the indices of the points of its lattice that lie
/// strictly inside the range
///
/// They are returned from the first element of the range, as it was given, to
/// its second: in descending order, if the range was reversed.
pub fn approx_circle(range: &RangeOnPath, params: &PathApproxParams, window: LatticeWindow) -> (indices:
    Vec<i64>)
    requires
        window.before - window.after - 1 <= usize::MAX,
    ensures
        values(indices@) == in_order_of(
            lattice_between(window.after as int, window.before as int),
            range.spec_is_reversed(),
        ),
{
    let mut points = params.points(window);

    if range.is_reversed() {
        let ghost ascending = points@;
        reverse(&mut points);
        assert(values(points@) =~= values(ascending).reverse());
    }

    points
}

/// Two ranges of one path that meet between two points of its lattice
/// select, one after the other, the points that the range from the start of
/// the first to the end of the second selects: no point twice, and none left
/// out where they meet.
///
/// `meet` is the index of the last point of the lattice before the place in
/// which the ranges meet.
pub proof fn lemma_adjacent_ranges_join(start: int, meet: int, end: int)
    requires
        start <= meet,
        meet + 1 <= end,
    ensures
        lattice_between(start, meet + 1) + lattice_between(meet, end) == lattice_between(
            start,
            end,
        ),
{
    assert(lattice_between(start, meet + 1) + lattice_between(meet, end) =~= lattice_between(
        start,
        end,
    ));
}

/// Two ranges of one path that meet in a point of its lattice select every
/// point that the range from the start of the first to the end of the second
/// selects, but the point in which they meet.
pub proof fn lemma_adjacent_ranges_meet_on_lattice(start: int, meet: int, end: int)
    requires
        start < meet < end,
    ensures
        lattice_between(start, meet) + seq![meet] + lattice_between(meet, end) == lattice_between(
            start,
            end,
        ),
{
    assert(lattice_between(start, meet) + seq![meet] + lattice_between(meet, end)
        =~= lattice_between(start, end));
}

/// The points that a range selects lie strictly inside it, each once.
pub proof fn lemma_lattice_points_lie_inside(after: int, before: int)
    ensures
        forall|k: int|
            0 <= k < lattice_between(after, before).len() ==> after < #[trigger] lattice_between(
                after,
                before,
            )[k] < before,
        forall|i: int|
            after < i < before ==> 0 <= i - after - 1 < lattice_between(after, before).len()
                && #[trigger] lattice_between(after, before)[i - after - 1] == i,
{
}

/// The range between two elements of which one comes before the other has
/// the same boundary in whichever order the two are given, and returns the
/// same points in the one order and in the reverse order.
pub proof fn lemma_reversed_range(a: Point<1>, b: Point<1>, indices: Seq<int>)
    requires
        before(a, b),
        !before(b, a),
    ensures
        RangeOnPath::spec_new([b, a]).spec_boundary() == RangeOnPath::spec_new(
            [a, b],
        ).spec_boundary(),
        !RangeOnPath::spec_new([a, b]).spec_is_reversed(),
        RangeOnPath::spec_new([b, a]).spec_is_reversed(),
        in_order_of(indices, RangeOnPath::spec_new([b, a]).spec_is_reversed()) == in_order_of(
            indices,
            RangeOnPath::spec_new([a, b]).spec_is_reversed(),
        ).reverse(),
{
    let forward = [a, b];
    let backward = [b, a];
    assert(forward[0] == a && forward[1] == b);
    assert(backward[0] == b && backward[1] == a);
    assert(RangeOnPath::spec_new(backward).boundary =~= forward);
}

/// Reverses the order of the elements
fn reverse(v: &mut Vec<i64>)
    ensures
        final(v)@ == old(v)@.reverse(),
{
    let n = v.len();
    let mut i: usize = 0;
    while i < n / 2
        invariant
            n == v@.len(),
            n == old(v)@.len(),
            i <= n / 2,
            forall|k: int| 0 <= k < i ==> v@[k] == old(v)@[n - 1 - k],
            forall|k: int| 0 <= k < i ==> v@[n - 1 - k] == old(v)@[k],
            forall|k: int| i <= k < n - i ==> v@[k] == old(v)@[k],
        decreases n / 2 - i,
    {
        let a = v[i];
        let b = v[n - 1 - i];
        v[i] = b;
        v[n - 1 - i] = a;
        i += 1;
    }
    assert(v@ =~= old(v)@.reverse());
}

} // verus!
