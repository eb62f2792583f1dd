use brep_kernel::geometry::boundary::{CurveBoundary, CurveBoundaryElement, CurveCoordinate};
use brep_kernel::objects::{Objects, Vertex};
use brep_kernel::operations::Insert;
use brep_kernel::storage::HandleWrapper;
use fj_math::Point;

fn array_to_boundary(array: [f64; 2]) -> CurveBoundary<Point<1>> {
    CurveBoundary { inner: array.map(|element| Point::from([element])) }
}

fn overlap(a: [f64; 2], b: [f64; 2]) -> bool {
    let a = array_to_boundary(a);
    let b = array_to_boundary(b);

    a.overlaps(&b)
}

#[test]
fn overlaps() {
    assert!(overlap([0., 2.], [1., 3.])); // regular overlap
    assert!(overlap([0., 1.], [1., 2.])); // just touching
    assert!(overlap([2., 0.], [3., 1.])); // not normalized
    assert!(overlap([1., 3.], [0., 2.])); // lower boundary comes second

    assert!(!overlap([0., 1.], [2., 3.])); // regular non-overlap
    assert!(!overlap([2., 3.], [0., 1.])); // lower boundary comes second
}

#[test]
fn normalize_puts_the_lower_element_first() {
    let reversed = array_to_boundary([2., 0.5]);
    assert!(!reversed.is_normalized());
    let normalized = reversed.normalize();
    assert!(normalized.is_normalized());
    assert_eq!(normalized, array_to_boundary([0.5, 2.]));
    assert_eq!(normalized.normalize(), normalized);
    assert_eq!(reversed.reverse(), normalized);
    assert_eq!(reversed.reverse().reverse(), reversed);

    let point = array_to_boundary([1., 1.]);
    assert!(point.is_normalized());
    assert_eq!(point.normalize(), point);
}

#[test]
fn a_boundary_is_empty_unless_it_ends_after_its_start() {
    assert!(!array_to_boundary([0., 1.]).is_empty());
    assert!(array_to_boundary([1., 1.]).is_empty());
    assert!(array_to_boundary([1., 0.]).is_empty());
}

#[test]
fn a_boundary_contains_what_lies_strictly_inside() {
    let boundary = array_to_boundary([0., 1.]);
    assert!(boundary.contains(Point::from([0.5])));
    assert!(!boundary.contains(Point::from([0.])));
    assert!(!boundary.contains(Point::from([1.])));
    assert!(!boundary.contains(Point::from([-1.])));
    assert!(!boundary.contains(Point::from([2.])));
    // the direction counts: nothing lies after 1 and before 0
    assert!(!array_to_boundary([1., 0.]).contains(Point::from([0.5])));
}

#[test]
fn subset_is_what_two_boundaries_share() {
    let a = array_to_boundary([0., 2.]);
    let b = array_to_boundary([3., 1.]);
    assert_eq!(a.subset(b), array_to_boundary([1., 2.]));
    assert_eq!(b.subset(a), array_to_boundary([1., 2.]));
    assert_eq!(a.subset(a), a);

    // of two boundaries that share nothing, the result is empty
    let c = array_to_boundary([3., 4.]);
    assert_eq!(a.subset(c), array_to_boundary([3., 2.]));
    assert!(a.subset(c).is_empty());
}

#[test]
fn union_spans_two_boundaries_that_overlap() {
    let a = array_to_boundary([0., 2.]);
    let b = array_to_boundary([3., 1.]);
    assert_eq!(a.union(b), array_to_boundary([0., 3.]));
    assert_eq!(b.union(a), array_to_boundary([0., 3.]));

    // touching counts as overlapping
    let c = array_to_boundary([2., 5.]);
    assert!(a.overlaps(&c));
    assert_eq!(a.union(c), array_to_boundary([0., 5.]));
    assert_eq!(a.union(a), a);
}

#[test]
fn union_of_boundaries_that_do_not_overlap_is_none() {
    let a = array_to_boundary([0., 1.]);
    let b = array_to_boundary([3., 2.]);
    assert_eq!(a.try_union(b), None);
    assert_eq!(b.try_union(a), None);
    let c = array_to_boundary([1., 2.]);
    assert_eq!(a.try_union(c), Some(array_to_boundary([0., 2.])));
    assert_eq!(b.try_union(c), Some(array_to_boundary([1., 3.])));
}

#[derive(Debug, PartialEq, Eq, PartialOrd, Ord, Hash)]
struct Tick;

impl CurveBoundaryElement for Tick {
    type Repr = u64;
}

impl CurveCoordinate for Tick {}

#[test]
fn boundaries_of_whole_numbers() {
    let a: CurveBoundary<Tick> = CurveBoundary { inner: [7, 3] };
    let b: CurveBoundary<Tick> = CurveBoundary { inner: [5, 9] };
    assert!(!a.is_normalized());
    assert_eq!(a.normalize().inner, [3, 7]);
    assert!(a.overlaps(&b));
    assert_eq!(a.subset(b).inner, [5, 7]);
    assert_eq!(a.union(b).inner, [3, 9]);
    assert!(a.is_empty());
    assert!(b.contains(6));
    assert!(!b.contains(9));
    assert!(a < b.reverse());
}

#[test]
fn boundaries_of_vertices_are_ordered_by_identity() {
    let mut objects = Objects::new();
    let first = HandleWrapper::from(Vertex {}.insert(&mut objects));
    let second = HandleWrapper::from(Vertex {}.insert(&mut objects));

    let boundary: CurveBoundary<Vertex> = CurveBoundary { inner: [second, first] };
    assert!(!boundary.is_normalized());
    let normalized = boundary.normalize();
    assert!(normalized.is_normalized());
    assert_eq!(normalized.inner, [first, second]);
    assert_eq!(boundary.reverse(), normalized);
}
