use brep_kernel::algorithms::approx::path::{
    approx, approx_circle, LatticeWindow, PathApproxParams, RangeOnPath,
};
use brep_kernel::geometry::path::GlobalPath;
use fj_math::{Circle, Point, Scalar};
use std::f64::consts::{PI, TAU};

/// The parameters for a circle and a tolerance
fn for_circle(radius: f64, tolerance: f64) -> PathApproxParams {
    let vertices_within_tolerance = (PI / (1. - tolerance / radius).acos()).ceil();
    PathApproxParams::for_circle(vertices_within_tolerance as u64)
}

fn increment(params: &PathApproxParams) -> Scalar {
    Scalar::TAU / params.num_vertices() as f64
}

/// The place of a range on the lattice with the given increment
fn window(range: &RangeOnPath, increment: Scalar) -> LatticeWindow {
    let [a, b] = range.boundary();
    LatticeWindow {
        after: (a.t / increment).floor().into_f64() as i64,
        before: (b.t / increment).ceil().into_f64() as i64,
    }
}

fn range(boundary: [f64; 2]) -> RangeOnPath {
    RangeOnPath::from(boundary.map(|t| Point::from([t])))
}

fn test_increment(radius: f64, tolerance: f64, expected_num_vertices: f64) {
    let params = for_circle(radius, tolerance);

    let expected_increment = Scalar::TAU / expected_num_vertices;
    assert_eq!(increment(&params), expected_increment);
}

#[test]
fn increment_for_circle() {
    test_increment(1., 0.5, 3.);
    test_increment(1., 0.1, 7.);
    test_increment(1., 0.01, 23.);
}

fn test_path(boundary: [f64; 2], expected_coords: &[f64]) {
    // Choose radius and tolerance such, that we need 4 vertices to
    // approximate a full circle. This is the lowest number that we can
    // still cover all the edge cases with
    let radius = 1.;
    let tolerance = 0.375;

    let params = for_circle(radius, tolerance);
    let range = range(boundary);

    let points = params
        .points(window(&range, increment(&params)))
        .into_iter()
        .map(|i| Point::from([increment(&params) * i as f64]))
        .collect::<Vec<_>>();

    let expected_points = expected_coords
        .iter()
        .map(|&i| Point::from([increment(&params) * i]))
        .collect::<Vec<_>>();
    assert_eq!(points, expected_points);
}

#[test]
fn points_for_circle() {
    // Empty range
    test_path([0., 0.], &[]);

    // Ranges contain all generated points. Start is before the first
    // increment and after the last one in each case.
    test_path([0., TAU], &[1., 2., 3.]);
    test_path([1., TAU], &[1., 2., 3.]);
    test_path([0., TAU - 1.], &[1., 2., 3.]);

    // Here the range is restricted to cut of the first or last increment.
    test_path([2., TAU], &[2., 3.]);
    test_path([0., TAU - 2.], &[1., 2.]);
}

#[test]
fn no_circle_has_less_than_three_vertices() {
    assert_eq!(PathApproxParams::for_circle(0).num_vertices(), 3);
    assert_eq!(PathApproxParams::for_circle(2).num_vertices(), 3);
    assert_eq!(PathApproxParams::for_circle(3).num_vertices(), 3);
    assert_eq!(PathApproxParams::for_circle(4).num_vertices(), 4);
    assert_eq!(PathApproxParams::for_circle(u64::MAX).num_vertices(), u64::MAX);
    // a tolerance as large as the radius and more
    assert_eq!(for_circle(1., 1.).num_vertices(), 3);
    assert_eq!(for_circle(1., 1.5).num_vertices(), 3);
    assert_eq!(for_circle(1., 0.375).num_vertices(), 4);
}

#[test]
fn a_range_is_normalized_on_construction() {
    let forward = range([1., 3.]);
    assert!(!forward.is_reversed());
    assert_eq!(forward.boundary(), [Point::from([1.]), Point::from([3.])]);

    let backward = range([3., 1.]);
    assert!(backward.is_reversed());
    assert_eq!(backward.boundary(), forward.boundary());
    assert_eq!(RangeOnPath::new([Point::from([3.]), Point::from([1.])]), backward);

    // a range without extent counts as reversed
    let empty = range([2., 2.]);
    assert!(empty.is_reversed());
    assert_eq!(empty.boundary(), [Point::from([2.]), Point::from([2.])]);
}

#[test]
fn the_window_selects_what_lies_strictly_between() {
    let params = PathApproxParams::for_circle(4);
    assert_eq!(params.points(LatticeWindow { after: 0, before: 4 }), vec![1, 2, 3]);
    assert_eq!(params.points(LatticeWindow { after: -3, before: 1 }), vec![-2, -1, 0]);
    assert_eq!(params.points(LatticeWindow { after: 2, before: 3 }), Vec::<i64>::new());
    assert_eq!(params.points(LatticeWindow { after: 2, before: 2 }), Vec::<i64>::new());
    assert_eq!(params.points(LatticeWindow { after: 5, before: 2 }), Vec::<i64>::new());
    assert_eq!(
        params.points(LatticeWindow { after: i64::MAX - 2, before: i64::MAX }),
        vec![i64::MAX - 1]
    );
    assert_eq!(
        params.points(LatticeWindow { after: i64::MAX, before: i64::MIN }),
        Vec::<i64>::new()
    );
    assert_eq!(
        params.points(LatticeWindow { after: i64::MIN, before: i64::MIN + 2 }),
        vec![i64::MIN + 1]
    );
}

#[test]
fn a_reversed_range_returns_the_same_points_in_reverse() {
    let params = for_circle(1., 0.375);
    let forward = range([0., TAU]);
    let backward = range([TAU, 0.]);
    assert_eq!(window(&forward, increment(&params)), window(&backward, increment(&params)));
    let place = window(&forward, increment(&params));

    let there = approx_circle(&forward, &params, place);
    let back = approx_circle(&backward, &params, place);
    assert_eq!(there, vec![1, 2, 3]);
    assert_eq!(back, vec![3, 2, 1]);

    let even = LatticeWindow { after: -1, before: 4 };
    assert_eq!(approx_circle(&forward, &params, even), vec![0, 1, 2, 3]);
    assert_eq!(approx_circle(&backward, &params, even), vec![3, 2, 1, 0]);
}

#[test]
fn a_line_is_exact_without_points() {
    let params = for_circle(1., 0.375);
    let place = LatticeWindow { after: 0, before: 4 };
    assert_eq!(approx(&GlobalPath::x_axis(), &range([0., TAU]), &params, place), Vec::<i64>::new());

    let circle = GlobalPath::Circle(Circle::from_center_and_radius([0., 0., 0.], 1.));
    assert_eq!(approx(&circle, &range([0., TAU]), &params, place), vec![1, 2, 3]);
    assert_eq!(approx(&circle, &range([TAU, 0.]), &params, place), vec![3, 2, 1]);
}

#[test]
fn adjacent_ranges_fit_together() {
    let params = for_circle(1., 0.01);
    let step = increment(&params);
    let points = |boundary: [f64; 2]| {
        let range = range(boundary);
        approx_circle(&range, &params, window(&range, step))
    };

    // the ranges meet between two points of the lattice
    let meet = 2.;
    let mut joined = points([0.5, meet]);
    joined.extend(points([meet, 5.]));
    assert_eq!(joined, points([0.5, 5.]));

    // the ranges meet in a point of the lattice, which is the end of both and
    // so a point of neither
    let on_lattice = (step * 9.).into_f64();
    let mut joined = points([0.5, on_lattice]);
    joined.push(9);
    joined.extend(points([on_lattice, 5.]));
    assert_eq!(joined, points([0.5, 5.]));
}
