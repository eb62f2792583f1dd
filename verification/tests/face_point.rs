use brep_kernel::algorithms::intersect::{
    holds_face, intersect, intersect_face, intersect_point, lower_and_upper, ray_segment,
    EdgeCast, FacePointIntersection, RaySegmentIntersection, Side,
};
use brep_kernel::objects::{Cycle, Edge, Face, Objects, Region};
use brep_kernel::operations::{BuildCycle, Insert};
use brep_kernel::storage::Handle;
use fj_math::{Point, Scalar};

/// The side of the line from `lower` to `upper` on which `origin` lies
fn side(lower: &Point<2>, upper: &Point<2>, origin: &Point<2>) -> Side {
    let coord = |p: &Point<2>| robust::Coord { x: p.u.into_f64(), y: p.v.into_f64() };
    let orientation = robust::orient2d(coord(lower), coord(upper), coord(origin));
    if orientation > 0. {
        Side::Left
    } else if orientation < 0. {
        Side::Right
    } else {
        Side::On
    }
}

/// How the horizontal ray from `origin` to the right meets the segment from
/// `a` to `b`
fn ray_hit(origin: &Point<2>, a: &Point<2>, b: &Point<2>) -> Option<RaySegmentIntersection> {
    let (lower, upper) = lower_and_upper((a.u, a.v), (b.u, b.v));
    let point = |p: (Scalar, Scalar)| Point::from([p.0, p.1]);
    let side = side(&point(lower), &point(upper), origin);
    ray_segment((origin.u, origin.v), (a.u, a.v), (b.u, b.v), side)
}

fn points(coordinates: &[[f64; 2]]) -> Vec<Point<2>> {
    coordinates.iter().map(|&c| Point::from(c)).collect()
}

/// The face on the xy-plane whose exterior is the polygon, with its edges
fn face(objects: &mut Objects, exterior: &[[f64; 2]], interiors: &[&[[f64; 2]]]) -> (Face, Vec<Handle<Edge>>) {
    let cycle = Cycle::polygon(points(exterior), objects);
    let edges = cycle.edges.clone();
    let exterior = cycle.insert(objects);
    let interiors = interiors
        .iter()
        .map(|interior| Cycle::polygon(points(interior), objects).insert(objects))
        .collect();
    let region = Region { exterior, interiors }.insert(objects);
    (Face { surface: objects.surfaces.xy_plane(), region }, edges)
}

fn classify(exterior: &[[f64; 2]], interiors: &[&[[f64; 2]]], point: [f64; 2]) -> Option<FacePointIntersection> {
    let mut objects = Objects::new();
    let (face, _) = face(&mut objects, exterior, interiors);
    let point = Point::from(point);
    intersect_point(&objects, &face, &point, side)
}

fn is_inside(intersection: &Option<FacePointIntersection>) -> bool {
    matches!(intersection, Some(FacePointIntersection::PointIsInsideFace))
}

#[test]
fn point_is_outside_face() {
    let intersection = classify(&[[0., 0.], [1., 1.], [0., 2.]], &[], [2., 1.]);
    assert!(intersection.is_none());
}

#[test]
fn ray_hits_vertex_while_passing_outside() {
    let intersection = classify(&[[0., 0.], [2., 1.], [0., 2.]], &[], [1., 1.]);
    assert!(is_inside(&intersection));
}

#[test]
fn ray_hits_vertex_at_cycle_seam() {
    let intersection = classify(&[[4., 2.], [0., 4.], [0., 0.]], &[], [1., 2.]);
    assert!(is_inside(&intersection));
}

#[test]
fn ray_hits_vertex_while_staying_inside() {
    let intersection = classify(&[[0., 0.], [2., 1.], [3., 0.], [3., 4.]], &[], [1., 1.]);
    assert!(is_inside(&intersection));
}

#[test]
fn ray_hits_parallel_edge_and_leaves_face_at_vertex() {
    let intersection = classify(&[[0., 0.], [2., 1.], [3., 1.], [0., 2.]], &[], [1., 1.]);
    assert!(is_inside(&intersection));
}

#[test]
fn ray_hits_parallel_edge_and_does_not_leave_face_there() {
    let intersection =
        classify(&[[0., 0.], [2., 1.], [3., 1.], [4., 0.], [4., 5.]], &[], [1., 1.]);
    assert!(is_inside(&intersection));
}

#[test]
fn point_is_coincident_with_edge() {
    let mut objects = Objects::new();
    let (face, edges) = face(&mut objects, &[[0., 0.], [2., 0.], [0., 1.]], &[]);
    let point = Point::from([1., 0.]);

    let intersection = intersect_point(&objects, &face, &point, side);

    let edge = edges
        .iter()
        .find(|edge| objects.edges.get(edge).start_position == Point::from([0., 0.]))
        .unwrap();
    match intersection {
        Some(FacePointIntersection::PointIsOnEdge(found)) => assert_eq!(found.id(), edge.id()),
        other => panic!("the point is on an edge, not {other:?}"),
    }
}

#[test]
fn point_is_coincident_with_vertex() {
    let mut objects = Objects::new();
    let (face, edges) = face(&mut objects, &[[0., 0.], [1., 0.], [0., 1.]], &[]);
    let point = Point::from([1., 0.]);

    let intersection = intersect_point(&objects, &face, &point, side);

    let vertex = edges
        .iter()
        .find(|edge| objects.edges.get(edge).start_position == Point::from([1., 0.]))
        .map(|edge| objects.edges.get(edge).start_position)
        .unwrap();
    match intersection {
        Some(FacePointIntersection::PointIsOnVertex(found)) => assert_eq!(found, vertex),
        other => panic!("the point is on a vertex, not {other:?}"),
    }
}

#[test]
fn point_on_the_first_vertex_of_an_edge() {
    // the edge that starts in (0, 1) is the first on which the point lies:
    // the ray does not reach the edges before it, which lie below
    let intersection = classify(&[[2., 0.], [0., 0.], [0., 1.], [2., 1.]], &[], [0., 1.]);
    match intersection {
        Some(FacePointIntersection::PointIsOnVertex(found)) => {
            assert_eq!(found, Point::from([0., 1.]))
        }
        other => panic!("the point is on a vertex, not {other:?}"),
    }
}

#[test]
fn point_in_a_hole_is_outside() {
    let square: &[[f64; 2]] = &[[0., 0.], [6., 0.], [6., 6.], [0., 6.]];
    let hole: &[[f64; 2]] = &[[2., 2.], [2., 4.], [4., 4.], [4., 2.]];
    assert!(classify(square, &[hole], [3., 3.]).is_none());
    assert!(is_inside(&classify(square, &[hole], [1., 3.])));
    assert!(is_inside(&classify(square, &[hole], [5., 3.])));
    assert!(classify(square, &[hole], [7., 3.]).is_none());
    assert!(is_inside(&classify(square, &[], [3., 3.])));
}

#[test]
fn point_on_the_edge_of_a_hole() {
    let square: &[[f64; 2]] = &[[0., 0.], [6., 0.], [6., 6.], [0., 6.]];
    let hole: &[[f64; 2]] = &[[2., 2.], [2., 4.], [4., 4.], [4., 2.]];
    let mut objects = Objects::new();
    let (face, _) = face(&mut objects, square, &[hole]);
    let point = Point::from([2., 3.]);
    let intersection = intersect_face(&objects, &face, |a, b| ray_hit(&point, a, b));
    match intersection {
        Some(FacePointIntersection::PointIsOnEdge(found)) => {
            let edge = objects.edges.get(&found);
            assert_eq!(edge.start_position, Point::from([2., 2.]));
            assert_eq!(edge.end_position, Point::from([2., 4.]));
        }
        other => panic!("the point is on an edge, not {other:?}"),
    }
}

#[test]
fn a_face_without_edges_has_nothing_inside() {
    assert!(classify(&[], &[], [0., 0.]).is_none());
    assert!(intersect(&vec![]).is_none());
    assert!(intersect(&vec![vec![], vec![]]).is_none());
}

/// The cast of the ray from `point` against the polygon
fn cast(objects: &mut Objects, polygon: &[[f64; 2]], point: [f64; 2]) -> Vec<EdgeCast> {
    let cycle = Cycle::polygon(points(polygon), objects);
    let point = Point::from(point);
    let n = cycle.edges.len();
    (0..n)
        .map(|i| {
            let edge = objects.edges.get(&cycle.edges[i]);
            let next = objects.edges.get(&cycle.edges[(i + 1) % n]);
            EdgeCast {
                edge: cycle.edges[i],
                start: edge.start_position,
                hit: ray_hit(&point, &edge.start_position, &next.start_position),
            }
        })
        .collect()
}

fn rotated(cycle: &[EdgeCast], r: usize) -> Vec<EdgeCast> {
    let mut turned = cycle[r..].to_vec();
    turned.extend_from_slice(&cycle[..r]);
    turned
}

/// What `intersect` says, with the id of the edge in the place of the edge
fn outcome(cycles: &Vec<Vec<EdgeCast>>) -> String {
    match intersect(cycles) {
        None => String::from("outside"),
        Some(FacePointIntersection::PointIsInsideFace) => String::from("inside"),
        Some(FacePointIntersection::PointIsOnEdge(edge)) => format!("edge {:?}", edge.id()),
        Some(FacePointIntersection::PointIsOnVertex(vertex)) => format!("vertex {vertex:?}"),
    }
}

#[test]
fn classification_does_not_depend_on_the_first_edge() {
    let polygon = [[0., 0.], [2., 1.], [3., 0.], [3., 4.]];
    for point in [[1., 1.], [4., 1.], [3., 2.], [2., 1.], [2.5, 2.], [-1., 0.], [1., 0.5]] {
        let mut objects = Objects::new();
        let cycle = cast(&mut objects, &polygon, point);
        let expected = outcome(&vec![cycle.clone()]);
        for r in 0..=cycle.len() {
            assert_eq!(outcome(&vec![rotated(&cycle, r)]), expected);
        }
    }
}

#[test]
fn a_parallel_edge_at_the_end_hides_a_crossing_at_the_seam() {
    // the ray from (1, 1) passes through the vertices (2, 1) and (3, 1), the
    // ends of an edge parallel to it, and leaves the polygon there
    let polygon = [[0., 0.], [2., 1.], [3., 1.], [0., 2.]];
    let mut objects = Objects::new();
    let cycle = cast(&mut objects, &polygon, [1., 1.]);
    assert_eq!(cycle[1].hit, Some(RaySegmentIntersection::RayHitsSegmentAndAreParallel));

    assert_eq!(outcome(&vec![cycle.clone()]), "inside");
    assert_eq!(outcome(&vec![rotated(&cycle, 1)]), "inside");
    assert_eq!(outcome(&vec![rotated(&cycle, 3)]), "inside");
    // numbered from the edge behind the parallel one, the cycle ends with the
    // parallel edge, and the first edge is held against it
    assert_eq!(outcome(&vec![rotated(&cycle, 2)]), "outside");
}

#[test]
fn an_edge_parallel_to_the_ray_changes_nothing() {
    // the same polygon without and with the point (2.5, 1) on the edge that
    // the ray runs along
    let without = [[0., 0.], [2., 1.], [3., 1.], [0., 2.]];
    let with = [[0., 0.], [2., 1.], [2.5, 1.], [3., 1.], [0., 2.]];
    for point in [[1., 1.], [-1., 1.], [4., 1.], [1., 0.5], [1., 1.5], [2., 1.], [3., 1.]] {
        assert_eq!(
            format!("{:?}", classify(&without, &[], point).map(|found| match found {
                FacePointIntersection::PointIsOnEdge(_) => String::from("edge"),
                other => format!("{other:?}"),
            })),
            format!("{:?}", classify(&with, &[], point).map(|found| match found {
                FacePointIntersection::PointIsOnEdge(_) => String::from("edge"),
                other => format!("{other:?}"),
            })),
        );
    }

    // in terms of the cast: a parallel edge put before any edge of the cycle
    let mut objects = Objects::new();
    let cycle = cast(&mut objects, &[[0., 0.], [2., 1.], [0., 2.]], [1., 1.]);
    let expected = outcome(&vec![cycle.clone()]);
    assert_eq!(expected, "inside");
    for k in 0..cycle.len() {
        let mut grown = cycle.clone();
        let parallel = EdgeCast {
            edge: cycle[k].edge,
            start: cycle[k].start,
            hit: Some(RaySegmentIntersection::RayHitsSegmentAndAreParallel),
        };
        grown.insert(k, parallel);
        assert_eq!(outcome(&vec![grown]), expected);
    }
}

fn hit(origin: [i32; 2], a: [i32; 2], b: [i32; 2], side: Side) -> Option<RaySegmentIntersection> {
    ray_segment((origin[0], origin[1]), (a[0], a[1]), (b[0], b[1]), side)
}

#[test]
fn the_ray_misses_what_lies_above_or_below_or_behind() {
    assert_eq!(hit([0, 3], [1, 0], [1, 2], Side::Left), None);
    assert_eq!(hit([0, -1], [1, 0], [1, 2], Side::Left), None);
    assert_eq!(hit([2, 1], [1, 0], [1, 2], Side::Right), None);
    assert_eq!(hit([2, 1], [1, 2], [1, 0], Side::Right), None);
    // parallel, and the ray starts to the right
    assert_eq!(hit([4, 1], [1, 1], [3, 1], Side::On), None);
    assert_eq!(hit([4, 1], [3, 1], [1, 1], Side::On), None);
}

#[test]
fn the_ray_hits_a_segment_or_one_of_its_vertices() {
    assert_eq!(hit([0, 1], [1, 0], [1, 2], Side::Left), Some(RaySegmentIntersection::RayHitsSegment));
    assert_eq!(hit([0, 1], [1, 2], [1, 0], Side::Left), Some(RaySegmentIntersection::RayHitsSegment));
    assert_eq!(hit([0, 2], [1, 0], [1, 2], Side::Left), Some(RaySegmentIntersection::RayHitsUpperVertex));
    assert_eq!(hit([0, 2], [1, 2], [1, 0], Side::Left), Some(RaySegmentIntersection::RayHitsUpperVertex));
    assert_eq!(hit([0, 0], [1, 0], [1, 2], Side::Left), Some(RaySegmentIntersection::RayHitsLowerVertex));
    assert_eq!(hit([0, 0], [1, 2], [1, 0], Side::Left), Some(RaySegmentIntersection::RayHitsLowerVertex));
}

#[test]
fn the_ray_starts_on_a_segment_or_one_of_its_vertices() {
    assert_eq!(hit([1, 1], [0, 0], [2, 2], Side::On), Some(RaySegmentIntersection::RayStartsOnSegment));
    assert_eq!(hit([0, 0], [0, 0], [2, 2], Side::On), Some(RaySegmentIntersection::RayStartsOnOnFirstVertex));
    assert_eq!(hit([2, 2], [0, 0], [2, 2], Side::On), Some(RaySegmentIntersection::RayStartsOnSecondVertex));
    assert_eq!(hit([2, 2], [2, 2], [0, 0], Side::On), Some(RaySegmentIntersection::RayStartsOnOnFirstVertex));
    // parallel
    assert_eq!(hit([2, 1], [1, 1], [3, 1], Side::On), Some(RaySegmentIntersection::RayStartsOnSegment));
    assert_eq!(hit([1, 1], [1, 1], [3, 1], Side::On), Some(RaySegmentIntersection::RayStartsOnOnFirstVertex));
    assert_eq!(hit([3, 1], [1, 1], [3, 1], Side::On), Some(RaySegmentIntersection::RayStartsOnSecondVertex));
    assert_eq!(hit([3, 1], [3, 1], [1, 1], Side::On), Some(RaySegmentIntersection::RayStartsOnOnFirstVertex));
}

#[test]
fn the_ray_runs_along_a_parallel_segment() {
    assert_eq!(hit([0, 1], [1, 1], [3, 1], Side::On), Some(RaySegmentIntersection::RayHitsSegmentAndAreParallel));
    assert_eq!(hit([0, 1], [3, 1], [1, 1], Side::On), Some(RaySegmentIntersection::RayHitsSegmentAndAreParallel));
    // the side is not looked at
    assert_eq!(hit([0, 1], [1, 1], [3, 1], Side::Left), Some(RaySegmentIntersection::RayHitsSegmentAndAreParallel));
    assert_eq!(hit([0, 1], [1, 1], [3, 1], Side::Right), Some(RaySegmentIntersection::RayHitsSegmentAndAreParallel));
    assert_eq!(lower_and_upper((0, 5), (1, 2)), ((1, 2), (0, 5)));
    assert_eq!(lower_and_upper((0, 2), (1, 2)), ((0, 2), (1, 2)));
}

#[test]
fn the_cast_and_the_point_agree() {
    let square: &[[f64; 2]] = &[[0., 0.], [6., 0.], [6., 6.], [0., 6.]];
    let hole: &[[f64; 2]] = &[[2., 2.], [2., 4.], [4., 4.], [4., 2.]];
    for origin in [[3., 3.], [1., 3.], [2., 3.], [7., 3.], [0., 0.], [6., 3.], [1., 2.], [-1., 6.]] {
        let mut objects = Objects::new();
        let (face, _) = face(&mut objects, square, &[hole]);
        let point = Point::from(origin);
        let by_point = intersect_point(&objects, &face, &point, side);
        let by_cast = intersect_face(&objects, &face, |a, b| ray_hit(&point, a, b));
        assert_eq!(format!("{by_point:?}"), format!("{by_cast:?}"));
    }
}

#[test]
fn a_face_is_whole_once_its_parts_are_inserted() {
    let mut objects = Objects::new();
    let (whole, _) = face(&mut objects, &[[0., 0.], [1., 0.], [0., 1.]], &[]);
    assert!(holds_face(&objects, &whole));

    // a region that was reserved and never inserted
    let region = objects.regions.reserve();
    let empty = Face { surface: objects.surfaces.xy_plane(), region };
    assert!(!holds_face(&objects, &empty));

    // a region whose interior cycle was reserved and never inserted
    let exterior = objects.regions.get(&whole.region).exterior;
    let interior = objects.cycles.reserve();
    objects.regions.insert(region, Region { exterior, interiors: vec![interior] });
    assert!(!holds_face(&objects, &empty));

    // a cycle with an edge that was reserved and never inserted
    let edge = objects.edges.reserve();
    objects.cycles.insert(interior, Cycle { edges: vec![edge] });
    assert!(!holds_face(&objects, &empty));
    objects.edges.insert(edge, *objects.edges.get(&objects.cycles.get(&exterior).edges[0]));
    assert!(holds_face(&objects, &empty));
}
