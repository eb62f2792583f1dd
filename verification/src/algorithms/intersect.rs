//! Intersections between a ray, the edges of a face, and a point.

pub mod face_cast;
pub mod face_point;
pub mod laws;
pub mod ray_segment;

pub use face_cast::{holds_face, intersect_face, intersect_point};
pub use face_point::{intersect, EdgeCast, FacePointIntersection};
pub use ray_segment::{lower_and_upper, ray_segment, RaySegmentIntersection, Side};
