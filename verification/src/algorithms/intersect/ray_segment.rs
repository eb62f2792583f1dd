//! How a horizontal ray to the right meets a line segment.
//!
//! A position is a pair of coordinates: the first grows to the right, the
//! second grows upwards. The coordinates are of any type with an order. What
//! needs more than their order, the side of a line on which a position lies,
//! is the caller's to say.

use crate::order::{before, is_total, level, Ordered};
use vstd::prelude::*;

verus! {

/// An intersection between a horizontal ray to the right and a line segment
///
/// The segment has a first and a second vertex, in its own direction, and an
/// upper and a lower one, by height.
#[derive(Clone, Copy, Debug, PartialEq, Eq, Structural, Hash)]
pub enum RaySegmentIntersection {
    /// The ray starts on the segment, between its vertices
    RayStartsOnSegment,
    /// The ray starts on the first vertex of the segment
    RayStartsOnOnFirstVertex,
    /// The ray starts on the second vertex of the segment
    RayStartsOnSecondVertex,
    /// The ray hits the segment itself
    RayHitsSegment,
    /// The ray hits the upper vertex of the segment
    RayHitsUpperVertex,
    /// The ray hits the lower vertex of the segment
    RayHitsLowerVertex,
    /// The ray hits the whole segment, as it is parallel to the ray
    RayHitsSegmentAndAreParallel,
}

/// Where a position lies relative to the line through a segment, seen from
/// the lower vertex of the segment towards the upper one
#[derive(Clone, Copy, Debug, PartialEq, Eq, Structural, Hash)]
pub enum Side {
    /// To the left of the line
    Left,
    /// On the line
    On,
    /// To the right of the line
    Right,
}

/// The lower and the upper of two positions; the first and the second, if
/// they are at one height
pub open spec fn by_height<S: Ordered>(a: (S, S), b: (S, S)) -> ((S, S), (S, S)) {
    if S::ordered(a.1, b.1) {
        (a, b)
    } else {
        (b, a)
    }
}

/// The left and the right of two positions; the first and the second, if
/// neither is to the left of the other
pub open spec fn by_side<S: Ordered>(a: (S, S), b: (S, S)) -> ((S, S), (S, S)) {
    if S::ordered(a.0, b.0) {
        (a, b)
    } else {
        (b, a)
    }
}

/// How the horizontal ray from `origin` to the right meets the segment from
/// `a` to `b`, where `side` is the side of the line through the segment on
/// which `origin` lies
///
/// The ray misses a segment that lies above or below it. A segment at the
/// height of the ray is parallel to it: the ray misses it if it starts to
/// the right of it; it starts on a vertex or on the segment if its origin
/// lies there; else it runs along the whole segment. Any other segment the
/// ray starts on if its origin lies on the line through it, hits if its
/// origin lies to the left, in a vertex if that is at the height of the ray,
/// and misses if its origin lies to the right.
pub open spec fn ray_hit<S: Ordered>(origin: (S, S), a: (S, S), b: (S, S), side: Side) -> Option<
    RaySegmentIntersection,
> {
    let (lower, upper) = by_height(a, b);
    let (left, right) = by_side(a, b);
    if before(upper.1, origin.1) || before(origin.1, lower.1) {
        None
    } else if S::ordered(upper.1, lower.1) {
        if before(right.0, origin.0) {
            None
        } else if level(origin.0, a.0) {
            Some(RaySegmentIntersection::RayStartsOnOnFirstVertex)
        } else if level(origin.0, b.0) {
            Some(RaySegmentIntersection::RayStartsOnSecondVertex)
        } else if before(left.0, origin.0) {
            Some(RaySegmentIntersection::RayStartsOnSegment)
        } else {
            Some(RaySegmentIntersection::RayHitsSegmentAndAreParallel)
        }
    } else {
        match side {
            Side::On => if level(origin.1, a.1) {
                Some(RaySegmentIntersection::RayStartsOnOnFirstVertex)
            } else if level(origin.1, b.1) {
                Some(RaySegmentIntersection::RayStartsOnSecondVertex)
            } else {
                Some(RaySegmentIntersection::RayStartsOnSegment)
            },
            Side::Left => if S::ordered(upper.1, origin.1) {
                Some(RaySegmentIntersection::RayHitsUpperVertex)
            } else if S::ordered(origin.1, lower.1) {
                Some(RaySegmentIntersection::RayHitsLowerVertex)
            } else {
                Some(RaySegmentIntersection::RayHitsSegment)
            },
            Side::Right => None,
        }
    }
}

/// The vertices of the segment from `a` to `b`, the lower one first
pub fn lower_and_upper<S: Ordered>(a: (S, S), b: (S, S)) -> (r: ((S, S), (S, S)))
    ensures
        r == by_height(a, b),
{
    if S::in_order(&a.1, &b.1) {
        (a, b)
    } else {
        (b, a)
    }
}

/// How the horizontal ray from `origin` to the right meets the segment from
/// `a` to `b`
///
/// `side` is the side of the line through the segment, from its lower to its
/// upper vertex, on which `origin` lies. It is not looked at where the
/// segment is parallel to the ray.
pub fn ray_segment<S: Ordered>(origin: (S, S), a: (S, S), b: (S, S), side: Side) -> (r: Option<
    RaySegmentIntersection,
>)
    ensures
        r == ray_hit(origin, a, b, side),
{
    let (lower, upper) = lower_and_upper(a, b);
    let (left, right) = if S::in_order(&a.0, &b.0) {
        (a, b)
    } else {
        (b, a)
    };

    if !S::in_order(&origin.1, &upper.1) {
        // ray is above segment
        return None;
    }
    if !S::in_order(&lower.1, &origin.1) {
        // ray is below segment
        return None;
    }

    if S::in_order(&upper.1, &lower.1) {
        // ray and segment are parallel and at same height
        if !S::in_order(&origin.0, &right.0) {
            return None;
        }
        if S::in_order(&origin.0, &a.0) && S::in_order(&a.0, &origin.0) {
            return Some(RaySegmentIntersection::RayStartsOnOnFirstVertex);
        }
        if S::in_order(&origin.0, &b.0) && S::in_order(&b.0, &origin.0) {
            return Some(RaySegmentIntersection::RayStartsOnSecondVertex);
        }
        if !S::in_order(&origin.0, &left.0) {
            return Some(RaySegmentIntersection::RayStartsOnSegment);
        }
        return Some(RaySegmentIntersection::RayHitsSegmentAndAreParallel);
    }

    match side {
        Side::On => {
            // ray starts on the line
            if S::in_order(&origin.1, &a.1) && S::in_order(&a.1, &origin.1) {
                return Some(RaySegmentIntersection::RayStartsOnOnFirstVertex);
            }
            if S::in_order(&origin.1, &b.1) && S::in_order(&b.1, &origin.1) {
                return Some(RaySegmentIntersection::RayStartsOnSecondVertex);
            }
            Some(RaySegmentIntersection::RayStartsOnSegment)
        },
        Side::Left => {
            // ray starts left of the line
            if S::in_order(&upper.1, &origin.1) {
                return Some(RaySegmentIntersection::RayHitsUpperVertex);
            }
            if S::in_order(&origin.1, &lower.1) {
                return Some(RaySegmentIntersection::RayHitsLowerVertex);
            }
            Some(RaySegmentIntersection::RayHitsSegment)
        },
        Side::Right => None,
    }
}

/// Where the order of the coordinates is total, the ray runs along a segment
/// only if the segment lies at the height of its origin and to the right of
/// it; and for a segment at one height, the side of the origin does not
/// matter.
pub proof fn lemma_parallel_hit_is_flat<S: Ordered>(origin: (S, S), a: (S, S), b: (S, S), side: Side)
    requires
        is_total::<S>(),
    ensures
        ray_hit(origin, a, b, side) == Some(
            RaySegmentIntersection::RayHitsSegmentAndAreParallel,
        ) ==> level(a.1, b.1) && level(origin.1, a.1) && before(origin.0, a.0) && before(
            origin.0,
            b.0,
        ),
        level(a.1, b.1) ==> ray_hit(origin, a, b, side) == ray_hit(origin, a, b, Side::On),
{
}

} // verus!
