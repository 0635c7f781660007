//! Edges seen in the flattened plane of their face.

use vstd::prelude::*;
use crate::algorithms::intersection::line_segment::{
    line_segment, meeting_of, spec_line_segment, LineSegmentIntersection, Meeting, Segment2,
};
use crate::geometry::curve::Curve;
use crate::math::scalar::Tolerance;
use crate::math::transform::Axis;
use crate::objects::edge::Edge;

verus! {

/// The stretch that an edge covers when space is flattened along `axis`.
/// Only a straight edge between two vertices covers one.
pub open spec fn spec_segment(edge: Edge, axis: Axis) -> Option<Segment2> {
    match (edge.curve, edge.spec_start(), edge.spec_end()) {
        (Curve::Line(_), Some(start), Some(end)) => Some(
            Segment2 { start: start.spec_flattened(axis), end: end.spec_flattened(axis) },
        ),
        _ => None,
    }
}

/// Whether two edges cross in the flattened plane: they meet in one point
/// that is an end of neither.
pub open spec fn edges_cross(one: Edge, other: Edge, axis: Axis, tolerance: int) -> bool {
    match (spec_segment(one, axis), spec_segment(other, axis)) {
        (Some(s), Some(t)) => spec_line_segment(s, t, tolerance).is_crossing(),
        _ => false,
    }
}

/// Whether two edges meet in the flattened plane, in a point or along a
/// stretch.
pub open spec fn edges_meet(one: Edge, other: Edge, axis: Axis, tolerance: int) -> bool {
    match (spec_segment(one, axis), spec_segment(other, axis)) {
        (Some(s), Some(t)) => spec_line_segment(s, t, tolerance) != Meeting::Apart,
        _ => false,
    }
}

/// The stretch that an edge covers when space is flattened along `axis`.
pub fn segment_of(edge: &Edge, axis: Axis) -> (r: Option<Segment2>)
    ensures
        r == spec_segment(*edge, axis),
{
    match (edge.curve, edge.start(), edge.end()) {
        (Curve::Line(_), Some(start), Some(end)) => Some(
            Segment2 { start: start.flattened(axis), end: end.flattened(axis) },
        ),
        _ => None,
    }
}

/// Whether two edges cross in the flattened plane.
pub fn do_edges_cross(one: &Edge, other: &Edge, axis: Axis, tolerance: &Tolerance) -> (r: bool)
    ensures
        r == edges_cross(*one, *other, axis, tolerance.distance as int),
{
    match (segment_of(one, axis), segment_of(other, axis)) {
        (Some(s), Some(t)) => match line_segment(&s, &t, tolerance) {
            Some(LineSegmentIntersection::Point { on_first, on_second, scale, u, v }) => 0
                < on_first && on_first < scale && 0 < on_second && on_second < scale,
            _ => false,
        },
        _ => false,
    }
}

/// Whether two edges meet in the flattened plane.
pub fn do_edges_meet(one: &Edge, other: &Edge, axis: Axis, tolerance: &Tolerance) -> (r: bool)
    ensures
        r == edges_meet(*one, *other, axis, tolerance.distance as int),
{
    match (segment_of(one, axis), segment_of(other, axis)) {
        (Some(s), Some(t)) => {
            let found = line_segment(&s, &t, tolerance);
            assert(meeting_of(found) != Meeting::Apart <==> found is Some);
            found.is_some()
        },
        _ => false,
    }
}

} // verus!
