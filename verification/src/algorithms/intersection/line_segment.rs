//! The intersection of two line segments in a plane.

use vstd::prelude::*;
use crate::math::point::Point2;
use crate::math::scalar::{
    greatest, larger, least, magnitude, smaller, wide_product, Tolerance,
};

verus! {

/// The segment of a line between two points of a plane.
#[derive(Clone, Copy, Debug, PartialEq, Eq, Structural)]
pub struct Segment2 {
    pub start: Point2,
    pub end: Point2,
}

/// How two segments meet.
#[derive(Clone, Copy, Debug, PartialEq, Eq, Structural)]
pub enum LineSegmentIntersection {
    /// The segments meet in one point. It lies at `on_first / scale` of the
    /// way along the first segment and at `on_second / scale` of the way
    /// along the second, and its coordinates are `u / scale` and
    /// `v / scale`; `scale` is positive.
    Point { on_first: i128, on_second: i128, scale: i128, u: i128, v: i128 },
    /// The segments lie along one line and share a stretch of it.
    Overlap,
}

/// How two segments meet, in unbounded integers.
pub ghost enum Meeting {
    /// The segments do not meet.
    Apart,
    /// The segments lie along one line and share a stretch of it.
    Overlap,
    /// The segments meet in one point.
    Point { on_first: int, on_second: int, scale: int, u: int, v: int },
}

impl Meeting {
    /// The same meeting, seen from the other segment.
    pub open spec fn swapped(self) -> Meeting {
        match self {
            Meeting::Point { on_first, on_second, scale, u, v } => Meeting::Point {
                on_first: on_second,
                on_second: on_first,
                scale,
                u,
                v,
            },
            other => other,
        }
    }

    /// Whether the segments cross: they meet in one point that is an end of
    /// neither.
    pub open spec fn is_crossing(self) -> bool {
        match self {
            Meeting::Point { on_first, on_second, scale, u, v } => 0 < on_first < scale && 0
                < on_second < scale,
            _ => false,
        }
    }
}

/// What a result of `line_segment` says.
pub open spec fn meeting_of(result: Option<LineSegmentIntersection>) -> Meeting {
    match result {
        None => Meeting::Apart,
        Some(LineSegmentIntersection::Overlap) => Meeting::Overlap,
        Some(LineSegmentIntersection::Point { on_first, on_second, scale, u, v }) => Meeting::Point {
            on_first: on_first as int,
            on_second: on_second as int,
            scale: scale as int,
            u: u as int,
            v: v as int,
        },
    }
}

/// The determinant of two displacements in the plane.
pub open spec fn det2(au: int, av: int, bu: int, bv: int) -> int {
    au * bv - av * bu
}

/// `x`, with its sign changed where `by` is negative.
pub open spec fn oriented(x: int, by: int) -> int {
    if by < 0 {
        -x
    } else {
        x
    }
}

/// Whether the boxes that hold the two segments share a point.
pub open spec fn boxes_meet(first: Segment2, second: Segment2) -> bool {
    &&& greatest(least(first.start.u as int, first.end.u as int), least(second.start.u as int, second.end.u as int))
        <= least(greatest(first.start.u as int, first.end.u as int), greatest(second.start.u as int, second.end.u as int))
    &&& greatest(least(first.start.v as int, first.end.v as int), least(second.start.v as int, second.end.v as int))
        <= least(greatest(first.start.v as int, first.end.v as int), greatest(second.start.v as int, second.end.v as int))
}

/// How two segments meet.
///
/// With `d1` and `d2` the displacements along the segments and `w` the
/// displacement from the start of the first to the start of the second, the
/// segments count as parallel where the determinant of `d1` and `d2` is at
/// most the tolerance. Parallel segments overlap where both determinants of
/// `w` with `d1` and `d2` are at most the tolerance too, so that they lie
/// along one line, and the boxes that hold them share a point. Segments that
/// are not parallel meet where the solution of `s * d1 - t * d2 == w` has
/// both `s` and `t` between 0 and 1.
pub open spec fn spec_line_segment(first: Segment2, second: Segment2, tolerance: int) -> Meeting {
    let d1u = first.end.u - first.start.u;
    let d1v = first.end.v - first.start.v;
    let d2u = second.end.u - second.start.u;
    let d2v = second.end.v - second.start.v;
    let wu = second.start.u - first.start.u;
    let wv = second.start.v - first.start.v;
    let det = det2(d1u, d1v, d2u, d2v);
    if magnitude(det) <= tolerance {
        if magnitude(det2(wu, wv, d1u, d1v)) <= tolerance && magnitude(det2(wu, wv, d2u, d2v))
            <= tolerance && boxes_meet(first, second) {
            Meeting::Overlap
        } else {
            Meeting::Apart
        }
    } else {
        let on_first = oriented(det2(wu, wv, d2u, d2v), det);
        let on_second = oriented(det2(wu, wv, d1u, d1v), det);
        let scale = magnitude(det);
        if 0 <= on_first <= scale && 0 <= on_second <= scale {
            Meeting::Point {
                on_first,
                on_second,
                scale,
                u: first.start.u * scale + d1u * on_first,
                v: first.start.v * scale + d1v * on_first,
            }
        } else {
            Meeting::Apart
        }
    }
}

/// The determinant of two displacements between points of the plane.
fn determinant(au: i64, av: i64, bu: i64, bv: i64) -> (r: i128)
    requires
        -0x1_0000_0000 <= au <= 0x1_0000_0000,
        -0x1_0000_0000 <= av <= 0x1_0000_0000,
        -0x1_0000_0000 <= bu <= 0x1_0000_0000,
        -0x1_0000_0000 <= bv <= 0x1_0000_0000,
    ensures
        r == det2(au as int, av as int, bu as int, bv as int),
        -0x2_0000_0000_0000_0000 <= r <= 0x2_0000_0000_0000_0000,
{
    assert(-0x1_0000_0000_0000_0000 <= au * bv <= 0x1_0000_0000_0000_0000) by (nonlinear_arith)
        requires
            -0x1_0000_0000 <= au <= 0x1_0000_0000,
            -0x1_0000_0000 <= bv <= 0x1_0000_0000,
    ;
    assert(-0x1_0000_0000_0000_0000 <= av * bu <= 0x1_0000_0000_0000_0000) by (nonlinear_arith)
        requires
            -0x1_0000_0000 <= av <= 0x1_0000_0000,
            -0x1_0000_0000 <= bu <= 0x1_0000_0000,
    ;
    wide_product(au, bv) - wide_product(av, bu)
}

/// `base * scale + step * along`, exactly.
fn weighted(base: i32, scale: i128, step: i64, along: i128) -> (r: i128)
    requires
        -0x2_0000_0000_0000_0000 <= scale <= 0x2_0000_0000_0000_0000,
        -0x2_0000_0000_0000_0000 <= along <= 0x2_0000_0000_0000_0000,
        -0x1_0000_0000 <= step <= 0x1_0000_0000,
    ensures
        r == base * scale + step * along,
{
    assert(-0x1_0000_0000_0000_0000_0000_0000 <= base * scale <= 0x1_0000_0000_0000_0000_0000_0000)
        by (nonlinear_arith)
        requires
            -0x8000_0000 <= base <= 0x8000_0000,
            -0x2_0000_0000_0000_0000 <= scale <= 0x2_0000_0000_0000_0000,
    ;
    assert(-0x2_0000_0000_0000_0000_0000_0000 <= step * along <= 0x2_0000_0000_0000_0000_0000_0000)
        by (nonlinear_arith)
        requires
            -0x1_0000_0000 <= step <= 0x1_0000_0000,
            -0x2_0000_0000_0000_0000 <= along <= 0x2_0000_0000_0000_0000,
    ;
    (base as i128) * scale + (step as i128) * along
}

fn within(x: i128, tolerance: &Tolerance) -> (r: bool)
    requires
        -0x2_0000_0000_0000_0000 <= x <= 0x2_0000_0000_0000_0000,
    ensures
        r == (magnitude(x as int) <= tolerance.distance),
{
    let m: i128 = if x < 0 {
        -x
    } else {
        x
    };
    m <= tolerance.distance as i128
}

/// Finds how two segments meet: not at all, in one point, or along a
/// stretch of one line.
pub fn line_segment(first: &Segment2, second: &Segment2, tolerance: &Tolerance) -> (r: Option<
    LineSegmentIntersection,
>)
    ensures
        meeting_of(r) == spec_line_segment(*first, *second, tolerance.distance as int),
{
    let d1u: i64 = first.end.u as i64 - first.start.u as i64;
    let d1v: i64 = first.end.v as i64 - first.start.v as i64;
    let d2u: i64 = second.end.u as i64 - second.start.u as i64;
    let d2v: i64 = second.end.v as i64 - second.start.v as i64;
    let wu: i64 = second.start.u as i64 - first.start.u as i64;
    let wv: i64 = second.start.v as i64 - first.start.v as i64;
    let det: i128 = determinant(d1u, d1v, d2u, d2v);
    let along_first: i128 = determinant(wu, wv, d2u, d2v);
    let along_second: i128 = determinant(wu, wv, d1u, d1v);
    if within(det, tolerance) {
        let boxes = larger(smaller(first.start.u, first.end.u), smaller(second.start.u, second.end.u))
            <= smaller(larger(first.start.u, first.end.u), larger(second.start.u, second.end.u))
            && larger(smaller(first.start.v, first.end.v), smaller(second.start.v, second.end.v))
            <= smaller(larger(first.start.v, first.end.v), larger(second.start.v, second.end.v));
        if within(along_second, tolerance) && within(along_first, tolerance) && boxes {
            Some(LineSegmentIntersection::Overlap)
        } else {
            None
        }
    } else {
        let (on_first, on_second, scale): (i128, i128, i128) = if det > 0 {
            (along_first, along_second, det)
        } else {
            (-along_first, -along_second, -det)
        };
        if 0 <= on_first && on_first <= scale && 0 <= on_second && on_second <= scale {
            let u: i128 = weighted(first.start.u, scale, d1u, on_first);
            let v: i128 = weighted(first.start.v, scale, d1v, on_first);
            Some(LineSegmentIntersection::Point { on_first, on_second, scale, u, v })
        } else {
            None
        }
    }
}

/// The intersection of two segments does not depend on their order: seen
/// from the other segment, the segments meet in the same way and in the same
/// point, and the two positions along the segments change places.
pub proof fn lemma_line_segment_symmetric(first: Segment2, second: Segment2, tolerance: int)
    ensures
        spec_line_segment(second, first, tolerance) == spec_line_segment(
            first,
            second,
            tolerance,
        ).swapped(),
{
    let d1u = first.end.u - first.start.u;
    let d1v = first.end.v - first.start.v;
    let d2u = second.end.u - second.start.u;
    let d2v = second.end.v - second.start.v;
    let wu = second.start.u - first.start.u;
    let wv = second.start.v - first.start.v;
    let det = det2(d1u, d1v, d2u, d2v);
    let s = det2(wu, wv, d2u, d2v);
    let t = det2(wu, wv, d1u, d1v);
    assert(det2(d2u, d2v, d1u, d1v) == -det) by (nonlinear_arith)
        requires
            det == d1u * d2v - d1v * d2u,
    ;
    assert(det2(-wu, -wv, d1u, d1v) == -t) by (nonlinear_arith)
        requires
            t == wu * d1v - wv * d1u,
    ;
    assert(det2(-wu, -wv, d2u, d2v) == -s) by (nonlinear_arith)
        requires
            s == wu * d2v - wv * d2u,
    ;
    lemma_meeting_point(d1u, d1v, d2u, d2v, wu, wv);
    let (pu, pv, ru, rv) = (
        first.start.u as int,
        first.start.v as int,
        second.start.u as int,
        second.start.v as int,
    );
    if det > 0 {
        assert(ru * det + d2u * t == pu * det + d1u * s && rv * det + d2v * t == pv * det + d1v
            * s) by (nonlinear_arith)
            requires
                wu * det == d1u * s - d2u * t,
                wv * det == d1v * s - d2v * t,
                wu == ru - pu,
                wv == rv - pv,
        ;
    } else {
        assert(ru * (-det) + d2u * (-t) == pu * (-det) + d1u * (-s) && rv * (-det) + d2v * (-t)
            == pv * (-det) + d1v * (-s)) by (nonlinear_arith)
            requires
                wu * det == d1u * s - d2u * t,
                wv * det == d1v * s - d2v * t,
                wu == ru - pu,
                wv == rv - pv,
        ;
    }
}

/// The point in which two segments meet lies on both of them: it is reached
/// from the start of either segment by going the reported part of the way
/// along it, which is a part between none and all of the way.
pub proof fn lemma_meeting_point_lies_on_both(first: Segment2, second: Segment2, tolerance: int)
    requires
        0 <= tolerance,
        spec_line_segment(first, second, tolerance) is Point,
    ensures
        ({
            let found = spec_line_segment(first, second, tolerance);
            &&& found->scale > 0
            &&& 0 <= found->on_first <= found->scale
            &&& 0 <= found->on_second <= found->scale
            &&& found->u == first.start.u * found->scale + (first.end.u - first.start.u)
                * found->on_first
            &&& found->v == first.start.v * found->scale + (first.end.v - first.start.v)
                * found->on_first
            &&& found->u == second.start.u * found->scale + (second.end.u - second.start.u)
                * found->on_second
            &&& found->v == second.start.v * found->scale + (second.end.v - second.start.v)
                * found->on_second
        }),
{
    lemma_line_segment_symmetric(first, second, tolerance);
}

proof fn lemma_triple(a: int, b: int, c: int)
    by (nonlinear_arith)
    ensures
        a * (b * c) == b * (a * c),
        a * (b * c) == c * (a * b),
        a * (b * c) == c * (b * a),
{
}

proof fn lemma_spread_minus(x: int, a: int, b: int)
    by (nonlinear_arith)
    ensures
        x * (a - b) == x * a - x * b,
{
}

/// Both segments lead to the one point in which they meet.
pub proof fn lemma_meeting_point(d1u: int, d1v: int, d2u: int, d2v: int, wu: int, wv: int)
    ensures
        wu * det2(d1u, d1v, d2u, d2v) == d1u * det2(wu, wv, d2u, d2v) - d2u * det2(
            wu,
            wv,
            d1u,
            d1v,
        ),
        wv * det2(d1u, d1v, d2u, d2v) == d1v * det2(wu, wv, d2u, d2v) - d2v * det2(
            wu,
            wv,
            d1u,
            d1v,
        ),
{
    lemma_spread_minus(wu, d1u * d2v, d1v * d2u);
    lemma_spread_minus(d1u, wu * d2v, wv * d2u);
    lemma_spread_minus(d2u, wu * d1v, wv * d1u);
    lemma_triple(wu, d1u, d2v);
    lemma_triple(wu, d1v, d2u);
    lemma_triple(d1u, wv, d2u);
    lemma_spread_minus(wv, d1u * d2v, d1v * d2u);
    lemma_spread_minus(d1v, wu * d2v, wv * d2u);
    lemma_spread_minus(d2v, wu * d1v, wv * d1u);
    lemma_triple(wv, d1u, d2v);
    lemma_triple(wv, d1v, d2u);
    lemma_triple(d1v, wu, d2v);
}

} // verus!
