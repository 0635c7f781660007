//! The intersection of a line with a face: the stretches of the line that
//! lie in the face.

use vstd::prelude::*;
use crate::algorithms::intersection::line_segment::{det2, lemma_meeting_point, Segment2};
use crate::geometry::curve::{Curve, Line};
use crate::math::point::{Point2, Vector2};
use crate::math::scalar::{magnitude, wide_product, Tolerance};
use crate::math::transform::Axis;
use crate::objects::edge::{Cycle, Edge};
use crate::objects::face::Face;
use crate::validation::flat::{segment_of, spec_segment};

verus! {

/// A line in a plane. The line coordinate `s` names the point
/// `origin + s * direction`.
#[derive(Clone, Copy, Debug, PartialEq, Eq, Structural)]
pub struct Line2 {
    pub origin: Point2,
    pub direction: Vector2,
}

/// A position on a line, as a fraction: the line coordinate `num / den`.
/// The denominator is positive.
#[derive(Clone, Copy, Debug, PartialEq, Eq, Structural)]
pub struct Ratio {
    pub num: i64,
    pub den: i64,
}

/// A stretch of a line that lies in a face, between the line coordinates at
/// which the line enters the face and leaves it.
#[derive(Clone, Copy, Debug, PartialEq, Eq, Structural)]
pub struct CurveFaceIntersection {
    pub start: Ratio,
    pub end: Ratio,
}

/// The stretches of a line that lie in a face, in their order along the line.
#[derive(Clone, Debug, PartialEq, Eq)]
pub struct CurveFaceIntersectionList {
    pub intervals: Vec<CurveFaceIntersection>,
}

/// How a line passes a segment.
pub ghost enum Passing {
    /// The line does not cross the segment.
    Apart,
    /// The line crosses the segment at the line coordinate `num / den`.
    At { num: int, den: int },
}

/// How far `p` lies to the left of the line, in units of the length of the
/// direction; negative to the right.
pub open spec fn side(line: Line2, p: Point2) -> int {
    det2(
        line.direction.u as int,
        line.direction.v as int,
        p.u - line.origin.u,
        p.v - line.origin.v,
    )
}

/// Whether `p` lies to the right of the line by more than the tolerance.
pub open spec fn is_right(line: Line2, p: Point2, tolerance: int) -> bool {
    side(line, p) < -tolerance
}

/// How the line passes the segment. It crosses a segment whose ends lie on
/// different sides, an end that lies on the line within the tolerance
/// counting as on the left: so a line through a corner of a cycle crosses
/// one of the two edges that meet there where the cycle passes from one side
/// to the other, and both or none where the cycle only touches the line.
pub open spec fn spec_passing(line: Line2, segment: Segment2, tolerance: int) -> Passing {
    if is_right(line, segment.start, tolerance) == is_right(line, segment.end, tolerance) {
        Passing::Apart
    } else {
        let den = side(line, segment.end) - side(line, segment.start);
        let num = det2(
            segment.start.u - line.origin.u,
            segment.start.v - line.origin.v,
            segment.end.u - segment.start.u,
            segment.end.v - segment.start.v,
        );
        Passing::At {
            num: if den < 0 {
                -num
            } else {
                num
            },
            den: magnitude(den),
        }
    }
}

/// Whether the fraction `a` is at most the fraction `b`.
pub open spec fn ratio_le(a: Ratio, b: Ratio) -> bool {
    a.num * b.den <= b.num * a.den
}

/// The number of fractions at the head of the list, from `from` on, that are
/// at most `x`, added to `from`.
pub open spec fn lead(list: Seq<Ratio>, x: Ratio, from: int) -> int
    decreases list.len() - from,
{
    if 0 <= from < list.len() && ratio_le(list[from], x) {
        lead(list, x, from + 1)
    } else {
        from
    }
}

/// The list with `x` put behind the fractions at its head that are at most
/// `x`.
pub open spec fn inserted(list: Seq<Ratio>, x: Ratio) -> Seq<Ratio> {
    list.insert(lead(list, x, 0), x)
}

/// Whether an integer fits into 64 bits.
pub open spec fn fits64(v: int) -> bool {
    i64::MIN <= v <= i64::MAX
}

/// The crossings collected so far, with the crossing of the edge put in its
/// place. An edge that covers no straight stretch is passed over. There is
/// no list where a crossing lies at a fraction that does not fit into 64
/// bits.
pub open spec fn with_edge(
    found: Option<Seq<Ratio>>,
    line: Line2,
    edge: Edge,
    axis: Axis,
    tolerance: int,
) -> Option<Seq<Ratio>> {
    match found {
        Some(list) => match spec_segment(edge, axis) {
            Some(segment) => match spec_passing(line, segment, tolerance) {
                Passing::Apart => Some(list),
                Passing::At { num, den } => if fits64(num) && fits64(den) {
                    Some(inserted(list, Ratio { num: num as i64, den: den as i64 }))
                } else {
                    None
                },
            },
            None => Some(list),
        },
        None => None,
    }
}

/// The crossings collected so far, with those of the first `count` of the
/// edges.
pub open spec fn with_edges(
    found: Option<Seq<Ratio>>,
    line: Line2,
    edges: Seq<Edge>,
    count: nat,
    axis: Axis,
    tolerance: int,
) -> Option<Seq<Ratio>>
    decreases count,
{
    if count == 0 {
        found
    } else {
        with_edge(
            with_edges(found, line, edges, (count - 1) as nat, axis, tolerance),
            line,
            edges[count - 1],
            axis,
            tolerance,
        )
    }
}

/// The crossings collected so far, with those of the first `count` of the
/// cycles.
pub open spec fn with_cycles(
    found: Option<Seq<Ratio>>,
    line: Line2,
    cycles: Seq<Cycle>,
    count: nat,
    axis: Axis,
    tolerance: int,
) -> Option<Seq<Ratio>>
    decreases count,
{
    if count == 0 {
        found
    } else {
        with_edges(
            with_cycles(found, line, cycles, (count - 1) as nat, axis, tolerance),
            line,
            cycles[count - 1].edges@,
            cycles[count - 1].edges@.len(),
            axis,
            tolerance,
        )
    }
}

/// The crossings, taken two by two: each pair bounds a stretch. An odd
/// number of crossings bounds no stretches.
pub open spec fn paired(list: Seq<Ratio>) -> Option<Seq<CurveFaceIntersection>> {
    if list.len() % 2 == 0 {
        Some(
            Seq::new(
                list.len() / 2,
                |k: int| CurveFaceIntersection { start: list[2 * k], end: list[2 * k + 1] },
            ),
        )
    } else {
        None
    }
}

/// The stretches of the curve that lie in the face.
///
/// The curve is a line in the plane of the face, and is compared with the
/// edges of the face in that plane, flattened. The line is inside the face
/// between its first and second crossing of the boundary, between its third
/// and fourth, and so on, the crossings being taken in their order along the
/// line and those of the interior cycles among them: so a stretch inside a
/// hole is left out. There are no stretches for a curve that is no line, a
/// face that is not bounded by cycles or does not lie in a plane, a crossing
/// at a fraction that does not fit into 64 bits, or an odd number of
/// crossings.
pub open spec fn spec_curve_face(curve: Curve, face: Face, tolerance: int) -> Option<
    Seq<CurveFaceIntersection>,
> {
    match (curve, face) {
        (Curve::Line(line), Face::Face(brep)) => match brep.surface.spec_flattening_axis() {
            Some(axis) => {
                let flat = Line2 {
                    origin: line.origin.spec_flattened(axis),
                    direction: line.direction.spec_flattened(axis),
                };
                let outer = with_cycles(
                    Some(Seq::empty()),
                    flat,
                    brep.exteriors@,
                    brep.exteriors@.len(),
                    axis,
                    tolerance,
                );
                match with_cycles(
                    outer,
                    flat,
                    brep.interiors@,
                    brep.interiors@.len(),
                    axis,
                    tolerance,
                ) {
                    Some(list) => paired(list),
                    None => None,
                }
            },
            None => None,
        },
        _ => None,
    }
}

/// How a line passes a segment, in machine integers.
enum Hit {
    Apart,
    At(Ratio),
    TooLarge,
}

/// How far `p` lies to the left of the line.
fn side_of(line: &Line2, p: &Point2) -> (r: i128)
    ensures
        r == side(*line, *p),
        -0x1_0000_0000_0000_0000 <= r <= 0x1_0000_0000_0000_0000,
{
    let pu: i64 = p.u as i64 - line.origin.u as i64;
    let pv: i64 = p.v as i64 - line.origin.v as i64;
    assert(-0x8000_0000_0000_0000 <= (line.direction.u as int) * pv <= 0x8000_0000_0000_0000)
        by (nonlinear_arith)
        requires
            -0x8000_0000 <= line.direction.u as int <= 0x7fff_ffff,
            -0x1_0000_0000 <= pv <= 0x1_0000_0000,
    ;
    assert(-0x8000_0000_0000_0000 <= (line.direction.v as int) * pu <= 0x8000_0000_0000_0000)
        by (nonlinear_arith)
        requires
            -0x8000_0000 <= line.direction.v as int <= 0x7fff_ffff,
            -0x1_0000_0000 <= pu <= 0x1_0000_0000,
    ;
    wide_product(line.direction.u as i64, pv) - wide_product(line.direction.v as i64, pu)
}

/// How the line passes the segment.
fn passing(line: &Line2, segment: &Segment2, tolerance: &Tolerance) -> (r: Hit)
    ensures
        match r {
            Hit::Apart => spec_passing(*line, *segment, tolerance.distance as int) is Apart,
            Hit::At(q) => q.den > 0 && spec_passing(*line, *segment, tolerance.distance as int)
                == (Passing::At { num: q.num as int, den: q.den as int }),
            Hit::TooLarge => spec_passing(*line, *segment, tolerance.distance as int) matches Passing::At {
                num,
                den,
            } && !(fits64(num) && fits64(den)),
        },
{
    let at_start: i128 = side_of(line, &segment.start);
    let at_end: i128 = side_of(line, &segment.end);
    let limit: i128 = -(tolerance.distance as i128);
    if (at_start < limit) == (at_end < limit) {
        return Hit::Apart;
    }
    let wu: i64 = segment.start.u as i64 - line.origin.u as i64;
    let wv: i64 = segment.start.v as i64 - line.origin.v as i64;
    let du: i64 = segment.end.u as i64 - segment.start.u as i64;
    let dv: i64 = segment.end.v as i64 - segment.start.v as i64;
    assert(-0x1_0000_0000_0000_0000 <= wu * dv <= 0x1_0000_0000_0000_0000) by (nonlinear_arith)
        requires
            -0x1_0000_0000 <= wu <= 0x1_0000_0000,
            -0x1_0000_0000 <= dv <= 0x1_0000_0000,
    ;
    assert(-0x1_0000_0000_0000_0000 <= wv * du <= 0x1_0000_0000_0000_0000) by (nonlinear_arith)
        requires
            -0x1_0000_0000 <= wv <= 0x1_0000_0000,
            -0x1_0000_0000 <= du <= 0x1_0000_0000,
    ;
    let along: i128 = wide_product(wu, dv) - wide_product(wv, du);
    let across: i128 = at_end - at_start;
    let (num, den): (i128, i128) = if across < 0 {
        (-along, -across)
    } else {
        (along, across)
    };
    if num < -0x8000_0000_0000_0000 || num > 0x7fff_ffff_ffff_ffff || den
        > 0x7fff_ffff_ffff_ffff {
        Hit::TooLarge
    } else {
        Hit::At(Ratio { num: num as i64, den: den as i64 })
    }
}

/// Whether the fraction `a` is at most the fraction `b`.
pub fn is_ratio_le(a: &Ratio, b: &Ratio) -> (r: bool)
    ensures
        r == ratio_le(*a, *b),
{
    wide_product(a.num, b.den) <= wide_product(b.num, a.den)
}

/// Puts `x` into the list, behind the fractions at its head that are at most
/// `x`.
fn insert_in_order(list: &mut Vec<Ratio>, x: Ratio)
    ensures
        final(list)@ == inserted(old(list)@, x),
{
    let mut i: usize = 0;
    while i < list.len() && is_ratio_le(&list[i], &x)
        invariant
            i <= list@.len(),
            list@ == old(list)@,
            lead(list@, x, 0) == lead(list@, x, i as int),
        decreases list@.len() - i,
    {
        i += 1;
    }
    list.insert(i, x);
}

/// Adds the crossings of the cycles to the list, and says whether it did: it
/// does not where a crossing lies at a fraction that does not fit.
fn collect(
    list: &mut Vec<Ratio>,
    line: &Line2,
    cycles: &Vec<Cycle>,
    axis: Axis,
    tolerance: &Tolerance,
) -> (done: bool)
    ensures
        match with_cycles(
            Some(old(list)@),
            *line,
            cycles@,
            cycles@.len(),
            axis,
            tolerance.distance as int,
        ) {
            Some(all) => done && final(list)@ == all,
            None => !done,
        },
{
    let ghost start = list@;
    let mut c: usize = 0;
    while c < cycles.len()
        invariant
            c <= cycles@.len(),
            start == old(list)@,
            with_cycles(Some(start), *line, cycles@, c as nat, axis, tolerance.distance as int)
                == Some(list@),
        decreases cycles@.len() - c,
    {
        let edges = &cycles[c].edges;
        let ghost before = list@;
        let mut i: usize = 0;
        while i < edges.len()
            invariant
                c < cycles@.len(),
                start == old(list)@,
                edges@ == cycles@[c as int].edges@,
                i <= edges@.len(),
                with_cycles(
                    Some(start),
                    *line,
                    cycles@,
                    c as nat,
                    axis,
                    tolerance.distance as int,
                ) == Some(before),
                with_edges(Some(before), *line, edges@, i as nat, axis, tolerance.distance as int)
                    == Some(list@),
            decreases edges@.len() - i,
        {
            match segment_of(&edges[i], axis) {
                Some(segment) => match passing(line, &segment, tolerance) {
                    Hit::Apart => {},
                    Hit::At(q) => {
                        insert_in_order(list, q);
                    },
                    Hit::TooLarge => {
                        proof {
                            assert(with_edges(
                                Some(before),
                                *line,
                                edges@,
                                (i + 1) as nat,
                                axis,
                                tolerance.distance as int,
                            ) is None);
                            lemma_lost_stays_lost(
                                Some(start),
                                *line,
                                cycles@,
                                c as int,
                                i as int,
                                axis,
                                tolerance.distance as int,
                            );
                        }
                        return false;
                    },
                },
                None => {},
            }
            i += 1;
        }
        c += 1;
    }
    true
}

/// Once a crossing does not fit, there is no list, whatever edges follow.
proof fn lemma_lost_stays_lost(
    found: Option<Seq<Ratio>>,
    line: Line2,
    cycles: Seq<Cycle>,
    c: int,
    i: int,
    axis: Axis,
    tolerance: int,
)
    requires
        0 <= c < cycles.len(),
        0 <= i < cycles[c].edges@.len(),
        with_edges(
            with_cycles(found, line, cycles, c as nat, axis, tolerance),
            line,
            cycles[c].edges@,
            (i + 1) as nat,
            axis,
            tolerance,
        ) is None,
    ensures
        with_cycles(found, line, cycles, cycles.len(), axis, tolerance) is None,
{
    let edges = cycles[c].edges@;
    let before = with_cycles(found, line, cycles, c as nat, axis, tolerance);
    lemma_edges_lost(before, line, edges, (i + 1) as nat, edges.len(), axis, tolerance);
    lemma_cycles_lost(found, line, cycles, (c + 1) as nat, cycles.len(), axis, tolerance);
}

proof fn lemma_edges_lost(
    found: Option<Seq<Ratio>>,
    line: Line2,
    edges: Seq<Edge>,
    fewer: nat,
    more: nat,
    axis: Axis,
    tolerance: int,
)
    requires
        fewer <= more,
        with_edges(found, line, edges, fewer, axis, tolerance) is None,
    ensures
        with_edges(found, line, edges, more, axis, tolerance) is None,
    decreases more,
{
    if fewer < more {
        lemma_edges_lost(found, line, edges, fewer, (more - 1) as nat, axis, tolerance);
    }
}

proof fn lemma_cycles_lost(
    found: Option<Seq<Ratio>>,
    line: Line2,
    cycles: Seq<Cycle>,
    fewer: nat,
    more: nat,
    axis: Axis,
    tolerance: int,
)
    requires
        fewer <= more,
        with_cycles(found, line, cycles, fewer, axis, tolerance) is None,
    ensures
        with_cycles(found, line, cycles, more, axis, tolerance) is None,
    decreases more,
{
    if fewer < more {
        lemma_cycles_lost(found, line, cycles, fewer, (more - 1) as nat, axis, tolerance);
        let before = with_cycles(found, line, cycles, (more - 1) as nat, axis, tolerance);
        lemma_edges_lost(
            before,
            line,
            cycles[more - 1].edges@,
            0,
            cycles[more - 1].edges@.len(),
            axis,
            tolerance,
        );
    }
}

impl CurveFaceIntersectionList {
    /// The stretches of the curve that lie in the face.
    pub fn compute(curve: &Curve, face: &Face, tolerance: &Tolerance) -> (r: Option<Self>)
        ensures
            match r {
                Some(list) => spec_curve_face(*curve, *face, tolerance.distance as int) == Some(
                    list.intervals@,
                ),
                None => spec_curve_face(*curve, *face, tolerance.distance as int) is None,
            },
    {
        match (curve, face) {
            (Curve::Line(line), Face::Face(brep)) => match brep.surface.flattening_axis() {
                Some(axis) => {
                    let flat = Line2 {
                        origin: line.origin.flattened(axis),
                        direction: line.direction.flattened(axis),
                    };
                    let mut list: Vec<Ratio> = Vec::new();
                    if !collect(&mut list, &flat, &brep.exteriors, axis, tolerance) {
                        proof {
                            lemma_cycles_lost(
                                None,
                                flat,
                                brep.interiors@,
                                0,
                                brep.interiors@.len(),
                                axis,
                                tolerance.distance as int,
                            );
                        }
                        return None;
                    }
                    if !collect(&mut list, &flat, &brep.interiors, axis, tolerance) {
                        return None;
                    }
                    if list.len() % 2 != 0 {
                        return None;
                    }
                    let mut intervals: Vec<CurveFaceIntersection> = Vec::new();
                    let mut k: usize = 0;
                    while k < list.len() / 2
                        invariant
                            list@.len() % 2 == 0,
                            k <= list@.len() / 2,
                            intervals@.len() == k,
                            forall|j: int|
                                0 <= j < k ==> intervals@[j] == (CurveFaceIntersection {
                                    start: list@[2 * j],
                                    end: list@[2 * j + 1],
                                }),
                        decreases list@.len() / 2 - k,
                    {
                        intervals.push(
                            CurveFaceIntersection { start: list[2 * k], end: list[2 * k + 1] },
                        );
                        k += 1;
                    }
                    assert(intervals@ =~= paired(list@).unwrap());
                    Some(CurveFaceIntersectionList { intervals })
                },
                None => None,
            },
            _ => None,
        }
    }
}

/// Whether every fraction of the list has a positive denominator.
pub open spec fn all_positive(list: Seq<Ratio>) -> bool {
    forall|i: int| 0 <= i < list.len() ==> (#[trigger] list[i]).den > 0
}

/// Whether the fractions of the list stand in their order.
pub open spec fn in_order(list: Seq<Ratio>) -> bool {
    forall|i: int, j: int|
        0 <= i < j < list.len() ==> ratio_le(#[trigger] list[i], #[trigger] list[j])
}

/// The order of fractions is transitive.
proof fn lemma_ratio_le_transitive(a: Ratio, b: Ratio, c: Ratio)
    requires
        a.den > 0,
        b.den > 0,
        c.den > 0,
        ratio_le(a, b),
        ratio_le(b, c),
    ensures
        ratio_le(a, c),
{
    let (an, ad, bn, bd, cn, cd) = (
        a.num as int,
        a.den as int,
        b.num as int,
        b.den as int,
        c.num as int,
        c.den as int,
    );
    assert((an * bd) * cd <= (bn * ad) * cd) by (nonlinear_arith)
        requires
            an * bd <= bn * ad,
            cd > 0,
    ;
    assert((bn * cd) * ad <= (cn * bd) * ad) by (nonlinear_arith)
        requires
            bn * cd <= cn * bd,
            ad > 0,
    ;
    assert((an * bd) * cd == (an * cd) * bd && (bn * ad) * cd == (bn * cd) * ad && (cn * bd) * ad
        == (cn * ad) * bd) by (nonlinear_arith);
    assert(an * cd <= cn * ad) by (nonlinear_arith)
        requires
            (an * cd) * bd <= (cn * ad) * bd,
            bd > 0,
    ;
}

/// Where the head of a list ends.
proof fn lemma_lead(list: Seq<Ratio>, x: Ratio, from: int)
    requires
        0 <= from <= list.len(),
    ensures
        from <= lead(list, x, from) <= list.len(),
        forall|k: int| from <= k < lead(list, x, from) ==> ratio_le(#[trigger] list[k], x),
        lead(list, x, from) < list.len() ==> !ratio_le(list[lead(list, x, from)], x),
    decreases list.len() - from,
{
    if from < list.len() && ratio_le(list[from], x) {
        lemma_lead(list, x, from + 1);
    }
}

/// A fraction that is put into a list in order leaves the list in order.
proof fn lemma_inserted_in_order(list: Seq<Ratio>, x: Ratio)
    requires
        in_order(list),
        all_positive(list),
        x.den > 0,
    ensures
        in_order(inserted(list, x)),
        all_positive(inserted(list, x)),
{
    let p = lead(list, x, 0);
    lemma_lead(list, x, 0);
    let out = inserted(list, x);
    assert forall|i: int, j: int| 0 <= i < j < out.len() implies ratio_le(
        #[trigger] out[i],
        #[trigger] out[j],
    ) by {
        if j < p {
            assert(out[i] == list[i] && out[j] == list[j]);
        } else if j == p {
            assert(out[i] == list[i] && out[j] == x);
        } else if i < p {
            assert(out[i] == list[i] && out[j] == list[j - 1]);
        } else if i == p {
            assert(out[i] == x && out[j] == list[j - 1]);
            assert(!ratio_le(list[p], x));
            assert(ratio_le(x, list[p])) by (nonlinear_arith)
                requires
                    !(list[p].num * x.den <= x.num * list[p].den),
            ;
            if j - 1 > p {
                lemma_ratio_le_transitive(x, list[p], list[j - 1]);
            }
        } else {
            assert(out[i] == list[i - 1] && out[j] == list[j - 1]);
        }
    }
    assert forall|i: int| 0 <= i < out.len() implies (#[trigger] out[i]).den > 0 by {
        if i < p {
            assert(out[i] == list[i]);
        } else if i == p {
            assert(out[i] == x);
        } else {
            assert(out[i] == list[i - 1]);
        }
    }
}

proof fn lemma_edges_in_order(
    found: Option<Seq<Ratio>>,
    line: Line2,
    edges: Seq<Edge>,
    count: nat,
    axis: Axis,
    tolerance: int,
)
    requires
        0 <= tolerance,
        found matches Some(list) ==> in_order(list) && all_positive(list),
    ensures
        with_edges(found, line, edges, count, axis, tolerance) matches Some(list) ==> in_order(list)
            && all_positive(list),
    decreases count,
{
    if count > 0 {
        lemma_edges_in_order(found, line, edges, (count - 1) as nat, axis, tolerance);
        let before = with_edges(found, line, edges, (count - 1) as nat, axis, tolerance);
        if let Some(list) = before {
            if let Some(segment) = spec_segment(edges[count - 1], axis) {
                if let Passing::At { num, den } = spec_passing(line, segment, tolerance) {
                    if fits64(num) && fits64(den) {
                        lemma_inserted_in_order(list, Ratio { num: num as i64, den: den as i64 });
                    }
                }
            }
        }
    }
}

proof fn lemma_cycles_in_order(
    found: Option<Seq<Ratio>>,
    line: Line2,
    cycles: Seq<Cycle>,
    count: nat,
    axis: Axis,
    tolerance: int,
)
    requires
        0 <= tolerance,
        found matches Some(list) ==> in_order(list) && all_positive(list),
    ensures
        with_cycles(found, line, cycles, count, axis, tolerance) matches Some(list) ==> in_order(
            list,
        ) && all_positive(list),
    decreases count,
{
    if count > 0 {
        lemma_cycles_in_order(found, line, cycles, (count - 1) as nat, axis, tolerance);
        lemma_edges_in_order(
            with_cycles(found, line, cycles, (count - 1) as nat, axis, tolerance),
            line,
            cycles[count - 1].edges@,
            cycles[count - 1].edges@.len(),
            axis,
            tolerance,
        );
    }
}

/// The stretches of a line that lie in a face come in their order along the
/// line: each ends no earlier than it starts, and starts no earlier than
/// the stretch before it ends.
pub proof fn lemma_stretches_in_order(curve: Curve, face: Face, tolerance: int, k: int, m: int)
    requires
        0 <= tolerance,
        spec_curve_face(curve, face, tolerance) matches Some(stretches) && 0 <= k < m
            < stretches.len(),
    ensures
        ({
            let stretches = spec_curve_face(curve, face, tolerance).unwrap();
            &&& ratio_le(stretches[k].start, stretches[k].end)
            &&& ratio_le(stretches[k].end, stretches[m].start)
            &&& ratio_le(stretches[m].start, stretches[m].end)
        }),
{
    match (curve, face) {
        (Curve::Line(line), Face::Face(brep)) => {
            let axis = brep.surface.spec_flattening_axis().unwrap();
            let flat = Line2 {
                origin: line.origin.spec_flattened(axis),
                direction: line.direction.spec_flattened(axis),
            };
            lemma_cycles_in_order(
                Some(Seq::empty()),
                flat,
                brep.exteriors@,
                brep.exteriors@.len(),
                axis,
                tolerance,
            );
            let outer = with_cycles(
                Some(Seq::empty()),
                flat,
                brep.exteriors@,
                brep.exteriors@.len(),
                axis,
                tolerance,
            );
            lemma_cycles_in_order(
                outer,
                flat,
                brep.interiors@,
                brep.interiors@.len(),
                axis,
                tolerance,
            );
            let list = with_cycles(
                outer,
                flat,
                brep.interiors@,
                brep.interiors@.len(),
                axis,
                tolerance,
            ).unwrap();
            assert(ratio_le(list[2 * k], list[2 * k + 1]));
            assert(ratio_le(list[2 * k + 1], list[2 * m]));
            assert(ratio_le(list[2 * m], list[2 * m + 1]));
        },
        _ => {},
    }
}

/// Where a line crosses a segment, the point of the line at the reported
/// coordinate is a point of the line through the segment: it is reached from
/// the start of the segment by going `along / den` of the way to its end.
/// With a tolerance of zero that is between none and all of the way, so
/// that the point lies on the segment itself.
pub proof fn lemma_crossing_lies_on_both(line: Line2, segment: Segment2, tolerance: int)
    requires
        0 <= tolerance,
        spec_passing(line, segment, tolerance) is At,
    ensures
        ({
            let at = spec_passing(line, segment, tolerance);
            let rise = side(line, segment.end) - side(line, segment.start);
            let along = if rise < 0 {
                side(line, segment.start)
            } else {
                -side(line, segment.start)
            };
            &&& at->den > 0
            &&& line.origin.u * at->den + line.direction.u * at->num == segment.start.u * at->den
                + (segment.end.u - segment.start.u) * along
            &&& line.origin.v * at->den + line.direction.v * at->num == segment.start.v * at->den
                + (segment.end.v - segment.start.v) * along
            &&& tolerance == 0 ==> 0 <= along <= at->den
        }),
{
    let (du, dv) = (line.direction.u as int, line.direction.v as int);
    let (ou, ov) = (line.origin.u as int, line.origin.v as int);
    let (au, av) = (segment.start.u as int, segment.start.v as int);
    let (eu, ev) = (segment.end.u - segment.start.u, segment.end.v - segment.start.v);
    let (wu, wv) = (au - ou, av - ov);
    let rise = side(line, segment.end) - side(line, segment.start);
    let s = det2(wu, wv, eu, ev);
    let t = det2(wu, wv, du, dv);
    let det = det2(du, dv, eu, ev);
    lemma_meeting_point(du, dv, eu, ev, wu, wv);
    assert(t == -side(line, segment.start)) by (nonlinear_arith)
        requires
            t == wu * dv - wv * du,
            side(line, segment.start) == du * wv - dv * wu,
    ;
    assert(det == rise) by (nonlinear_arith)
        requires
            det == du * ev - dv * eu,
            rise == (du * (wv + ev) - dv * (wu + eu)) - (du * wv - dv * wu),
    ;
    if det > 0 {
        assert(ou * det + du * s == au * det + eu * t && ov * det + dv * s == av * det + ev * t)
            by (nonlinear_arith)
            requires
                wu * det == du * s - eu * t,
                wv * det == dv * s - ev * t,
                wu == au - ou,
                wv == av - ov,
        ;
    } else {
        assert(ou * (-det) + du * (-s) == au * (-det) + eu * (-t) && ov * (-det) + dv * (-s) == av
            * (-det) + ev * (-t)) by (nonlinear_arith)
            requires
                wu * det == du * s - eu * t,
                wv * det == dv * s - ev * t,
                wu == au - ou,
                wv == av - ov,
        ;
    }
}

/// Whether the edge with the given number is a straight edge between two
/// vertices that ends where the next edge starts, the first edge being next
/// to the last.
pub open spec fn joins_next(edges: Seq<Edge>, i: int, axis: Axis) -> bool {
    let next = if i + 1 < edges.len() {
        i + 1
    } else {
        0
    };
    &&& spec_segment(edges[i], axis) is Some
    &&& spec_segment(edges[next], axis) is Some
    &&& spec_segment(edges[i], axis).unwrap().end == spec_segment(edges[next], axis).unwrap().start
}

/// Whether the edges form a closed polygon in the flattened plane.
pub open spec fn is_polygon(edges: Seq<Edge>, axis: Axis) -> bool {
    forall|i: int| 0 <= i < edges.len() ==> joins_next(edges, i, axis)
}

/// Whether the line passes from one side to the other between the two
/// points.
pub open spec fn changes_side(line: Line2, from: Point2, to: Point2, tolerance: int) -> bool {
    is_right(line, from, tolerance) != is_right(line, to, tolerance)
}

/// An edge adds one crossing to the list where the line changes sides along
/// it, and none where it does not.
proof fn lemma_edge_adds(list: Seq<Ratio>, line: Line2, edge: Edge, axis: Axis, tolerance: int)
    requires
        spec_segment(edge, axis) is Some,
    ensures
        with_edge(Some(list), line, edge, axis, tolerance) matches Some(next) ==> next.len()
            == list.len() + (if changes_side(
            line,
            spec_segment(edge, axis).unwrap().start,
            spec_segment(edge, axis).unwrap().end,
            tolerance,
        ) {
            1int
        } else {
            0int
        }),
{
    let segment = spec_segment(edge, axis).unwrap();
    match spec_passing(line, segment, tolerance) {
        Passing::Apart => {},
        Passing::At { num, den } => {
            if fits64(num) && fits64(den) {
                let x = Ratio { num: num as i64, den: den as i64 };
                lemma_lead(list, x, 0);
                assert(inserted(list, x).len() == list.len() + 1);
            }
        },
    }
}

/// Along a chain of edges, the number of crossings is odd exactly where the
/// chain ends on the other side of the line than it started on.
proof fn lemma_chain_crossings(
    found: Seq<Ratio>,
    line: Line2,
    edges: Seq<Edge>,
    count: nat,
    axis: Axis,
    tolerance: int,
)
    requires
        1 <= count <= edges.len(),
        forall|i: int| 0 <= i < count - 1 ==> joins_next(edges, i, axis),
        spec_segment(edges[count - 1], axis) is Some,
    ensures
        with_edges(Some(found), line, edges, count, axis, tolerance) matches Some(list) ==> (
        list.len() - found.len()) % 2 == (if changes_side(
            line,
            spec_segment(edges[0], axis).unwrap().start,
            spec_segment(edges[count - 1], axis).unwrap().end,
            tolerance,
        ) {
            1int
        } else {
            0int
        }),
    decreases count,
{
    let before = with_edges(Some(found), line, edges, (count - 1) as nat, axis, tolerance);
    let edge = edges[count - 1];
    if count > 1 {
        assert(joins_next(edges, count - 2, axis));
        lemma_chain_crossings(found, line, edges, (count - 1) as nat, axis, tolerance);
    }
    match before {
        Some(list) => {
            lemma_edge_adds(list, line, edge, axis, tolerance);
        },
        None => {},
    }
}

/// A line crosses a closed polygon an even number of times.
pub proof fn lemma_polygon_crossings_even(
    found: Seq<Ratio>,
    line: Line2,
    edges: Seq<Edge>,
    axis: Axis,
    tolerance: int,
)
    requires
        is_polygon(edges, axis),
    ensures
        with_edges(Some(found), line, edges, edges.len(), axis, tolerance) matches Some(list)
            ==> list.len() % 2 == found.len() % 2,
{
    if edges.len() > 0 {
        let last = edges.len() - 1;
        assert(joins_next(edges, last, axis));
        assert forall|i: int| 0 <= i < last implies joins_next(edges, i, axis) by {}
        lemma_chain_crossings(found, line, edges, edges.len(), axis, tolerance);
    }
}

/// A line crosses cycles that are closed polygons an even number of times.
pub proof fn lemma_polygons_crossings_even(
    found: Seq<Ratio>,
    line: Line2,
    cycles: Seq<Cycle>,
    count: nat,
    axis: Axis,
    tolerance: int,
)
    requires
        count <= cycles.len(),
        forall|c: int| 0 <= c < cycles.len() ==> is_polygon((#[trigger] cycles[c]).edges@, axis),
    ensures
        with_cycles(Some(found), line, cycles, count, axis, tolerance) matches Some(list)
            ==> list.len() % 2 == found.len() % 2,
    decreases count,
{
    if count > 0 {
        lemma_polygons_crossings_even(found, line, cycles, (count - 1) as nat, axis, tolerance);
        let before = with_cycles(Some(found), line, cycles, (count - 1) as nat, axis, tolerance);
        match before {
            Some(list) => {
                assert(is_polygon(cycles[count - 1].edges@, axis));
                lemma_polygon_crossings_even(list, line, cycles[count - 1].edges@, axis, tolerance);
            },
            None => {
                lemma_edges_lost(
                    before,
                    line,
                    cycles[count - 1].edges@,
                    0,
                    cycles[count - 1].edges@.len(),
                    axis,
                    tolerance,
                );
            },
        }
    }
}

/// Whether every one of the cycles is a closed polygon.
pub open spec fn all_polygons(cycles: Seq<Cycle>, axis: Axis) -> bool {
    forall|c: int| 0 <= c < cycles.len() ==> is_polygon((#[trigger] cycles[c]).edges@, axis)
}

/// The stretches of a line in a face are found wherever the face lies in a
/// plane, all its cycles are closed polygons, and every crossing lies at a
/// fraction that fits: the line then crosses the boundary an even number of
/// times.
pub proof fn lemma_stretches_found(line: Line, face: Face, axis: Axis, tolerance: int)
    requires
        face matches Face::Face(brep) && brep.surface.spec_flattening_axis() == Some(axis)
            && all_polygons(brep.exteriors@, axis) && all_polygons(brep.interiors@, axis),
    ensures
        ({
            let brep = face->Face_0;
            let flat = Line2 {
                origin: line.origin.spec_flattened(axis),
                direction: line.direction.spec_flattened(axis),
            };
            spec_curve_face(Curve::Line(line), face, tolerance) is Some == with_cycles(
                with_cycles(
                    Some(Seq::empty()),
                    flat,
                    brep.exteriors@,
                    brep.exteriors@.len(),
                    axis,
                    tolerance,
                ),
                flat,
                brep.interiors@,
                brep.interiors@.len(),
                axis,
                tolerance,
            ) is Some
        }),
{
    let brep = face->Face_0;
    let flat = Line2 {
        origin: line.origin.spec_flattened(axis),
        direction: line.direction.spec_flattened(axis),
    };
    let none = Seq::<Ratio>::empty();
    let outer = with_cycles(
        Some(none),
        flat,
        brep.exteriors@,
        brep.exteriors@.len(),
        axis,
        tolerance,
    );
    let inner = with_cycles(outer, flat, brep.interiors@, brep.interiors@.len(), axis, tolerance);
    lemma_polygons_crossings_even(
        none,
        flat,
        brep.exteriors@,
        brep.exteriors@.len(),
        axis,
        tolerance,
    );
    match outer {
        Some(list) => {
            lemma_polygons_crossings_even(
                list,
                flat,
                brep.interiors@,
                brep.interiors@.len(),
                axis,
                tolerance,
            );
            match inner {
                Some(all) => {
                    assert(all.len() % 2 == 0);
                    assert(paired(all) is Some);
                },
                None => {},
            }
        },
        None => {
            lemma_cycles_lost(
                outer,
                flat,
                brep.interiors@,
                0,
                brep.interiors@.len(),
                axis,
                tolerance,
            );
        },
    }
}

} // verus!
