//! The third check: where two faces share an edge, they are joined
//! consistently.

use vstd::prelude::*;
use crate::geometry::curve::Curve;
use crate::math::scalar::Tolerance;
use crate::objects::edge::{Cycle, Edge};
use crate::objects::face::Face;
use crate::validation::overlap::pair_before;

verus! {

/// Whether two curves are of one kind.
pub open spec fn same_kind(one: Curve, other: Curve) -> bool {
    (one is Line) == (other is Line)
}

/// Whether two edges of different faces are joined wrongly. Two edges are one
/// shared edge where they connect the same two places, which are not one
/// place. A shared edge is joined rightly where its two faces run along it in
/// opposite directions, on curves of one kind.
pub open spec fn misjoined(one: Edge, other: Edge, tolerance: int) -> bool {
    match (one.spec_start(), one.spec_end(), other.spec_start(), other.spec_end()) {
        (Some(s1), Some(e1), Some(s2), Some(e2)) => {
            &&& !s1@.close_to(e1@, tolerance)
            &&& ((s1@.close_to(s2@, tolerance) && e1@.close_to(e2@, tolerance)) || (s1@.close_to(
                e2@,
                tolerance,
            ) && e1@.close_to(s2@, tolerance) && !same_kind(one.curve, other.curve)))
        },
        _ => false,
    }
}

/// Whether the edge is joined rightly to every edge of the cycles.
pub open spec fn edge_fits(edge: Edge, cycles: Seq<Cycle>, tolerance: int) -> bool {
    forall|c: int, j: int|
        0 <= c < cycles.len() && 0 <= j < cycles[c].edges@.len() ==> !#[trigger] misjoined(
            edge,
            cycles[c].edges@[j],
            tolerance,
        )
}

/// Whether every edge of the cycles `one` is joined rightly to every edge of
/// the cycles `other`.
pub open spec fn cycles_fit(one: Seq<Cycle>, other: Seq<Cycle>, tolerance: int) -> bool {
    forall|c: int, i: int|
        0 <= c < one.len() && 0 <= i < one[c].edges@.len() ==> #[trigger] edge_fits(
            one[c].edges@[i],
            other,
            tolerance,
        )
}

/// Whether two faces are joined consistently: every edge of the one is joined
/// rightly to every edge of the other. A face of triangles has no edges.
pub open spec fn faces_fit(one: Face, other: Face, tolerance: int) -> bool {
    match (one, other) {
        (Face::Face(a), Face::Face(b)) => {
            &&& cycles_fit(a.exteriors@, b.exteriors@, tolerance)
            &&& cycles_fit(a.exteriors@, b.interiors@, tolerance)
            &&& cycles_fit(a.interiors@, b.exteriors@, tolerance)
            &&& cycles_fit(a.interiors@, b.interiors@, tolerance)
        },
        _ => true,
    }
}

/// Whether every two of the faces are joined consistently.
pub open spec fn all_joined(faces: Seq<Face>, tolerance: int) -> bool {
    forall|a: int, b: int|
        0 <= a < b < faces.len() ==> #[trigger] faces_fit(faces[a], faces[b], tolerance)
}

/// Whether `first` and `second` are the first two of the faces that are not
/// joined consistently.
pub open spec fn is_first_inconsistent_join(
    faces: Seq<Face>,
    tolerance: int,
    first: usize,
    second: usize,
) -> bool {
    &&& first < second < faces.len()
    &&& !faces_fit(faces[first as int], faces[second as int], tolerance)
    &&& forall|a: int, b: int|
        0 <= a < b < faces.len() && pair_before(a, b, first as int, second as int)
            ==> #[trigger] faces_fit(faces[a], faces[b], tolerance)
}

/// Whether two edges of different faces are joined wrongly.
pub fn is_misjoined(one: &Edge, other: &Edge, tolerance: &Tolerance) -> (r: bool)
    ensures
        r == misjoined(*one, *other, tolerance.distance as int),
{
    match (one.start(), one.end(), other.start(), other.end()) {
        (Some(s1), Some(e1), Some(s2), Some(e2)) => {
            let kinds = match (one.curve, other.curve) {
                (Curve::Line(_), Curve::Line(_)) => true,
                (Curve::Circle(_), Curve::Circle(_)) => true,
                _ => false,
            };
            !s1.coincides_with(&e1, tolerance) && ((s1.coincides_with(&s2, tolerance)
                && e1.coincides_with(&e2, tolerance)) || (s1.coincides_with(&e2, tolerance)
                && e1.coincides_with(&s2, tolerance) && !kinds))
        },
        _ => false,
    }
}

/// Whether the edge is joined rightly to every edge of the cycles.
pub fn does_edge_fit(edge: &Edge, cycles: &Vec<Cycle>, tolerance: &Tolerance) -> (r: bool)
    ensures
        r == edge_fits(*edge, cycles@, tolerance.distance as int),
{
    let mut c: usize = 0;
    while c < cycles.len()
        invariant
            c <= cycles@.len(),
            forall|x: int, y: int|
                0 <= x < c && 0 <= y < cycles@[x].edges@.len() ==> !#[trigger] misjoined(
                    *edge,
                    cycles@[x].edges@[y],
                    tolerance.distance as int,
                ),
        decreases cycles@.len() - c,
    {
        let mut j: usize = 0;
        while j < cycles[c].edges.len()
            invariant
                c < cycles@.len(),
                j <= cycles@[c as int].edges@.len(),
                forall|x: int, y: int|
                    0 <= x < cycles@.len() && 0 <= y < cycles@[x].edges@.len() && pair_before(
                        x,
                        y,
                        c as int,
                        j as int,
                    ) ==> !#[trigger] misjoined(
                        *edge,
                        cycles@[x].edges@[y],
                        tolerance.distance as int,
                    ),
            decreases cycles@[c as int].edges@.len() - j,
        {
            if is_misjoined(edge, &cycles[c].edges[j], tolerance) {
                return false;
            }
            j += 1;
        }
        c += 1;
    }
    true
}

/// Whether every edge of the cycles `one` is joined rightly to every edge of
/// the cycles `other`.
pub fn do_cycles_fit(one: &Vec<Cycle>, other: &Vec<Cycle>, tolerance: &Tolerance) -> (r: bool)
    ensures
        r == cycles_fit(one@, other@, tolerance.distance as int),
{
    let mut c: usize = 0;
    while c < one.len()
        invariant
            c <= one@.len(),
            forall|x: int, y: int|
                0 <= x < c && 0 <= y < one@[x].edges@.len() ==> #[trigger] edge_fits(
                    one@[x].edges@[y],
                    other@,
                    tolerance.distance as int,
                ),
        decreases one@.len() - c,
    {
        let mut i: usize = 0;
        while i < one[c].edges.len()
            invariant
                c < one@.len(),
                i <= one@[c as int].edges@.len(),
                forall|x: int, y: int|
                    0 <= x < one@.len() && 0 <= y < one@[x].edges@.len() && pair_before(
                        x,
                        y,
                        c as int,
                        i as int,
                    ) ==> #[trigger] edge_fits(
                        one@[x].edges@[y],
                        other@,
                        tolerance.distance as int,
                    ),
            decreases one@[c as int].edges@.len() - i,
        {
            if !does_edge_fit(&one[c].edges[i], other, tolerance) {
                return false;
            }
            i += 1;
        }
        c += 1;
    }
    true
}

/// Whether two faces are joined consistently.
pub fn do_faces_fit(one: &Face, other: &Face, tolerance: &Tolerance) -> (r: bool)
    ensures
        r == faces_fit(*one, *other, tolerance.distance as int),
{
    match (one, other) {
        (Face::Face(a), Face::Face(b)) => do_cycles_fit(&a.exteriors, &b.exteriors, tolerance)
            && do_cycles_fit(&a.exteriors, &b.interiors, tolerance) && do_cycles_fit(
            &a.interiors,
            &b.exteriors,
            tolerance,
        ) && do_cycles_fit(&a.interiors, &b.interiors, tolerance),
        _ => true,
    }
}

/// The first two of the faces that are not joined consistently.
pub fn first_inconsistent_join(faces: &Vec<Face>, tolerance: &Tolerance) -> (r: Option<
    (usize, usize),
>)
    ensures
        match r {
            Some((first, second)) => is_first_inconsistent_join(
                faces@,
                tolerance.distance as int,
                first,
                second,
            ),
            None => all_joined(faces@, tolerance.distance as int),
        },
{
    let n = faces.len();
    let mut i: usize = 0;
    while i < n
        invariant
            n == faces@.len(),
            i <= n,
            forall|a: int, b: int|
                0 <= a < b < n && a < i ==> #[trigger] faces_fit(
                    faces@[a],
                    faces@[b],
                    tolerance.distance as int,
                ),
        decreases n - i,
    {
        let mut j: usize = i + 1;
        while j < n
            invariant
                n == faces@.len(),
                i < j <= n,
                forall|a: int, b: int|
                    0 <= a < b < n && pair_before(a, b, i as int, j as int) ==> #[trigger] faces_fit(
                        faces@[a],
                        faces@[b],
                        tolerance.distance as int,
                    ),
            decreases n - j,
        {
            if !do_faces_fit(&faces[i], &faces[j], tolerance) {
                return Some((i, j));
            }
            j += 1;
        }
        i += 1;
    }
    None
}

/// Faces have one first inconsistent join, and have none where every two of
/// them are joined consistently.
pub proof fn lemma_first_inconsistent_join_unique(
    faces: Seq<Face>,
    tolerance: int,
    first: usize,
    second: usize,
    other_first: usize,
    other_second: usize,
)
    requires
        is_first_inconsistent_join(faces, tolerance, first, second),
    ensures
        !all_joined(faces, tolerance),
        is_first_inconsistent_join(faces, tolerance, other_first, other_second) ==> first
            == other_first && second == other_second,
{
}

} // verus!
