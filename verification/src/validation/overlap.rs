//! The second check: no two cycles of one face overlap.

use vstd::prelude::*;
use crate::math::scalar::Tolerance;
use crate::math::transform::Axis;
use crate::objects::edge::{Cycle, Edge};
use crate::objects::face::Face;
use crate::validation::closure::CycleId;
use crate::validation::flat::{do_edges_meet, edges_meet};

verus! {

/// Whether two cycles are apart: no edge of the one meets an edge of the
/// other.
pub open spec fn cycles_apart(one: Seq<Edge>, other: Seq<Edge>, axis: Axis, tolerance: int) -> bool {
    forall|a: int, b: int|
        0 <= a < one.len() && 0 <= b < other.len() ==> !#[trigger] edges_meet(
            one[a],
            other[b],
            axis,
            tolerance,
        )
}

/// Whether the pair `(a, b)` comes before the pair `(i, j)`.
pub open spec fn pair_before(a: int, b: int, i: int, j: int) -> bool {
    a < i || (a == i && b < j)
}

/// Whether `found` names the first two of the cycles that overlap, or says
/// rightly that no two of them do.
pub open spec fn is_first_overlap_within(
    cycles: Seq<Cycle>,
    axis: Axis,
    tolerance: int,
    found: Option<(int, int)>,
) -> bool {
    match found {
        Some((i, j)) => {
            &&& 0 <= i < j < cycles.len()
            &&& !cycles_apart(cycles[i].edges@, cycles[j].edges@, axis, tolerance)
            &&& forall|a: int, b: int|
                0 <= a < b < cycles.len() && pair_before(a, b, i, j) ==> #[trigger] cycles_apart(
                    cycles[a].edges@,
                    cycles[b].edges@,
                    axis,
                    tolerance,
                )
        },
        None => forall|a: int, b: int|
            0 <= a < b < cycles.len() ==> #[trigger] cycles_apart(
                cycles[a].edges@,
                cycles[b].edges@,
                axis,
                tolerance,
            ),
    }
}

/// Whether `found` names the first cycle of `one` and cycle of `other` that
/// overlap, or says rightly that no such two do.
pub open spec fn is_first_overlap_between(
    one: Seq<Cycle>,
    other: Seq<Cycle>,
    axis: Axis,
    tolerance: int,
    found: Option<(int, int)>,
) -> bool {
    match found {
        Some((i, j)) => {
            &&& 0 <= i < one.len()
            &&& 0 <= j < other.len()
            &&& !cycles_apart(one[i].edges@, other[j].edges@, axis, tolerance)
            &&& forall|a: int, b: int|
                0 <= a < one.len() && 0 <= b < other.len() && pair_before(a, b, i, j)
                    ==> #[trigger] cycles_apart(one[a].edges@, other[b].edges@, axis, tolerance)
        },
        None => forall|a: int, b: int|
            0 <= a < one.len() && 0 <= b < other.len() ==> #[trigger] cycles_apart(
                one[a].edges@,
                other[b].edges@,
                axis,
                tolerance,
            ),
    }
}

/// Whether `found` names the first two cycles of the face that overlap, or
/// says rightly that no two do. Pairs of exterior cycles come first, then
/// pairs of an exterior and an interior cycle, then pairs of interior
/// cycles. Edges are compared in the plane of the face, flattened; on a
/// surface that is no plane, and in a face of triangles, nothing is compared
/// and nothing found.
pub open spec fn is_first_overlap_of_face(
    face: Face,
    tolerance: int,
    found: Option<(CycleId, CycleId)>,
) -> bool {
    match face {
        Face::Face(brep) => match brep.surface.spec_flattening_axis() {
            Some(axis) => match found {
                Some((CycleId::Exterior(i), CycleId::Exterior(j))) => is_first_overlap_within(
                    brep.exteriors@,
                    axis,
                    tolerance,
                    Some((i as int, j as int)),
                ),
                Some((CycleId::Exterior(i), CycleId::Interior(j))) => {
                    &&& is_first_overlap_within(brep.exteriors@, axis, tolerance, None)
                    &&& is_first_overlap_between(
                        brep.exteriors@,
                        brep.interiors@,
                        axis,
                        tolerance,
                        Some((i as int, j as int)),
                    )
                },
                Some((CycleId::Interior(i), CycleId::Interior(j))) => {
                    &&& is_first_overlap_within(brep.exteriors@, axis, tolerance, None)
                    &&& is_first_overlap_between(
                        brep.exteriors@,
                        brep.interiors@,
                        axis,
                        tolerance,
                        None,
                    )
                    &&& is_first_overlap_within(
                        brep.interiors@,
                        axis,
                        tolerance,
                        Some((i as int, j as int)),
                    )
                },
                Some((CycleId::Interior(_), CycleId::Exterior(_))) => false,
                None => {
                    &&& is_first_overlap_within(brep.exteriors@, axis, tolerance, None)
                    &&& is_first_overlap_between(
                        brep.exteriors@,
                        brep.interiors@,
                        axis,
                        tolerance,
                        None,
                    )
                    &&& is_first_overlap_within(brep.interiors@, axis, tolerance, None)
                },
            },
            None => found is None,
        },
        Face::Triangles(_) => found is None,
    }
}

/// Whether no two cycles of any one of the faces overlap.
pub open spec fn all_disjoint(faces: Seq<Face>, tolerance: int) -> bool {
    forall|f: int|
        0 <= f < faces.len() ==> is_first_overlap_of_face(#[trigger] faces[f], tolerance, None)
}

/// Whether the first overlap of the faces is the one of the cycles `first`
/// and `second` of the face `face`.
pub open spec fn is_first_overlapping_cycles(
    faces: Seq<Face>,
    tolerance: int,
    face: usize,
    first: CycleId,
    second: CycleId,
) -> bool {
    &&& face < faces.len()
    &&& forall|f: int|
        0 <= f < face ==> is_first_overlap_of_face(#[trigger] faces[f], tolerance, None)
    &&& is_first_overlap_of_face(faces[face as int], tolerance, Some((first, second)))
}

/// Whether two cycles are apart in the plane flattened along `axis`.
pub fn are_cycles_apart(one: &Cycle, other: &Cycle, axis: Axis, tolerance: &Tolerance) -> (r: bool)
    ensures
        r == cycles_apart(one.edges@, other.edges@, axis, tolerance.distance as int),
{
    let mut a: usize = 0;
    while a < one.edges.len()
        invariant
            a <= one.edges@.len(),
            forall|x: int, y: int|
                0 <= x < a && 0 <= y < other.edges@.len() ==> !#[trigger] edges_meet(
                    one.edges@[x],
                    other.edges@[y],
                    axis,
                    tolerance.distance as int,
                ),
        decreases one.edges@.len() - a,
    {
        let mut b: usize = 0;
        while b < other.edges.len()
            invariant
                a < one.edges@.len(),
                b <= other.edges@.len(),
                forall|x: int, y: int|
                    0 <= x < one.edges@.len() && 0 <= y < other.edges@.len() && pair_before(
                        x,
                        y,
                        a as int,
                        b as int,
                    ) ==> !#[trigger] edges_meet(
                        one.edges@[x],
                        other.edges@[y],
                        axis,
                        tolerance.distance as int,
                    ),
            decreases other.edges@.len() - b,
        {
            if do_edges_meet(&one.edges[a], &other.edges[b], axis, tolerance) {
                return false;
            }
            b += 1;
        }
        a += 1;
    }
    true
}

/// The first two of the cycles that overlap.
pub fn first_overlap_within(cycles: &Vec<Cycle>, axis: Axis, tolerance: &Tolerance) -> (r: Option<
    (usize, usize),
>)
    ensures
        is_first_overlap_within(
            cycles@,
            axis,
            tolerance.distance as int,
            match r {
                Some((i, j)) => Some((i as int, j as int)),
                None => None,
            },
        ),
{
    let n = cycles.len();
    let mut i: usize = 0;
    while i < n
        invariant
            n == cycles@.len(),
            i <= n,
            forall|a: int, b: int|
                0 <= a < b < n && a < i ==> #[trigger] cycles_apart(
                    cycles@[a].edges@,
                    cycles@[b].edges@,
                    axis,
                    tolerance.distance as int,
                ),
        decreases n - i,
    {
        let mut j: usize = i + 1;
        while j < n
            invariant
                n == cycles@.len(),
                i < j <= n,
                forall|a: int, b: int|
                    0 <= a < b < n && pair_before(a, b, i as int, j as int)
                        ==> #[trigger] cycles_apart(
                        cycles@[a].edges@,
                        cycles@[b].edges@,
                        axis,
                        tolerance.distance as int,
                    ),
            decreases n - j,
        {
            if !are_cycles_apart(&cycles[i], &cycles[j], axis, tolerance) {
                return Some((i, j));
            }
            j += 1;
        }
        i += 1;
    }
    None
}

/// The first cycle of `one` and cycle of `other` that overlap.
pub fn first_overlap_between(
    one: &Vec<Cycle>,
    other: &Vec<Cycle>,
    axis: Axis,
    tolerance: &Tolerance,
) -> (r: Option<(usize, usize)>)
    ensures
        is_first_overlap_between(
            one@,
            other@,
            axis,
            tolerance.distance as int,
            match r {
                Some((i, j)) => Some((i as int, j as int)),
                None => None,
            },
        ),
{
    let mut i: usize = 0;
    while i < one.len()
        invariant
            i <= one@.len(),
            forall|a: int, b: int|
                0 <= a < i && 0 <= b < other@.len() ==> #[trigger] cycles_apart(
                    one@[a].edges@,
                    other@[b].edges@,
                    axis,
                    tolerance.distance as int,
                ),
        decreases one@.len() - i,
    {
        let mut j: usize = 0;
        while j < other.len()
            invariant
                i < one@.len(),
                j <= other@.len(),
                forall|a: int, b: int|
                    0 <= a < one@.len() && 0 <= b < other@.len() && pair_before(
                        a,
                        b,
                        i as int,
                        j as int,
                    ) ==> #[trigger] cycles_apart(
                        one@[a].edges@,
                        other@[b].edges@,
                        axis,
                        tolerance.distance as int,
                    ),
            decreases other@.len() - j,
        {
            if !are_cycles_apart(&one[i], &other[j], axis, tolerance) {
                return Some((i, j));
            }
            j += 1;
        }
        i += 1;
    }
    None
}

impl Face {
    /// The first two cycles of the face that overlap, if any do.
    pub fn first_overlap(&self, tolerance: &Tolerance) -> (r: Option<(CycleId, CycleId)>)
        ensures
            is_first_overlap_of_face(*self, tolerance.distance as int, r),
    {
        match self {
            Face::Face(brep) => match brep.surface.flattening_axis() {
                Some(axis) => {
                    match first_overlap_within(&brep.exteriors, axis, tolerance) {
                        Some((i, j)) => {
                            return Some((CycleId::Exterior(i), CycleId::Exterior(j)));
                        },
                        None => {},
                    }
                    match first_overlap_between(&brep.exteriors, &brep.interiors, axis, tolerance) {
                        Some((i, j)) => {
                            return Some((CycleId::Exterior(i), CycleId::Interior(j)));
                        },
                        None => {},
                    }
                    match first_overlap_within(&brep.interiors, axis, tolerance) {
                        Some((i, j)) => Some((CycleId::Interior(i), CycleId::Interior(j))),
                        None => None,
                    }
                },
                None => None,
            },
            Face::Triangles(_) => None,
        }
    }
}

/// The first overlap of the faces: the face and the two cycles of it that
/// overlap.
pub fn first_overlapping_cycles(faces: &Vec<Face>, tolerance: &Tolerance) -> (r: Option<
    (usize, CycleId, CycleId),
>)
    ensures
        match r {
            Some((face, first, second)) => is_first_overlapping_cycles(
                faces@,
                tolerance.distance as int,
                face,
                first,
                second,
            ),
            None => all_disjoint(faces@, tolerance.distance as int),
        },
{
    let mut f: usize = 0;
    while f < faces.len()
        invariant
            f <= faces@.len(),
            forall|g: int|
                0 <= g < f ==> is_first_overlap_of_face(
                    #[trigger] faces@[g],
                    tolerance.distance as int,
                    None,
                ),
        decreases faces@.len() - f,
    {
        match faces[f].first_overlap(tolerance) {
            Some((first, second)) => {
                return Some((f, first, second));
            },
            None => {},
        }
        f += 1;
    }
    None
}

/// A face has one first overlap, or none.
pub proof fn lemma_first_overlap_of_face_unique(
    face: Face,
    tolerance: int,
    one: Option<(CycleId, CycleId)>,
    other: Option<(CycleId, CycleId)>,
)
    requires
        is_first_overlap_of_face(face, tolerance, one),
        is_first_overlap_of_face(face, tolerance, other),
    ensures
        one == other,
{
}

/// Faces have one first overlap, and have none where no two cycles of a face
/// overlap.
pub proof fn lemma_first_overlapping_cycles_unique(
    faces: Seq<Face>,
    tolerance: int,
    face: usize,
    first: CycleId,
    second: CycleId,
    other_face: usize,
    other_first: CycleId,
    other_second: CycleId,
)
    requires
        is_first_overlapping_cycles(faces, tolerance, face, first, second),
    ensures
        !all_disjoint(faces, tolerance),
        is_first_overlapping_cycles(faces, tolerance, other_face, other_first, other_second)
            ==> face == other_face && first == other_first && second == other_second,
{
    if all_disjoint(faces, tolerance) {
        lemma_first_overlap_of_face_unique(
            faces[face as int],
            tolerance,
            Some((first, second)),
            None,
        );
    }
    if is_first_overlapping_cycles(faces, tolerance, other_face, other_first, other_second) {
        if face < other_face {
        } else if other_face < face {
            lemma_first_overlap_of_face_unique(
                faces[other_face as int],
                tolerance,
                Some((other_first, other_second)),
                None,
            );
        } else {
            lemma_first_overlap_of_face_unique(
                faces[face as int],
                tolerance,
                Some((first, second)),
                Some((other_first, other_second)),
            );
        }
    }
}

} // verus!
