//! The first check: every cycle is closed.

use vstd::prelude::*;
use crate::math::scalar::Tolerance;
use crate::objects::edge::{Cycle, Edge};
use crate::objects::face::Face;

verus! {

/// One of the cycles of a face.
#[derive(Clone, Copy, Debug, PartialEq, Eq, Structural)]
pub enum CycleId {
    /// The exterior cycle with the given number.
    Exterior(usize),
    /// The interior cycle with the given number.
    Interior(usize),
}

/// Whether the cycle has a gap behind its edge `i`: the edge does not end
/// where the next edge starts, the first edge being next to the last. An
/// edge without vertices closes on itself, and leaves no gap only where it is
/// the one edge of its cycle.
pub open spec fn gap_after(edges: Seq<Edge>, i: int, tolerance: int) -> bool {
    let next = if i + 1 < edges.len() {
        i + 1
    } else {
        0
    };
    match (edges[i].spec_end(), edges[next].spec_start()) {
        (Some(end), Some(start)) => !end@.close_to(start@, tolerance),
        (None, None) => edges.len() != 1,
        _ => true,
    }
}

/// Whether the cycle is closed: it has no gap.
pub open spec fn cycle_closed(edges: Seq<Edge>, tolerance: int) -> bool {
    forall|i: int| 0 <= i < edges.len() ==> !gap_after(edges, i, tolerance)
}

/// Whether `found` names the first gap of the cycle, or says rightly that it
/// has none.
pub open spec fn is_first_gap(edges: Seq<Edge>, tolerance: int, found: Option<int>) -> bool {
    match found {
        Some(i) => {
            &&& 0 <= i < edges.len()
            &&& gap_after(edges, i, tolerance)
            &&& forall|j: int| 0 <= j < i ==> !gap_after(edges, j, tolerance)
        },
        None => cycle_closed(edges, tolerance),
    }
}

/// Whether `found` names the first gap in the first of the cycles that is
/// not closed, or says rightly that all of them are closed.
pub open spec fn is_first_gap_among(
    cycles: Seq<Cycle>,
    tolerance: int,
    found: Option<(int, int)>,
) -> bool {
    match found {
        Some((c, e)) => {
            &&& 0 <= c < cycles.len()
            &&& forall|k: int| 0 <= k < c ==> cycle_closed((#[trigger] cycles[k]).edges@, tolerance)
            &&& is_first_gap(cycles[c].edges@, tolerance, Some(e))
        },
        None => forall|k: int|
            0 <= k < cycles.len() ==> cycle_closed((#[trigger] cycles[k]).edges@, tolerance),
    }
}

/// Whether `found` names the first gap of the face, its exterior cycles
/// coming before its interior cycles, or says rightly that every cycle of
/// the face is closed. A face of triangles has no cycle and no gap.
pub open spec fn is_first_gap_of_face(
    face: Face,
    tolerance: int,
    found: Option<(CycleId, usize)>,
) -> bool {
    match face {
        Face::Face(brep) => match found {
            Some((CycleId::Exterior(c), e)) => is_first_gap_among(
                brep.exteriors@,
                tolerance,
                Some((c as int, e as int)),
            ),
            Some((CycleId::Interior(c), e)) => {
                &&& is_first_gap_among(brep.exteriors@, tolerance, None)
                &&& is_first_gap_among(brep.interiors@, tolerance, Some((c as int, e as int)))
            },
            None => {
                &&& is_first_gap_among(brep.exteriors@, tolerance, None)
                &&& is_first_gap_among(brep.interiors@, tolerance, None)
            },
        },
        Face::Triangles(_) => found is None,
    }
}

/// Whether every cycle of every one of the faces is closed.
pub open spec fn all_closed(faces: Seq<Face>, tolerance: int) -> bool {
    forall|f: int| 0 <= f < faces.len() ==> is_first_gap_of_face(#[trigger] faces[f], tolerance, None)
}

/// Whether the first gap of the faces is the one behind the edge `edge` of
/// the cycle `cycle` of the face `face`.
pub open spec fn is_first_open_cycle(
    faces: Seq<Face>,
    tolerance: int,
    face: usize,
    cycle: CycleId,
    edge: usize,
) -> bool {
    &&& face < faces.len()
    &&& forall|f: int| 0 <= f < face ==> is_first_gap_of_face(#[trigger] faces[f], tolerance, None)
    &&& is_first_gap_of_face(faces[face as int], tolerance, Some((cycle, edge)))
}

impl Cycle {
    /// The first edge of the cycle that leaves a gap behind it, if the cycle
    /// is not closed.
    pub fn first_gap(&self, tolerance: &Tolerance) -> (r: Option<usize>)
        ensures
            is_first_gap(
                self.edges@,
                tolerance.distance as int,
                match r {
                    Some(i) => Some(i as int),
                    None => None,
                },
            ),
    {
        let n = self.edges.len();
        let mut i: usize = 0;
        while i < n
            invariant
                n == self.edges@.len(),
                i <= n,
                forall|j: int| 0 <= j < i ==> !gap_after(self.edges@, j, tolerance.distance as int),
            decreases n - i,
        {
            let next: usize = if i + 1 < n {
                i + 1
            } else {
                0
            };
            let gap = match (self.edges[i].end(), self.edges[next].start()) {
                (Some(end), Some(start)) => !end.coincides_with(&start, tolerance),
                (None, None) => n != 1,
                _ => true,
            };
            if gap {
                return Some(i);
            }
            i += 1;
        }
        None
    }
}

/// The first gap among the cycles: the number of the first cycle that is not
/// closed, and of the first edge of it that leaves a gap behind it.
pub fn first_gap_among(cycles: &Vec<Cycle>, tolerance: &Tolerance) -> (r: Option<(usize, usize)>)
    ensures
        is_first_gap_among(
            cycles@,
            tolerance.distance as int,
            match r {
                Some((c, e)) => Some((c as int, e as int)),
                None => None,
            },
        ),
{
    let mut c: usize = 0;
    while c < cycles.len()
        invariant
            c <= cycles@.len(),
            forall|k: int|
                0 <= k < c ==> cycle_closed((#[trigger] cycles@[k]).edges@, tolerance.distance as int),
        decreases cycles@.len() - c,
    {
        match cycles[c].first_gap(tolerance) {
            Some(e) => {
                return Some((c, e));
            },
            None => {},
        }
        c += 1;
    }
    None
}

impl Face {
    /// The first gap of the face, if one of its cycles is not closed.
    pub fn first_gap(&self, tolerance: &Tolerance) -> (r: Option<(CycleId, usize)>)
        ensures
            is_first_gap_of_face(*self, tolerance.distance as int, r),
    {
        match self {
            Face::Face(brep) => {
                match first_gap_among(&brep.exteriors, tolerance) {
                    Some((c, e)) => Some((CycleId::Exterior(c), e)),
                    None => match first_gap_among(&brep.interiors, tolerance) {
                        Some((c, e)) => Some((CycleId::Interior(c), e)),
                        None => None,
                    },
                }
            },
            Face::Triangles(_) => None,
        }
    }
}

/// The first gap of the faces: the face, the cycle of it and the edge of
/// that cycle behind which it lies.
pub fn first_open_cycle(faces: &Vec<Face>, tolerance: &Tolerance) -> (r: Option<
    (usize, CycleId, usize),
>)
    ensures
        match r {
            Some((face, cycle, edge)) => is_first_open_cycle(
                faces@,
                tolerance.distance as int,
                face,
                cycle,
                edge,
            ),
            None => all_closed(faces@, tolerance.distance as int),
        },
{
    let mut f: usize = 0;
    while f < faces.len()
        invariant
            f <= faces@.len(),
            forall|g: int|
                0 <= g < f ==> is_first_gap_of_face(
                    #[trigger] faces@[g],
                    tolerance.distance as int,
                    None,
                ),
        decreases faces@.len() - f,
    {
        match faces[f].first_gap(tolerance) {
            Some((cycle, edge)) => {
                return Some((f, cycle, edge));
            },
            None => {},
        }
        f += 1;
    }
    None
}

/// A face has one first gap, or none.
pub proof fn lemma_first_gap_of_face_unique(
    face: Face,
    tolerance: int,
    one: Option<(CycleId, usize)>,
    other: Option<(CycleId, usize)>,
)
    requires
        is_first_gap_of_face(face, tolerance, one),
        is_first_gap_of_face(face, tolerance, other),
    ensures
        one == other,
{
}

/// Faces have one first gap, and have none where all their cycles are
/// closed.
pub proof fn lemma_first_open_cycle_unique(
    faces: Seq<Face>,
    tolerance: int,
    face: usize,
    cycle: CycleId,
    edge: usize,
    other_face: usize,
    other_cycle: CycleId,
    other_edge: usize,
)
    requires
        is_first_open_cycle(faces, tolerance, face, cycle, edge),
    ensures
        !all_closed(faces, tolerance),
        is_first_open_cycle(faces, tolerance, other_face, other_cycle, other_edge) ==> face
            == other_face && cycle == other_cycle && edge == other_edge,
{
    if all_closed(faces, tolerance) {
        lemma_first_gap_of_face_unique(faces[face as int], tolerance, Some((cycle, edge)), None);
    }
    if is_first_open_cycle(faces, tolerance, other_face, other_cycle, other_edge) {
        if face < other_face {
            lemma_first_gap_of_face_unique(
                faces[face as int],
                tolerance,
                Some((cycle, edge)),
                None,
            );
        } else if other_face < face {
            lemma_first_gap_of_face_unique(
                faces[other_face as int],
                tolerance,
                Some((other_cycle, other_edge)),
                None,
            );
        } else {
            lemma_first_gap_of_face_unique(
                faces[face as int],
                tolerance,
                Some((cycle, edge)),
                Some((other_cycle, other_edge)),
            );
        }
    }
}

} // verus!
