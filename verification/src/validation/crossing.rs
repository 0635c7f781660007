//! The fourth check: no cycle crosses itself.

use vstd::prelude::*;
use crate::math::scalar::Tolerance;
use crate::math::transform::Axis;
use crate::objects::edge::{Cycle, Edge};
use crate::objects::face::Face;
use crate::validation::closure::CycleId;
use crate::validation::flat::{do_edges_cross, edges_cross};

verus! {

/// Whether no two edges of the cycle cross.
pub open spec fn cycle_simple(edges: Seq<Edge>, axis: Axis, tolerance: int) -> bool {
    forall|a: int, b: int|
        0 <= a < b < edges.len() ==> !#[trigger] edges_cross(edges[a], edges[b], axis, tolerance)
}

/// Whether `found` names the first two edges of the cycle that cross, or
/// says rightly that none do. Of two pairs, the one whose first edge comes
/// first is the first; of two pairs with one first edge, the one whose second
/// edge comes first.
pub open spec fn is_first_crossing(
    edges: Seq<Edge>,
    axis: Axis,
    tolerance: int,
    found: Option<(int, int)>,
) -> bool {
    match found {
        Some((i, j)) => {
            &&& 0 <= i < j < edges.len()
            &&& edges_cross(edges[i], edges[j], axis, tolerance)
            &&& forall|a: int, b: int|
                0 <= a < b < edges.len() && (a < i || (a == i && b < j)) ==> !#[trigger] edges_cross(
                    edges[a],
                    edges[b],
                    axis,
                    tolerance,
                )
        },
        None => cycle_simple(edges, axis, tolerance),
    }
}

/// Whether `found` names the first crossing in the first of the cycles that
/// crosses itself, or says rightly that none of them does.
pub open spec fn is_first_crossing_among(
    cycles: Seq<Cycle>,
    axis: Axis,
    tolerance: int,
    found: Option<(int, int, int)>,
) -> bool {
    match found {
        Some((c, i, j)) => {
            &&& 0 <= c < cycles.len()
            &&& forall|k: int|
                0 <= k < c ==> cycle_simple((#[trigger] cycles[k]).edges@, axis, tolerance)
            &&& is_first_crossing(cycles[c].edges@, axis, tolerance, Some((i, j)))
        },
        None => forall|k: int|
            0 <= k < cycles.len() ==> cycle_simple((#[trigger] cycles[k]).edges@, axis, tolerance),
    }
}

/// Whether `found` names the first crossing of the face, its exterior cycles
/// coming before its interior cycles, or says rightly that no cycle of the
/// face crosses itself. Edges are compared in the plane of the face,
/// flattened; on a surface that is no plane, and in a face of triangles,
/// nothing is compared and nothing found.
pub open spec fn is_first_crossing_of_face(
    face: Face,
    tolerance: int,
    found: Option<(CycleId, usize, usize)>,
) -> bool {
    match face {
        Face::Face(brep) => match brep.surface.spec_flattening_axis() {
            Some(axis) => match found {
                Some((CycleId::Exterior(c), i, j)) => is_first_crossing_among(
                    brep.exteriors@,
                    axis,
                    tolerance,
                    Some((c as int, i as int, j as int)),
                ),
                Some((CycleId::Interior(c), i, j)) => {
                    &&& is_first_crossing_among(brep.exteriors@, axis, tolerance, None)
                    &&& is_first_crossing_among(
                        brep.interiors@,
                        axis,
                        tolerance,
                        Some((c as int, i as int, j as int)),
                    )
                },
                None => {
                    &&& is_first_crossing_among(brep.exteriors@, axis, tolerance, None)
                    &&& is_first_crossing_among(brep.interiors@, axis, tolerance, None)
                },
            },
            None => found is None,
        },
        Face::Triangles(_) => found is None,
    }
}

/// Whether no cycle of any of the faces crosses itself.
pub open spec fn all_simple(faces: Seq<Face>, tolerance: int) -> bool {
    forall|f: int|
        0 <= f < faces.len() ==> is_first_crossing_of_face(#[trigger] faces[f], tolerance, None)
}

/// Whether the first crossing of the faces is the one of the edges `first`
/// and `second` of the cycle `cycle` of the face `face`.
pub open spec fn is_first_self_intersection(
    faces: Seq<Face>,
    tolerance: int,
    face: usize,
    cycle: CycleId,
    first: usize,
    second: usize,
) -> bool {
    &&& face < faces.len()
    &&& forall|f: int|
        0 <= f < face ==> is_first_crossing_of_face(#[trigger] faces[f], tolerance, None)
    &&& is_first_crossing_of_face(faces[face as int], tolerance, Some((cycle, first, second)))
}

impl Cycle {
    /// The first two edges of the cycle that cross in the plane flattened
    /// along `axis`, if any do.
    pub fn first_crossing(&self, axis: Axis, tolerance: &Tolerance) -> (r: Option<(usize, usize)>)
        ensures
            is_first_crossing(
                self.edges@,
                axis,
                tolerance.distance as int,
                match r {
                    Some((i, j)) => Some((i as int, j as int)),
                    None => None,
                },
            ),
    {
        let n = self.edges.len();
        let mut i: usize = 0;
        while i < n
            invariant
                n == self.edges@.len(),
                i <= n,
                forall|a: int, b: int|
                    0 <= a < b < n && a < i ==> !#[trigger] edges_cross(
                        self.edges@[a],
                        self.edges@[b],
                        axis,
                        tolerance.distance as int,
                    ),
            decreases n - i,
        {
            let mut j: usize = i + 1;
            while j < n
                invariant
                    n == self.edges@.len(),
                    i < j <= n,
                    forall|a: int, b: int|
                        0 <= a < b < n && (a < i || (a == i && b < j)) ==> !#[trigger] edges_cross(
                            self.edges@[a],
                            self.edges@[b],
                            axis,
                            tolerance.distance as int,
                        ),
                decreases n - j,
            {
                if do_edges_cross(&self.edges[i], &self.edges[j], axis, tolerance) {
                    return Some((i, j));
                }
                j += 1;
            }
            i += 1;
        }
        None
    }
}

/// The first crossing among the cycles: the number of the first cycle that
/// crosses itself, and of the first two edges of it that cross.
pub fn first_crossing_among(cycles: &Vec<Cycle>, axis: Axis, tolerance: &Tolerance) -> (r: Option<
    (usize, usize, usize),
>)
    ensures
        is_first_crossing_among(
            cycles@,
            axis,
            tolerance.distance as int,
            match r {
                Some((c, i, j)) => Some((c as int, i as int, j as int)),
                None => None,
            },
        ),
{
    let mut c: usize = 0;
    while c < cycles.len()
        invariant
            c <= cycles@.len(),
            forall|k: int|
                0 <= k < c ==> cycle_simple(
                    (#[trigger] cycles@[k]).edges@,
                    axis,
                    tolerance.distance as int,
                ),
        decreases cycles@.len() - c,
    {
        match cycles[c].first_crossing(axis, tolerance) {
            Some((i, j)) => {
                return Some((c, i, j));
            },
            None => {},
        }
        c += 1;
    }
    None
}

impl Face {
    /// The first crossing of the face, if one of its cycles crosses itself.
    pub fn first_crossing(&self, tolerance: &Tolerance) -> (r: Option<(CycleId, usize, usize)>)
        ensures
            is_first_crossing_of_face(*self, tolerance.distance as int, r),
    {
        match self {
            Face::Face(brep) => match brep.surface.flattening_axis() {
                Some(axis) => match first_crossing_among(&brep.exteriors, axis, tolerance) {
                    Some((c, i, j)) => Some((CycleId::Exterior(c), i, j)),
                    None => match first_crossing_among(&brep.interiors, axis, tolerance) {
                        Some((c, i, j)) => Some((CycleId::Interior(c), i, j)),
                        None => None,
                    },
                },
                None => None,
            },
            Face::Triangles(_) => None,
        }
    }
}

/// The first crossing of the faces: the face, the cycle of it and the two
/// edges of that cycle that cross.
pub fn first_self_intersection(faces: &Vec<Face>, tolerance: &Tolerance) -> (r: Option<
    (usize, CycleId, usize, usize),
>)
    ensures
        match r {
            Some((face, cycle, first, second)) => is_first_self_intersection(
                faces@,
                tolerance.distance as int,
                face,
                cycle,
                first,
                second,
            ),
            None => all_simple(faces@, tolerance.distance as int),
        },
{
    let mut f: usize = 0;
    while f < faces.len()
        invariant
            f <= faces@.len(),
            forall|g: int|
                0 <= g < f ==> is_first_crossing_of_face(
                    #[trigger] faces@[g],
                    tolerance.distance as int,
                    None,
                ),
        decreases faces@.len() - f,
    {
        match faces[f].first_crossing(tolerance) {
            Some((cycle, first, second)) => {
                return Some((f, cycle, first, second));
            },
            None => {},
        }
        f += 1;
    }
    None
}

/// A face has one first crossing, or none.
pub proof fn lemma_first_crossing_of_face_unique(
    face: Face,
    tolerance: int,
    one: Option<(CycleId, usize, usize)>,
    other: Option<(CycleId, usize, usize)>,
)
    requires
        is_first_crossing_of_face(face, tolerance, one),
        is_first_crossing_of_face(face, tolerance, other),
    ensures
        one == other,
{
}

/// Faces have one first crossing, and have none where none of their cycles
/// crosses itself.
pub proof fn lemma_first_self_intersection_unique(
    faces: Seq<Face>,
    tolerance: int,
    face: usize,
    cycle: CycleId,
    first: usize,
    second: usize,
    other_face: usize,
    other_cycle: CycleId,
    other_first: usize,
    other_second: usize,
)
    requires
        is_first_self_intersection(faces, tolerance, face, cycle, first, second),
    ensures
        !all_simple(faces, tolerance),
        is_first_self_intersection(
            faces,
            tolerance,
            other_face,
            other_cycle,
            other_first,
            other_second,
        ) ==> face == other_face && cycle == other_cycle && first == other_first && second
            == other_second,
{
    if all_simple(faces, tolerance) {
        lemma_first_crossing_of_face_unique(
            faces[face as int],
            tolerance,
            Some((cycle, first, second)),
            None,
        );
    }
    if is_first_self_intersection(
        faces,
        tolerance,
        other_face,
        other_cycle,
        other_first,
        other_second,
    ) {
        if face < other_face {
        } else if other_face < face {
            lemma_first_crossing_of_face_unique(
                faces[other_face as int],
                tolerance,
                Some((other_cycle, other_first, other_second)),
                None,
            );
        } else {
            lemma_first_crossing_of_face_unique(
                faces[face as int],
                tolerance,
                Some((cycle, first, second)),
                Some((other_cycle, other_first, other_second)),
            );
        }
    }
}

} // verus!
