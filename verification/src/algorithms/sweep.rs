//! Sweeping a sketch along a path into a solid.

use vstd::prelude::*;
use crate::algorithms::transform::{
    all_map_to, all_transformable, transform_cycles, transform_triangles, triangles_map_to,
    TransformObject,
};
use crate::geometry::curve::{Curve, Line};
use crate::geometry::surface::{Surface, SweptCurve};
use crate::math::point::{Point, Vector};
use crate::math::scalar::Tolerance;
use crate::math::point::lemma_close_exact;
use crate::math::space::{lemma_translation_apply, Affine, Vec3};
use crate::validation::closure::{cycle_closed, gap_after};
use crate::math::transform::Transform;
use crate::objects::edge::{Cycle, Edge};
use crate::objects::face::{Color, Face, FaceBRep, Triangle};
use crate::objects::shape::{Sketch, Solid};
use crate::objects::vertex::{GlobalVertex, Vertex};
use crate::validation::Validated;

verus! {

/// Why a sketch could not be swept.
#[derive(Clone, Copy, Debug, PartialEq, Eq, Structural)]
pub enum SweepError {
    /// The path is no longer than the tolerance: the solid would be flat.
    DegeneratePath,
    /// The sketch, moved along the path, has coordinates that cannot be
    /// stored.
    OutOfRange,
}

/// The edge, running the other way along its curve.
pub open spec fn flipped(edge: Edge) -> Edge {
    Edge { reverse: !edge.reverse, ..edge }
}

/// The edges of a cycle that runs the other way round: the same edges in
/// reverse order, each running the other way.
pub open spec fn spec_reversed(edges: Seq<Edge>) -> Seq<Edge> {
    Seq::new(edges.len(), |i: int| flipped(edges[edges.len() - 1 - i]))
}

/// Whether `out` holds, place by place, the cycles running the other way
/// round.
pub open spec fn cycles_reversed(cycles: Seq<Cycle>, out: Seq<Cycle>) -> bool {
    &&& out.len() == cycles.len()
    &&& forall|c: int|
        0 <= c < cycles.len() ==> (#[trigger] out[c]).edges@ == spec_reversed(cycles[c].edges@)
}

/// Whether `bottom` is the lower cap of the solid swept from `face`: the
/// face itself in the given colour, every cycle of it running the other way
/// round, so that the cap faces away from the solid. A face of triangles is
/// its own lower cap.
pub open spec fn is_bottom(face: Face, color: Color, bottom: Face) -> bool {
    match (face, bottom) {
        (Face::Face(a), Face::Face(b)) => {
            &&& b.surface == a.surface
            &&& b.color == color
            &&& cycles_reversed(a.exteriors@, b.exteriors@)
            &&& cycles_reversed(a.interiors@, b.interiors@)
        },
        (Face::Triangles(a), Face::Triangles(b)) => b@ == a@,
        _ => false,
    }
}

/// Whether `top` is the upper cap of the solid swept from `face`: the face
/// moved along the path, in the given colour. The triangles of a face of
/// triangles keep their colours.
pub open spec fn is_top(face: Face, path: Vector, color: Color, top: Face) -> bool {
    let t = Affine::translation(path@);
    match (face, top) {
        (Face::Face(a), Face::Face(b)) => {
            &&& a.surface.maps_to(t, &b.surface)
            &&& all_map_to(a.exteriors@, t, b.exteriors@)
            &&& all_map_to(a.interiors@, t, b.interiors@)
            &&& b.color == color
        },
        (Face::Triangles(a), Face::Triangles(b)) => triangles_map_to(a@, t, b@),
        _ => false,
    }
}

/// Whether `edge` is the straight edge between `from` and `from + path`,
/// running upwards along the path, or downwards where `down` is set.
pub open spec fn is_upright(edge: Edge, from: Point, path: Vector, down: bool) -> bool {
    &&& edge.curve == Curve::Line(Line { origin: from, direction: path })
    &&& edge.reverse == down
    &&& edge.vertices matches Some(vs)
    &&& vs[0] == (Vertex { local: 0, global: GlobalVertex { position: from } })
    &&& vs[1].local == 1
    &&& vs[1].global.position@ == from@.plus(path@)
}

/// Whether `side` is the side face swept from `edge`: the surface that the
/// curve of the edge sweeps along the path, in the given colour and without
/// holes. An edge between two vertices bounds it together with its moved
/// copy, which runs the other way, and the two upright edges that connect
/// them: the cycle of the edge, the upright edge at its end, the moved copy,
/// and the upright edge at its start running downwards. An edge without
/// vertices bounds it together with its moved copy, each as a cycle of its
/// own.
pub open spec fn is_side(edge: Edge, path: Vector, color: Color, side: Face) -> bool {
    let t = Affine::translation(path@);
    &&& side matches Face::Face(b)
    &&& b.surface == Surface::SweptCurve(SweptCurve { curve: edge.curve, path })
    &&& b.color == color
    &&& b.interiors@.len() == 0
    &&& match (edge.spec_start(), edge.spec_end()) {
        (Some(start), Some(end)) => {
            &&& b.exteriors@.len() == 1
            &&& b.exteriors@[0].edges@.len() == 4
            &&& b.exteriors@[0].edges@[0] == edge
            &&& is_upright(b.exteriors@[0].edges@[1], end, path, false)
            &&& edge.maps_to(t, &flipped(b.exteriors@[0].edges@[2]))
            &&& is_upright(b.exteriors@[0].edges@[3], start, path, true)
        },
        _ => {
            &&& b.exteriors@.len() == 2
            &&& b.exteriors@[0].edges@.len() == 1
            &&& b.exteriors@[0].edges@[0] == edge
            &&& b.exteriors@[1].edges@.len() == 1
            &&& edge.maps_to(t, &flipped(b.exteriors@[1].edges@[0]))
        },
    }
}

/// The number of edges in the first `count` of the cycles.
pub open spec fn edge_count(cycles: Seq<Cycle>, count: nat) -> nat
    decreases count,
{
    if count == 0 {
        0
    } else {
        edge_count(cycles, (count - 1) as nat) + cycles[count - 1].edges@.len()
    }
}

/// Whether `out` holds, from the place `from` on, the side faces swept from
/// the edges of the cycles: cycle by cycle, and edge by edge within each.
pub open spec fn sides_cover(
    cycles: Seq<Cycle>,
    path: Vector,
    color: Color,
    out: Seq<Face>,
    from: int,
) -> bool {
    forall|c: int, i: int|
        0 <= c < cycles.len() && 0 <= i < cycles[c].edges@.len() ==> is_side(
            #[trigger] cycles[c].edges@[i],
            path,
            color,
            out[from + edge_count(cycles, c as nat) + i],
        )
}

/// The number of faces that a face is swept into: two caps, and a side face
/// for each edge.
pub open spec fn swept_size(face: Face) -> nat {
    match face {
        Face::Face(brep) => 2 + edge_count(brep.exteriors@, brep.exteriors@.len()) + edge_count(
            brep.interiors@,
            brep.interiors@.len(),
        ),
        Face::Triangles(_) => 2,
    }
}

/// Whether `out` holds, from the place `from` on, the faces swept from
/// `face`: its lower cap, its upper cap, the side faces of its exterior
/// cycles and the side faces of its interior cycles.
#[verifier::opaque]
pub open spec fn is_swept_face(
    face: Face,
    path: Vector,
    color: Color,
    out: Seq<Face>,
    from: int,
) -> bool {
    &&& is_bottom(face, color, out[from])
    &&& is_top(face, path, color, out[from + 1])
    &&& match face {
        Face::Face(brep) => {
            &&& sides_cover(brep.exteriors@, path, color, out, from + 2)
            &&& sides_cover(
                brep.interiors@,
                path,
                color,
                out,
                from + 2 + edge_count(brep.exteriors@, brep.exteriors@.len()),
            )
        },
        Face::Triangles(_) => true,
    }
}

/// The number of faces that the first `count` of the faces are swept into.
pub open spec fn swept_count(faces: Seq<Face>, count: nat) -> nat
    decreases count,
{
    if count == 0 {
        0
    } else {
        swept_count(faces, (count - 1) as nat) + swept_size(faces[count - 1])
    }
}

/// Whether `out` are the faces of the solid swept from the faces of a sketch
/// along the path: face by face, what each face is swept into.
pub open spec fn is_sweep_of(faces: Seq<Face>, path: Vector, color: Color, out: Seq<Face>) -> bool {
    &&& out.len() == swept_count(faces, faces.len())
    &&& forall|f: int|
        0 <= f < faces.len() ==> is_swept_face(
            #[trigger] faces[f],
            path,
            color,
            out,
            swept_count(faces, f as nat) as int,
        )
}

/// The count of edges grows with the count of cycles.
pub proof fn lemma_edge_count_grows(cycles: Seq<Cycle>, fewer: nat, more: nat)
    requires
        fewer <= more,
    ensures
        edge_count(cycles, fewer) <= edge_count(cycles, more),
        fewer < more ==> edge_count(cycles, fewer) + cycles[fewer as int].edges@.len()
            <= edge_count(cycles, more),
    decreases more,
{
    if fewer < more {
        lemma_edge_count_grows(cycles, fewer, (more - 1) as nat);
    }
}

/// The count of swept faces grows with the count of faces.
pub proof fn lemma_swept_count_grows(faces: Seq<Face>, fewer: nat, more: nat)
    requires
        fewer <= more,
    ensures
        swept_count(faces, fewer) <= swept_count(faces, more),
        fewer < more ==> swept_count(faces, fewer) + swept_size(faces[fewer as int])
            <= swept_count(faces, more),
    decreases more,
{
    if fewer < more {
        lemma_swept_count_grows(faces, fewer, (more - 1) as nat);
    }
}

impl Edge {
    /// The edge, running the other way along its curve.
    pub fn flipped(&self) -> (r: Edge)
        ensures
            r == flipped(*self),
    {
        Edge { curve: self.curve, vertices: self.vertices, reverse: !self.reverse }
    }
}

impl Cycle {
    /// The cycle that runs the other way round.
    pub fn reversed(&self) -> (r: Cycle)
        ensures
            r.edges@ == spec_reversed(self.edges@),
    {
        let n = self.edges.len();
        let mut edges: Vec<Edge> = Vec::new();
        let mut i: usize = 0;
        while i < n
            invariant
                n == self.edges@.len(),
                i <= n,
                edges@.len() == i,
                forall|k: int| 0 <= k < i ==> edges@[k] == flipped(self.edges@[n - 1 - k]),
            decreases n - i,
        {
            edges.push(self.edges[n - 1 - i].flipped());
            i += 1;
        }
        assert(edges@ =~= spec_reversed(self.edges@));
        Cycle { edges }
    }
}

/// The cycles, each running the other way round.
pub fn reversed_cycles(cycles: &Vec<Cycle>) -> (r: Vec<Cycle>)
    ensures
        cycles_reversed(cycles@, r@),
{
    let mut out: Vec<Cycle> = Vec::new();
    let mut c: usize = 0;
    while c < cycles.len()
        invariant
            c <= cycles@.len(),
            out@.len() == c,
            forall|k: int|
                0 <= k < c ==> (#[trigger] out@[k]).edges@ == spec_reversed(cycles@[k].edges@),
        decreases cycles@.len() - c,
    {
        out.push(cycles[c].reversed());
        c += 1;
    }
    out
}

/// The same triangles, each with its colour, in a list of their own.
fn copied_triangles(triangles: &Vec<(Triangle, Color)>) -> (r: Vec<(Triangle, Color)>)
    ensures
        r@ == triangles@,
{
    let mut out: Vec<(Triangle, Color)> = Vec::new();
    let mut i: usize = 0;
    while i < triangles.len()
        invariant
            i <= triangles@.len(),
            out@ == triangles@.take(i as int),
        decreases triangles@.len() - i,
    {
        out.push(triangles[i]);
        assert(triangles@.take(i as int + 1) =~= triangles@.take(i as int).push(
            triangles@[i as int],
        ));
        i += 1;
    }
    assert(triangles@.take(triangles@.len() as int) =~= triangles@);
    out
}

/// The lower cap of the solid swept from the face.
pub fn bottom_cap(face: &Face, color: Color) -> (r: Face)
    ensures
        is_bottom(*face, color, r),
{
    match face {
        Face::Face(brep) => Face::Face(
            FaceBRep {
                surface: brep.surface,
                exteriors: reversed_cycles(&brep.exteriors),
                interiors: reversed_cycles(&brep.interiors),
                color,
            },
        ),
        Face::Triangles(triangles) => Face::Triangles(copied_triangles(triangles)),
    }
}

/// The upper cap of the solid swept from the face along the path, if it can
/// be stored.
pub fn top_cap(face: &Face, path: &Vector, color: Color) -> (r: Option<Face>)
    ensures
        match r {
            Some(top) => is_top(*face, *path, color, top),
            None => !face.transformable(Affine::translation(path@)),
        },
{
    let transform = Transform::translation(*path);
    match face {
        Face::Face(brep) => {
            let surface = match brep.surface.transform(&transform) {
                Some(surface) => surface,
                None => {
                    return None;
                },
            };
            let exteriors = match transform_cycles(&brep.exteriors, &transform) {
                Some(cycles) => cycles,
                None => {
                    return None;
                },
            };
            let interiors = match transform_cycles(&brep.interiors, &transform) {
                Some(cycles) => cycles,
                None => {
                    return None;
                },
            };
            Some(Face::Face(FaceBRep { surface, exteriors, interiors, color }))
        },
        Face::Triangles(triangles) => match transform_triangles(triangles, &transform) {
            Some(moved) => Some(Face::Triangles(moved)),
            None => None,
        },
    }
}

/// The upright edge between `from` and `to`, which lies `path` away from it.
fn upright_edge(from: Point, to: Point, path: &Vector, down: bool) -> (r: Edge)
    requires
        to@ == from@.plus(path@),
    ensures
        is_upright(r, from, *path, down),
{
    Edge {
        curve: Curve::Line(Line { origin: from, direction: *path }),
        vertices: Some(
            [
                Vertex { local: 0, global: GlobalVertex { position: from } },
                Vertex { local: 1, global: GlobalVertex { position: to } },
            ],
        ),
        reverse: down,
    }
}

/// The side face swept from the edge along the path, if it can be stored.
pub fn sweep_edge(edge: &Edge, path: &Vector, color: Color) -> (r: Option<Face>)
    ensures
        match r {
            Some(side) => is_side(*edge, *path, color, side),
            None => !edge.transformable(Affine::translation(path@)),
        },
{
    let transform = Transform::translation(*path);
    let moved = match edge.transform(&transform) {
        Some(moved) => moved,
        None => {
            return None;
        },
    };
    let top = moved.flipped();
    let surface = Surface::SweptCurve(SweptCurve { curve: edge.curve, path: *path });
    proof {
        lemma_translation_apply(path@, Vec3::zero());
        assert(top.reverse == !moved.reverse);
        assert(flipped(top) == moved);
    }
    let mut exteriors: Vec<Cycle> = Vec::new();
    match (edge.start(), edge.end(), moved.start(), moved.end()) {
        (Some(start), Some(end), Some(moved_start), Some(moved_end)) => {
            proof {
                lemma_translation_apply(path@, start@);
                lemma_translation_apply(path@, end@);
            }
            let mut edges: Vec<Edge> = Vec::new();
            edges.push(*edge);
            edges.push(upright_edge(end, moved_end, path, false));
            edges.push(top);
            edges.push(upright_edge(start, moved_start, path, true));
            exteriors.push(Cycle { edges });
        },
        _ => {
            let mut lower: Vec<Edge> = Vec::new();
            lower.push(*edge);
            let mut upper: Vec<Edge> = Vec::new();
            upper.push(top);
            exteriors.push(Cycle { edges: lower });
            exteriors.push(Cycle { edges: upper });
        },
    }
    Some(Face::Face(FaceBRep { surface, exteriors, interiors: Vec::new(), color }))
}

/// Appends to `out` the side faces swept from the edges of the cycles, and
/// says whether it did: it does not where one of them cannot be stored.
fn sweep_cycles(cycles: &Vec<Cycle>, path: &Vector, color: Color, out: &mut Vec<Face>) -> (done:
    bool)
    ensures
        done ==> {
            &&& final(out)@.len() == old(out)@.len() + edge_count(cycles@, cycles@.len())
            &&& forall|k: int| 0 <= k < old(out)@.len() ==> final(out)@[k] == old(out)@[k]
            &&& sides_cover(cycles@, *path, color, final(out)@, old(out)@.len() as int)
        },
        !done ==> !all_transformable(cycles@, Affine::translation(path@)),
{
    let ghost before = out@;
    let ghost from = out@.len() as int;
    let mut c: usize = 0;
    while c < cycles.len()
        invariant
            c <= cycles@.len(),
            from == before.len(),
            out@.len() == from + edge_count(cycles@, c as nat),
            forall|k: int| 0 <= k < from ==> out@[k] == before[k],
            forall|x: int, i: int|
                0 <= x < c && 0 <= i < cycles@[x].edges@.len() ==> is_side(
                    #[trigger] cycles@[x].edges@[i],
                    *path,
                    color,
                    out@[from + edge_count(cycles@, x as nat) + i],
                ),
        decreases cycles@.len() - c,
    {
        let mut i: usize = 0;
        while i < cycles[c].edges.len()
            invariant
                c < cycles@.len(),
                i <= cycles@[c as int].edges@.len(),
                from == before.len(),
                out@.len() == from + edge_count(cycles@, c as nat) + i,
                forall|k: int| 0 <= k < from ==> out@[k] == before[k],
                forall|x: int, y: int|
                    0 <= x < c && 0 <= y < cycles@[x].edges@.len() ==> is_side(
                        #[trigger] cycles@[x].edges@[y],
                        *path,
                        color,
                        out@[from + edge_count(cycles@, x as nat) + y],
                    ),
                forall|y: int|
                    0 <= y < i ==> is_side(
                        #[trigger] cycles@[c as int].edges@[y],
                        *path,
                        color,
                        out@[from + edge_count(cycles@, c as nat) + y],
                    ),
            decreases cycles@[c as int].edges@.len() - i,
        {
            let ghost earlier = out@;
            match sweep_edge(&cycles[c].edges[i], path, color) {
                Some(side) => {
                    out.push(side);
                },
                None => {
                    assert(!cycles@[c as int].edges@[i as int].transformable(
                        Affine::translation(path@),
                    ));
                    assert(!cycles@[c as int].transformable(Affine::translation(path@)));
                    return false;
                },
            }
            proof {
                assert forall|x: int, y: int|
                    0 <= x < c && 0 <= y < cycles@[x].edges@.len() implies is_side(
                    #[trigger] cycles@[x].edges@[y],
                    *path,
                    color,
                    out@[from + edge_count(cycles@, x as nat) + y],
                ) by {
                    lemma_edge_count_grows(cycles@, x as nat, c as nat);
                    assert(out@[from + edge_count(cycles@, x as nat) + y] == earlier[from
                        + edge_count(cycles@, x as nat) + y]);
                }
                assert forall|y: int| 0 <= y < i + 1 implies is_side(
                    #[trigger] cycles@[c as int].edges@[y],
                    *path,
                    color,
                    out@[from + edge_count(cycles@, c as nat) + y],
                ) by {
                    if y < i {
                        assert(out@[from + edge_count(cycles@, c as nat) + y] == earlier[from
                            + edge_count(cycles@, c as nat) + y]);
                    }
                }
            }
            i += 1;
        }
        c += 1;
    }
    true
}

/// Appends to `out` the faces swept from the face, and says whether it did:
/// it does not where one of them cannot be stored.
fn sweep_face(face: &Face, path: &Vector, color: Color, out: &mut Vec<Face>) -> (done: bool)
    ensures
        done ==> {
            &&& final(out)@.len() == old(out)@.len() + swept_size(*face)
            &&& forall|k: int| 0 <= k < old(out)@.len() ==> final(out)@[k] == old(out)@[k]
            &&& is_swept_face(*face, *path, color, final(out)@, old(out)@.len() as int)
        },
        !done ==> !face.transformable(Affine::translation(path@)),
{
    reveal(is_swept_face);
    let ghost from = out@.len() as int;
    let top = match top_cap(face, path, color) {
        Some(top) => top,
        None => {
            return false;
        },
    };
    out.push(bottom_cap(face, color));
    out.push(top);
    match face {
        Face::Face(brep) => {
            if !sweep_cycles(&brep.exteriors, path, color, out) {
                return false;
            }
            let ghost middle = out@;
            if !sweep_cycles(&brep.interiors, path, color, out) {
                return false;
            }
            proof {
                let cycles = brep.exteriors@;
                assert forall|c: int, i: int|
                    0 <= c < cycles.len() && 0 <= i < cycles[c].edges@.len() implies is_side(
                    #[trigger] cycles[c].edges@[i],
                    *path,
                    color,
                    out@[from + 2 + edge_count(cycles, c as nat) + i],
                ) by {
                    lemma_edge_count_grows(cycles, c as nat, cycles.len());
                    assert(out@[from + 2 + edge_count(cycles, c as nat) + i] == middle[from + 2
                        + edge_count(cycles, c as nat) + i]);
                }
            }
        },
        Face::Triangles(_) => {},
    }
    true
}

/// Sweeps a validated sketch along a path into a solid.
///
/// Each face of the sketch gives two caps, the face itself turned to face
/// away from the solid and its copy at the end of the path, and one side
/// face for each edge of each of its cycles. All faces get the given colour.
/// A path that is no longer than the tolerance gives no solid.
pub fn sweep(source: &Validated<Sketch>, path: Vector, tolerance: Tolerance, color: Color) -> (r:
    Result<Solid, SweepError>)
    ensures
        match r {
            Ok(solid) => {
                &&& !path@.close_to(Vec3::zero(), tolerance.distance as int)
                &&& is_sweep_of(source.spec_inner().faces@, path, color, solid.faces@)
            },
            Err(SweepError::DegeneratePath) => path@.close_to(Vec3::zero(), tolerance.distance as int),
            Err(SweepError::OutOfRange) => {
                &&& !path@.close_to(Vec3::zero(), tolerance.distance as int)
                &&& !all_transformable(source.spec_inner().faces@, Affine::translation(path@))
            },
        },
{
    let tip = Point { x: path.x, y: path.y, z: path.z };
    if tip.coincides_with(&Point::origin(), &tolerance) {
        return Err(SweepError::DegeneratePath);
    }
    let faces = &source.inner().faces;
    let mut out: Vec<Face> = Vec::new();
    let mut f: usize = 0;
    while f < faces.len()
        invariant
            f <= faces@.len(),
            faces@ == source.spec_inner().faces@,
            !path@.close_to(Vec3::zero(), tolerance.distance as int),
            out@.len() == swept_count(faces@, f as nat),
            forall|g: int|
                0 <= g < f ==> is_swept_face(
                    #[trigger] faces@[g],
                    path,
                    color,
                    out@,
                    swept_count(faces@, g as nat) as int,
                ),
        decreases faces@.len() - f,
    {
        let ghost earlier = out@;
        if !sweep_face(&faces[f], &path, color, &mut out) {
            assert(!faces@[f as int].transformable(Affine::translation(path@)));
            return Err(SweepError::OutOfRange);
        }
        proof {
            assert forall|g: int| 0 <= g < f implies is_swept_face(
                #[trigger] faces@[g],
                path,
                color,
                out@,
                swept_count(faces@, g as nat) as int,
            ) by {
                lemma_swept_count_grows(faces@, g as nat, f as nat);
                lemma_swept_face_kept(
                    faces@[g],
                    path,
                    color,
                    earlier,
                    out@,
                    swept_count(faces@, g as nat) as int,
                );
            }
        }
        f += 1;
    }
    Ok(Solid { faces: out })
}

/// What a face was swept into stays what it is when more faces are appended.
proof fn lemma_swept_face_kept(
    face: Face,
    path: Vector,
    color: Color,
    earlier: Seq<Face>,
    later: Seq<Face>,
    from: int,
)
    requires
        0 <= from,
        from + swept_size(face) <= earlier.len() <= later.len(),
        forall|k: int| 0 <= k < earlier.len() ==> later[k] == earlier[k],
        is_swept_face(face, path, color, earlier, from),
    ensures
        is_swept_face(face, path, color, later, from),
{
    reveal(is_swept_face);
    match face {
        Face::Face(brep) => {
            let exteriors = brep.exteriors@;
            let interiors = brep.interiors@;
            let inner = from + 2 + edge_count(exteriors, exteriors.len());
            assert forall|c: int, i: int|
                0 <= c < exteriors.len() && 0 <= i < exteriors[c].edges@.len() implies is_side(
                #[trigger] exteriors[c].edges@[i],
                path,
                color,
                later[from + 2 + edge_count(exteriors, c as nat) + i],
            ) by {
                lemma_edge_count_grows(exteriors, c as nat, exteriors.len());
                assert(later[from + 2 + edge_count(exteriors, c as nat) + i] == earlier[from + 2
                    + edge_count(exteriors, c as nat) + i]);
            }
            assert forall|c: int, i: int|
                0 <= c < interiors.len() && 0 <= i < interiors[c].edges@.len() implies is_side(
                #[trigger] interiors[c].edges@[i],
                path,
                color,
                later[inner + edge_count(interiors, c as nat) + i],
            ) by {
                lemma_edge_count_grows(interiors, c as nat, interiors.len());
                assert(later[inner + edge_count(interiors, c as nat) + i] == earlier[inner
                    + edge_count(interiors, c as nat) + i]);
            }
        },
        Face::Triangles(_) => {},
    }
}

/// Whether two edges connect the same two places and run in opposite
/// directions: as the two faces do that share an edge of a closed shell.
pub open spec fn opposite(one: Edge, other: Edge) -> bool {
    &&& one.spec_start() is Some
    &&& one.spec_start() == other.spec_end()
    &&& one.spec_end() == other.spec_start()
}

/// The edges that bound the side face swept from an edge between two
/// vertices.
pub open spec fn side_edges(side: Face) -> Seq<Edge> {
    side->Face_0.exteriors@[0].edges@
}

/// The side face swept from an edge is bounded by a closed cycle.
pub proof fn lemma_side_is_closed(edge: Edge, path: Vector, color: Color, side: Face)
    requires
        edge.vertices is Some,
        is_side(edge, path, color, side),
    ensures
        cycle_closed(side_edges(side), 0),
{
    let t = Affine::translation(path@);
    let edges = side_edges(side);
    let start = edge.spec_start().unwrap();
    let end = edge.spec_end().unwrap();
    lemma_translation_apply(path@, start@);
    lemma_translation_apply(path@, end@);
    lemma_close_exact(end@, end@);
    lemma_close_exact(end@.plus(path@), end@.plus(path@));
    lemma_close_exact(start@.plus(path@), start@.plus(path@));
    lemma_close_exact(start@, start@);
    assert(edges[1].spec_start().unwrap() == end);
    assert(edges[1].spec_end().unwrap()@ == end@.plus(path@));
    assert(edges[2].spec_start().unwrap()@ == end@.plus(path@));
    assert(edges[2].spec_end().unwrap()@ == start@.plus(path@));
    assert(edges[3].spec_start().unwrap()@ == start@.plus(path@));
    assert(edges[3].spec_end().unwrap() == start);
    assert(!gap_after(edges, 0, 0));
    assert(!gap_after(edges, 1, 0));
    assert(!gap_after(edges, 2, 0));
    assert(!gap_after(edges, 3, 0));
}

/// The side face swept from an edge shares that edge with the lower cap,
/// which runs along it the other way.
pub proof fn lemma_side_meets_bottom(
    edges: Seq<Edge>,
    place: int,
    path: Vector,
    color: Color,
    side: Face,
)
    requires
        0 <= place < edges.len(),
        edges[place].vertices is Some,
        is_side(edges[place], path, color, side),
    ensures
        opposite(side_edges(side)[0], spec_reversed(edges)[edges.len() - 1 - place]),
{
}

/// The side face swept from an edge shares the moved edge with the upper
/// cap, and runs along it the other way.
pub proof fn lemma_side_meets_top(edge: Edge, path: Vector, color: Color, side: Face, moved: Edge)
    requires
        edge.vertices is Some,
        is_side(edge, path, color, side),
        edge.maps_to(Affine::translation(path@), &moved),
    ensures
        opposite(side_edges(side)[2], moved),
{
}

/// The side faces swept from two edges that follow each other share the
/// upright edge between them, and run along it in opposite directions.
pub proof fn lemma_sides_meet(
    edge: Edge,
    next: Edge,
    path: Vector,
    color: Color,
    side: Face,
    next_side: Face,
)
    requires
        edge.vertices is Some,
        next.vertices is Some,
        edge.spec_end() == next.spec_start(),
        is_side(edge, path, color, side),
        is_side(next, path, color, next_side),
    ensures
        opposite(side_edges(side)[1], side_edges(next_side)[3]),
{
}

} // verus!
