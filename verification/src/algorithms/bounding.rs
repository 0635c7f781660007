//! Bounding volumes: the box around the vertices of a shape, and the box
//! around a shape that is swept along a path.

use vstd::prelude::*;
use crate::math::aabb::{grow, grown, Aabb};
use crate::math::point::Vector;
use crate::math::scalar::{greatest, least};
use crate::math::space::Vec3;
use crate::objects::edge::{Cycle, Edge};
use crate::objects::face::{Color, Face, Triangle};

verus! {

/// The box grown to hold the vertices of the edge.
pub open spec fn box_with_edge(found: Option<Aabb>, edge: Edge) -> Option<Aabb> {
    match edge.vertices {
        Some(vs) => Some(grown(Some(grown(found, vs[0].global.position)), vs[1].global.position)),
        None => found,
    }
}

/// The box grown to hold the vertices of the first `count` of the edges.
pub open spec fn box_with_edges(found: Option<Aabb>, edges: Seq<Edge>, count: nat) -> Option<Aabb>
    decreases count,
{
    if count == 0 {
        found
    } else {
        box_with_edge(box_with_edges(found, edges, (count - 1) as nat), edges[count - 1])
    }
}

/// The box grown to hold the vertices of the first `count` of the cycles.
pub open spec fn box_with_cycles(found: Option<Aabb>, cycles: Seq<Cycle>, count: nat) -> Option<
    Aabb,
>
    decreases count,
{
    if count == 0 {
        found
    } else {
        box_with_edges(
            box_with_cycles(found, cycles, (count - 1) as nat),
            cycles[count - 1].edges@,
            cycles[count - 1].edges@.len(),
        )
    }
}

/// The box grown to hold the corners of the first `count` of the triangles.
pub open spec fn box_with_triangles(
    found: Option<Aabb>,
    triangles: Seq<(Triangle, Color)>,
    count: nat,
) -> Option<Aabb>
    decreases count,
{
    if count == 0 {
        found
    } else {
        let t = triangles[count - 1].0;
        Some(
            grown(
                Some(
                    grown(
                        Some(grown(box_with_triangles(found, triangles, (count - 1) as nat), t.a)),
                        t.b,
                    ),
                ),
                t.c,
            ),
        )
    }
}

/// The box grown to hold the vertices of the face.
pub open spec fn box_with_face(found: Option<Aabb>, face: Face) -> Option<Aabb> {
    match face {
        Face::Face(brep) => box_with_cycles(
            box_with_cycles(found, brep.exteriors@, brep.exteriors@.len()),
            brep.interiors@,
            brep.interiors@.len(),
        ),
        Face::Triangles(triangles) => box_with_triangles(found, triangles@, triangles@.len()),
    }
}

/// The box grown to hold the vertices of the first `count` of the faces.
pub open spec fn box_with_faces(found: Option<Aabb>, faces: Seq<Face>, count: nat) -> Option<Aabb>
    decreases count,
{
    if count == 0 {
        found
    } else {
        box_with_face(box_with_faces(found, faces, (count - 1) as nat), faces[count - 1])
    }
}

fn grow_with_cycles(found: Option<Aabb>, cycles: &Vec<Cycle>) -> (r: Option<Aabb>)
    ensures
        r == box_with_cycles(found, cycles@, cycles@.len()),
{
    let mut acc = found;
    let mut c: usize = 0;
    while c < cycles.len()
        invariant
            c <= cycles@.len(),
            acc == box_with_cycles(found, cycles@, c as nat),
        decreases cycles@.len() - c,
    {
        let edges = &cycles[c].edges;
        let ghost start = acc;
        let mut i: usize = 0;
        while i < edges.len()
            invariant
                i <= edges@.len(),
                acc == box_with_edges(start, edges@, i as nat),
            decreases edges@.len() - i,
        {
            match edges[i].vertices {
                Some(vs) => {
                    let first = grow(acc, &vs[0].global.position);
                    acc = Some(grow(Some(first), &vs[1].global.position));
                },
                None => {},
            }
            i += 1;
        }
        c += 1;
    }
    acc
}

fn grow_with_triangles(found: Option<Aabb>, triangles: &Vec<(Triangle, Color)>) -> (r: Option<Aabb>)
    ensures
        r == box_with_triangles(found, triangles@, triangles@.len()),
{
    let mut acc = found;
    let mut i: usize = 0;
    while i < triangles.len()
        invariant
            i <= triangles@.len(),
            acc == box_with_triangles(found, triangles@, i as nat),
        decreases triangles@.len() - i,
    {
        let t = triangles[i].0;
        let a = grow(acc, &t.a);
        let b = grow(Some(a), &t.b);
        acc = Some(grow(Some(b), &t.c));
        i += 1;
    }
    acc
}

/// The smallest box that holds every vertex of the faces: the vertices of
/// their edges and the corners of their triangles. Faces without a vertex
/// have no such box.
pub fn bounding_volume(faces: &Vec<Face>) -> (r: Option<Aabb>)
    ensures
        r == box_with_faces(None, faces@, faces@.len()),
        r matches Some(b) ==> b.wf(),
{
    proof {
        lemma_faces_box_sound(None, faces@, faces@.len());
    }
    let mut acc: Option<Aabb> = None;
    let mut f: usize = 0;
    while f < faces.len()
        invariant
            f <= faces@.len(),
            acc == box_with_faces(None, faces@, f as nat),
        decreases faces@.len() - f,
    {
        acc = match &faces[f] {
            Face::Face(brep) => grow_with_cycles(
                grow_with_cycles(acc, &brep.exteriors),
                &brep.interiors,
            ),
            Face::Triangles(triangles) => grow_with_triangles(acc, triangles),
        };
        f += 1;
    }
    acc
}

/// Whether what was found is a box that is not empty, or no box.
pub open spec fn sound(found: Option<Aabb>) -> bool {
    found matches Some(b) ==> b.wf()
}

proof fn lemma_edges_box_sound(found: Option<Aabb>, edges: Seq<Edge>, count: nat)
    requires
        sound(found),
    ensures
        sound(box_with_edges(found, edges, count)),
    decreases count,
{
    if count > 0 {
        lemma_edges_box_sound(found, edges, (count - 1) as nat);
    }
}

proof fn lemma_cycles_box_sound(found: Option<Aabb>, cycles: Seq<Cycle>, count: nat)
    requires
        sound(found),
    ensures
        sound(box_with_cycles(found, cycles, count)),
    decreases count,
{
    if count > 0 {
        lemma_cycles_box_sound(found, cycles, (count - 1) as nat);
        lemma_edges_box_sound(
            box_with_cycles(found, cycles, (count - 1) as nat),
            cycles[count - 1].edges@,
            cycles[count - 1].edges@.len(),
        );
    }
}

proof fn lemma_triangles_box_sound(
    found: Option<Aabb>,
    triangles: Seq<(Triangle, Color)>,
    count: nat,
)
    requires
        sound(found),
    ensures
        sound(box_with_triangles(found, triangles, count)),
    decreases count,
{
    if count > 0 {
        lemma_triangles_box_sound(found, triangles, (count - 1) as nat);
    }
}

/// The box around the vertices of faces is not empty.
pub proof fn lemma_faces_box_sound(found: Option<Aabb>, faces: Seq<Face>, count: nat)
    requires
        sound(found),
    ensures
        sound(box_with_faces(found, faces, count)),
    decreases count,
{
    if count > 0 {
        lemma_faces_box_sound(found, faces, (count - 1) as nat);
        let before = box_with_faces(found, faces, (count - 1) as nat);
        match faces[count - 1] {
            Face::Face(brep) => {
                lemma_cycles_box_sound(before, brep.exteriors@, brep.exteriors@.len());
                lemma_cycles_box_sound(
                    box_with_cycles(before, brep.exteriors@, brep.exteriors@.len()),
                    brep.interiors@,
                    brep.interiors@.len(),
                );
            },
            Face::Triangles(triangles) => {
                lemma_triangles_box_sound(before, triangles@, triangles@.len());
            },
        }
    }
}

/// Whether what was found is a box that holds the point.
pub open spec fn holds(found: Option<Aabb>, q: Vec3) -> bool {
    found matches Some(b) && b.spec_contains(q)
}

/// Whether the later box holds all that the earlier box holds.
pub open spec fn grew_from(later: Option<Aabb>, earlier: Option<Aabb>) -> bool {
    forall|q: Vec3| holds(earlier, q) ==> #[trigger] holds(later, q)
}

/// Whether the point is a vertex of the edge.
pub open spec fn is_vertex_of_edge(edge: Edge, q: Vec3) -> bool {
    match edge.vertices {
        Some(vs) => vs[0].global.position@ == q || vs[1].global.position@ == q,
        None => false,
    }
}

/// Whether the point is a vertex of an edge of one of the cycles.
pub open spec fn is_vertex_of_cycles(cycles: Seq<Cycle>, q: Vec3) -> bool {
    exists|c: int, i: int|
        0 <= c < cycles.len() && 0 <= i < cycles[c].edges@.len() && is_vertex_of_edge(
            #[trigger] cycles[c].edges@[i],
            q,
        )
}

/// Whether the point is a vertex of the face: a vertex of one of its edges,
/// or a corner of one of its triangles.
pub open spec fn is_vertex_of(face: Face, q: Vec3) -> bool {
    match face {
        Face::Face(brep) => is_vertex_of_cycles(brep.exteriors@, q) || is_vertex_of_cycles(
            brep.interiors@,
            q,
        ),
        Face::Triangles(triangles) => exists|i: int|
            0 <= i < triangles@.len() && ((#[trigger] triangles@[i]).0.a@ == q || triangles@[i].0.b@
                == q || triangles@[i].0.c@ == q),
    }
}

proof fn lemma_edges_box_holds(found: Option<Aabb>, edges: Seq<Edge>, count: nat)
    ensures
        grew_from(box_with_edges(found, edges, count), found),
        forall|i: int, q: Vec3|
            0 <= i < count && is_vertex_of_edge(#[trigger] edges[i], q) ==> #[trigger] holds(
                box_with_edges(found, edges, count),
                q,
            ),
    decreases count,
{
    if count > 0 {
        lemma_edges_box_holds(found, edges, (count - 1) as nat);
        let before = box_with_edges(found, edges, (count - 1) as nat);
        let after = box_with_edges(found, edges, count);
        assert(grew_from(after, before));
    }
}

proof fn lemma_cycles_box_holds(found: Option<Aabb>, cycles: Seq<Cycle>, count: nat)
    requires
        count <= cycles.len(),
    ensures
        grew_from(box_with_cycles(found, cycles, count), found),
        forall|c: int, i: int, q: Vec3|
            0 <= c < count && 0 <= i < cycles[c].edges@.len() && is_vertex_of_edge(
                #[trigger] cycles[c].edges@[i],
                q,
            ) ==> #[trigger] holds(box_with_cycles(found, cycles, count), q),
    decreases count,
{
    if count > 0 {
        lemma_cycles_box_holds(found, cycles, (count - 1) as nat);
        let before = box_with_cycles(found, cycles, (count - 1) as nat);
        let after = box_with_cycles(found, cycles, count);
        lemma_edges_box_holds(before, cycles[count - 1].edges@, cycles[count - 1].edges@.len());
        assert(grew_from(after, before));
        assert(grew_from(after, found)) by {
            assert forall|p: Vec3| holds(found, p) implies #[trigger] holds(after, p) by {
                assert(holds(before, p));
            }
        }
        assert forall|c: int, i: int, q: Vec3|
            0 <= c < count && 0 <= i < cycles[c].edges@.len() && is_vertex_of_edge(
                #[trigger] cycles[c].edges@[i],
                q,
            ) implies #[trigger] holds(after, q) by {
            if c < count - 1 {
                assert(holds(before, q));
            }
        }
    }
}

proof fn lemma_triangles_box_holds(
    found: Option<Aabb>,
    triangles: Seq<(Triangle, Color)>,
    count: nat,
)
    ensures
        grew_from(box_with_triangles(found, triangles, count), found),
        forall|i: int|
            0 <= i < count ==> holds(
                box_with_triangles(found, triangles, count),
                (#[trigger] triangles[i]).0.a@,
            ) && holds(box_with_triangles(found, triangles, count), triangles[i].0.b@) && holds(
                box_with_triangles(found, triangles, count),
                triangles[i].0.c@,
            ),
    decreases count,
{
    if count > 0 {
        lemma_triangles_box_holds(found, triangles, (count - 1) as nat);
        let before = box_with_triangles(found, triangles, (count - 1) as nat);
        let after = box_with_triangles(found, triangles, count);
        assert(grew_from(after, before));
    }
}

proof fn lemma_face_box_holds(found: Option<Aabb>, face: Face, q: Vec3)
    ensures
        grew_from(box_with_face(found, face), found),
        is_vertex_of(face, q) ==> holds(box_with_face(found, face), q),
{
    match face {
        Face::Face(brep) => {
            let outer = box_with_cycles(found, brep.exteriors@, brep.exteriors@.len());
            lemma_cycles_box_holds(found, brep.exteriors@, brep.exteriors@.len());
            lemma_cycles_box_holds(outer, brep.interiors@, brep.interiors@.len());
            let all = box_with_face(found, face);
            assert(grew_from(all, outer));
            assert(grew_from(all, found)) by {
                assert forall|p: Vec3| holds(found, p) implies #[trigger] holds(all, p) by {
                    assert(holds(outer, p));
                }
            }
            if is_vertex_of_cycles(brep.exteriors@, q) {
                assert(holds(outer, q));
            }
        },
        Face::Triangles(triangles) => {
            lemma_triangles_box_holds(found, triangles@, triangles@.len());
        },
    }
}

/// The box around the vertices of faces holds every vertex of every one of
/// the faces.
pub proof fn lemma_box_holds_vertices(faces: Seq<Face>, count: nat, f: int, q: Vec3)
    requires
        0 <= f < count <= faces.len(),
        is_vertex_of(faces[f], q),
    ensures
        holds(box_with_faces(None, faces, count), q),
    decreases count,
{
    let before = box_with_faces(None, faces, (count - 1) as nat);
    lemma_face_box_holds(before, faces[count - 1], q);
    if f < count - 1 {
        lemma_box_holds_vertices(faces, (count - 1) as nat, f, q);
    }
}

/// A stretch of space between two corners, in unbounded integers.
pub ghost struct Span {
    pub lo: Vec3,
    pub hi: Vec3,
}

impl Span {
    /// Whether the point lies in the stretch.
    pub open spec fn spans(self, q: Vec3) -> bool {
        &&& self.lo.x <= q.x <= self.hi.x
        &&& self.lo.y <= q.y <= self.hi.y
        &&& self.lo.z <= q.z <= self.hi.z
    }
}

/// Whether what was found lies in the stretch.
pub open spec fn within(found: Option<Aabb>, span: Span) -> bool {
    found matches Some(b) ==> span.spans(b.min@) && span.spans(b.max@)
}

proof fn lemma_edges_box_within(found: Option<Aabb>, edges: Seq<Edge>, count: nat, span: Span)
    requires
        within(found, span),
        forall|i: int, q: Vec3|
            0 <= i < count && #[trigger] is_vertex_of_edge(edges[i], q) ==> span.spans(q),
    ensures
        within(box_with_edges(found, edges, count), span),
    decreases count,
{
    if count > 0 {
        lemma_edges_box_within(found, edges, (count - 1) as nat, span);
        match edges[count - 1].vertices {
            Some(vs) => {
                assert(is_vertex_of_edge(edges[count - 1], vs[0].global.position@));
                assert(is_vertex_of_edge(edges[count - 1], vs[1].global.position@));
            },
            None => {},
        }
    }
}

proof fn lemma_cycles_box_within(found: Option<Aabb>, cycles: Seq<Cycle>, count: nat, span: Span)
    requires
        count <= cycles.len(),
        within(found, span),
        forall|q: Vec3| #[trigger] is_vertex_of_cycles(cycles, q) ==> span.spans(q),
    ensures
        within(box_with_cycles(found, cycles, count), span),
    decreases count,
{
    if count > 0 {
        lemma_cycles_box_within(found, cycles, (count - 1) as nat, span);
        let edges = cycles[count - 1].edges@;
        assert forall|i: int, q: Vec3|
            0 <= i < edges.len() && #[trigger] is_vertex_of_edge(edges[i], q) implies span.spans(
            q,
        ) by {
            assert(is_vertex_of_edge(cycles[count - 1].edges@[i], q));
            assert(is_vertex_of_cycles(cycles, q));
        }
        lemma_edges_box_within(
            box_with_cycles(found, cycles, (count - 1) as nat),
            edges,
            edges.len(),
            span,
        );
    }
}

proof fn lemma_triangles_box_within(
    found: Option<Aabb>,
    triangles: Seq<(Triangle, Color)>,
    count: nat,
    span: Span,
)
    requires
        count <= triangles.len(),
        within(found, span),
        forall|i: int|
            0 <= i < triangles.len() ==> span.spans((#[trigger] triangles[i]).0.a@) && span.spans(
                triangles[i].0.b@,
            ) && span.spans(triangles[i].0.c@),
    ensures
        within(box_with_triangles(found, triangles, count), span),
    decreases count,
{
    if count > 0 {
        lemma_triangles_box_within(found, triangles, (count - 1) as nat, span);
        assert(span.spans(triangles[count - 1].0.a@));
    }
}

proof fn lemma_face_box_within(found: Option<Aabb>, face: Face, span: Span)
    requires
        within(found, span),
        forall|q: Vec3| #[trigger] is_vertex_of(face, q) ==> span.spans(q),
    ensures
        within(box_with_face(found, face), span),
{
    match face {
        Face::Face(brep) => {
            assert forall|q: Vec3| #[trigger]
                is_vertex_of_cycles(brep.exteriors@, q) implies span.spans(q) by {
                assert(is_vertex_of(face, q));
            }
            assert forall|q: Vec3| #[trigger]
                is_vertex_of_cycles(brep.interiors@, q) implies span.spans(q) by {
                assert(is_vertex_of(face, q));
            }
            lemma_cycles_box_within(found, brep.exteriors@, brep.exteriors@.len(), span);
            lemma_cycles_box_within(
                box_with_cycles(found, brep.exteriors@, brep.exteriors@.len()),
                brep.interiors@,
                brep.interiors@.len(),
                span,
            );
        },
        Face::Triangles(triangles) => {
            assert forall|i: int| 0 <= i < triangles@.len() implies span.spans(
                (#[trigger] triangles@[i]).0.a@,
            ) && span.spans(triangles@[i].0.b@) && span.spans(triangles@[i].0.c@) by {
                assert(is_vertex_of(face, triangles@[i].0.a@));
                assert(is_vertex_of(face, triangles@[i].0.b@));
                assert(is_vertex_of(face, triangles@[i].0.c@));
            }
            lemma_triangles_box_within(found, triangles@, triangles@.len(), span);
        },
    }
}

/// Whether the point is a vertex of one of the first `count` of the faces.
pub open spec fn is_vertex_among(faces: Seq<Face>, count: nat, q: Vec3) -> bool {
    exists|f: int| 0 <= f < count && is_vertex_of(#[trigger] faces[f], q)
}

/// The box around the vertices of faces lies in every stretch of space that
/// holds every vertex of the faces: it is the smallest box that holds them.
pub proof fn lemma_box_is_least(faces: Seq<Face>, count: nat, span: Span)
    requires
        count <= faces.len(),
        forall|q: Vec3| #[trigger] is_vertex_among(faces, count, q) ==> span.spans(q),
    ensures
        within(box_with_faces(None, faces, count), span),
    decreases count,
{
    if count > 0 {
        assert forall|q: Vec3| #[trigger]
            is_vertex_among(faces, (count - 1) as nat, q) implies span.spans(q) by {
            let f = choose|f: int| 0 <= f < count - 1 && is_vertex_of(#[trigger] faces[f], q);
            assert(is_vertex_of(faces[f], q));
            assert(is_vertex_among(faces, count, q));
        }
        lemma_box_is_least(faces, (count - 1) as nat, span);
        assert forall|q: Vec3| #[trigger] is_vertex_of(faces[count - 1], q) implies span.spans(
            q,
        ) by {
            assert(is_vertex_among(faces, count, q));
        }
        lemma_face_box_within(
            box_with_faces(None, faces, (count - 1) as nat),
            faces[count - 1],
            span,
        );
    }
}

/// Faces without a vertex have no box around their vertices, and faces with
/// a vertex have one.
pub proof fn lemma_box_exists_with_vertices(faces: Seq<Face>, count: nat)
    requires
        count <= faces.len(),
    ensures
        box_with_faces(None, faces, count) is Some == exists|q: Vec3| #[trigger]
            is_vertex_among(faces, count, q),
{
    if exists|q: Vec3| #[trigger] is_vertex_among(faces, count, q) {
        let q = choose|q: Vec3| #[trigger] is_vertex_among(faces, count, q);
        let f = choose|f: int| 0 <= f < count && is_vertex_of(#[trigger] faces[f], q);
        lemma_box_holds_vertices(faces, count, f, q);
    } else {
        let hollow = Span { lo: Vec3 { x: 1, y: 1, z: 1 }, hi: Vec3 { x: 0, y: 0, z: 0 } };
        lemma_box_is_least(faces, count, hollow);
    }
}

/// The box around a shape that is swept along `path`, from the box around
/// the shape: the smallest box that holds the shape's box and the same box
/// moved along the path. There is none where the moved box cannot be stored.
pub fn swept_volume(volume: &Aabb, path: &Vector) -> (r: Option<Aabb>)
    requires
        volume.wf(),
    ensures
        match r {
            Some(swept) => {
                &&& swept.wf()
                &&& swept.min.x == least(volume.min.x as int, volume.min.x + path.x)
                &&& swept.min.y == least(volume.min.y as int, volume.min.y + path.y)
                &&& swept.min.z == least(volume.min.z as int, volume.min.z + path.z)
                &&& swept.max.x == greatest(volume.max.x as int, volume.max.x + path.x)
                &&& swept.max.y == greatest(volume.max.y as int, volume.max.y + path.y)
                &&& swept.max.z == greatest(volume.max.z as int, volume.max.z + path.z)
            },
            None => !(volume.min@.plus(path@).representable() && volume.max@.plus(
                path@,
            ).representable()),
        },
{
    match volume.translated(path) {
        Some(moved) => Some(volume.merged(&moved)),
        None => None,
    }
}

/// The box that `swept_volume` gives is the true bounding box of the swept
/// shape's box: it holds every point of the box and every such point moved
/// along the path, and every box that holds all of these holds it.
pub proof fn lemma_swept_volume_is_tight(volume: Aabb, path: Vector, swept: Aabb, p: Vec3, outer: Aabb)
    requires
        volume.wf(),
        swept.min.x == least(volume.min.x as int, volume.min.x + path.x),
        swept.min.y == least(volume.min.y as int, volume.min.y + path.y),
        swept.min.z == least(volume.min.z as int, volume.min.z + path.z),
        swept.max.x == greatest(volume.max.x as int, volume.max.x + path.x),
        swept.max.y == greatest(volume.max.y as int, volume.max.y + path.y),
        swept.max.z == greatest(volume.max.z as int, volume.max.z + path.z),
    ensures
        volume.spec_contains(p) ==> swept.spec_contains(p) && swept.spec_contains(p.plus(path@)),
        (forall|q: Vec3| #[trigger]
            volume.spec_contains(q) ==> outer.spec_contains(q) && outer.spec_contains(
                q.plus(path@),
            )) ==> outer.spec_contains(swept.min@) && outer.spec_contains(swept.max@),
{
    if forall|q: Vec3| #[trigger]
        volume.spec_contains(q) ==> outer.spec_contains(q) && outer.spec_contains(q.plus(path@)) {
        assert(volume.spec_contains(volume.min@));
        assert(volume.spec_contains(volume.max@));
    }
}

} // verus!
