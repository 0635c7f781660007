//! The bounding volume of a swept solid: that the box computed from the
//! sketch and the path is the box around the solid.

use vstd::prelude::*;
use crate::algorithms::bounding::{
    box_with_faces, is_vertex_among, is_vertex_of, is_vertex_of_cycles, is_vertex_of_edge,
    lemma_box_exists_with_vertices, lemma_box_holds_vertices, lemma_box_is_least,
    lemma_faces_box_sound, Span,
};
use crate::algorithms::sweep::{
    cycles_reversed, edge_count, flipped, is_bottom, is_side, is_sweep_of, is_swept_face, is_top,
    lemma_swept_count_grows, sides_cover, spec_reversed, swept_count, swept_size,
};
use crate::algorithms::transform::{all_map_to, TransformObject};
use crate::math::point::Vector;
use crate::math::scalar::{greatest, least};
use crate::math::space::{lemma_translation_apply, Affine, Vec3};
use crate::objects::edge::{Cycle, Edge};
use crate::objects::face::{Color, Face};

verus! {

/// Whether `q` is a vertex of the edge, or lies the path away from one.
pub open spec fn is_or_follows_vertex_of_edge(edge: Edge, path: Vector, q: Vec3) -> bool {
    is_vertex_of_edge(edge, q) || is_vertex_of_edge(edge, q.minus(path@))
}

/// Whether `q` is a vertex of the face, or lies the path away from one.
pub open spec fn is_or_follows_vertex_of(face: Face, path: Vector, q: Vec3) -> bool {
    is_vertex_of(face, q) || is_vertex_of(face, q.minus(path@))
}

/// The vertices of an edge that is moved along the path are the vertices of
/// the edge, moved along the path.
proof fn lemma_moved_edge_vertices(edge: Edge, path: Vector, moved: Edge, q: Vec3)
    requires
        edge.maps_to(Affine::translation(path@), &moved),
    ensures
        is_vertex_of_edge(moved, q) == is_vertex_of_edge(edge, q.minus(path@)),
{
    match (edge.vertices, moved.vertices) {
        (Some(vs), Some(ws)) => {
            lemma_translation_apply(path@, vs[0].global.position@);
            lemma_translation_apply(path@, vs[1].global.position@);
        },
        _ => {},
    }
}

/// The vertices of cycles that are moved along the path are the vertices of
/// the cycles, moved along the path.
proof fn lemma_moved_cycles_vertices(cycles: Seq<Cycle>, path: Vector, moved: Seq<Cycle>, q: Vec3)
    requires
        all_map_to(cycles, Affine::translation(path@), moved),
    ensures
        is_vertex_of_cycles(moved, q) == is_vertex_of_cycles(cycles, q.minus(path@)),
{
    let t = Affine::translation(path@);
    if is_vertex_of_cycles(moved, q) {
        let (c, i) = choose|c: int, i: int|
            0 <= c < moved.len() && 0 <= i < moved[c].edges@.len() && is_vertex_of_edge(
                #[trigger] moved[c].edges@[i],
                q,
            );
        assert(cycles[c].maps_to(t, &moved[c]));
        assert(cycles[c].edges@[i].maps_to(t, &moved[c].edges@[i]));
        lemma_moved_edge_vertices(cycles[c].edges@[i], path, moved[c].edges@[i], q);
        assert(is_vertex_of_edge(cycles[c].edges@[i], q.minus(path@)));
    }
    if is_vertex_of_cycles(cycles, q.minus(path@)) {
        let (c, i) = choose|c: int, i: int|
            0 <= c < cycles.len() && 0 <= i < cycles[c].edges@.len() && is_vertex_of_edge(
                #[trigger] cycles[c].edges@[i],
                q.minus(path@),
            );
        assert(cycles[c].maps_to(t, &moved[c]));
        assert(cycles[c].edges@[i].maps_to(t, &moved[c].edges@[i]));
        lemma_moved_edge_vertices(cycles[c].edges@[i], path, moved[c].edges@[i], q);
        assert(is_vertex_of_edge(moved[c].edges@[i], q));
    }
}

/// The vertices of the upper cap are the vertices of the face, moved along
/// the path.
proof fn lemma_top_vertices(face: Face, path: Vector, color: Color, top: Face, q: Vec3)
    requires
        is_top(face, path, color, top),
    ensures
        is_vertex_of(top, q) == is_vertex_of(face, q.minus(path@)),
{
    match (face, top) {
        (Face::Face(a), Face::Face(b)) => {
            lemma_moved_cycles_vertices(a.exteriors@, path, b.exteriors@, q);
            lemma_moved_cycles_vertices(a.interiors@, path, b.interiors@, q);
        },
        (Face::Triangles(a), Face::Triangles(b)) => {
            let back = q.minus(path@);
            if is_vertex_of(top, q) {
                let i = choose|i: int|
                    0 <= i < b@.len() && ((#[trigger] b@[i]).0.a@ == q || b@[i].0.b@ == q
                        || b@[i].0.c@ == q);
                lemma_translation_apply(path@, a@[i].0.a@);
                lemma_translation_apply(path@, a@[i].0.b@);
                lemma_translation_apply(path@, a@[i].0.c@);
                assert(a@[i].0.a@ == back || a@[i].0.b@ == back || a@[i].0.c@ == back);
            }
            if is_vertex_of(face, back) {
                let i = choose|i: int|
                    0 <= i < a@.len() && ((#[trigger] a@[i]).0.a@ == back || a@[i].0.b@ == back
                        || a@[i].0.c@ == back);
                lemma_translation_apply(path@, a@[i].0.a@);
                lemma_translation_apply(path@, a@[i].0.b@);
                lemma_translation_apply(path@, a@[i].0.c@);
                assert(b@[i].0.a@ == q || b@[i].0.b@ == q || b@[i].0.c@ == q);
            }
        },
        _ => {},
    }
}

/// Cycles that run the other way round have the vertices of the cycles.
proof fn lemma_reversed_cycles_vertices(cycles: Seq<Cycle>, reversed: Seq<Cycle>, q: Vec3)
    requires
        cycles_reversed(cycles, reversed),
    ensures
        is_vertex_of_cycles(reversed, q) == is_vertex_of_cycles(cycles, q),
{
    if is_vertex_of_cycles(reversed, q) {
        let (c, i) = choose|c: int, i: int|
            0 <= c < reversed.len() && 0 <= i < reversed[c].edges@.len() && is_vertex_of_edge(
                #[trigger] reversed[c].edges@[i],
                q,
            );
        let n = cycles[c].edges@.len() as int;
        assert(reversed[c].edges@ == spec_reversed(cycles[c].edges@));
        assert(reversed[c].edges@[i] == flipped(cycles[c].edges@[n - 1 - i]));
        assert(is_vertex_of_edge(cycles[c].edges@[n - 1 - i], q));
    }
    if is_vertex_of_cycles(cycles, q) {
        let (c, i) = choose|c: int, i: int|
            0 <= c < cycles.len() && 0 <= i < cycles[c].edges@.len() && is_vertex_of_edge(
                #[trigger] cycles[c].edges@[i],
                q,
            );
        let n = cycles[c].edges@.len() as int;
        assert(reversed[c].edges@ == spec_reversed(cycles[c].edges@));
        assert(reversed[c].edges@[n - 1 - i] == flipped(cycles[c].edges@[i]));
        assert(is_vertex_of_edge(reversed[c].edges@[n - 1 - i], q));
    }
}

/// The vertices of the lower cap are the vertices of the face.
proof fn lemma_bottom_vertices(face: Face, color: Color, bottom: Face, q: Vec3)
    requires
        is_bottom(face, color, bottom),
    ensures
        is_vertex_of(bottom, q) == is_vertex_of(face, q),
{
    match (face, bottom) {
        (Face::Face(a), Face::Face(b)) => {
            lemma_reversed_cycles_vertices(a.exteriors@, b.exteriors@, q);
            lemma_reversed_cycles_vertices(a.interiors@, b.interiors@, q);
        },
        _ => {},
    }
}

/// The vertices of a side face are vertices of its edge, or lie the path
/// away from one.
proof fn lemma_side_vertices(edge: Edge, path: Vector, color: Color, side: Face, q: Vec3)
    requires
        is_side(edge, path, color, side),
        is_vertex_of(side, q),
    ensures
        is_or_follows_vertex_of_edge(edge, path, q),
{
    let b = side->Face_0;
    let t = Affine::translation(path@);
    assert(!is_vertex_of_cycles(b.interiors@, q));
    let (c, i) = choose|c: int, i: int|
        0 <= c < b.exteriors@.len() && 0 <= i < b.exteriors@[c].edges@.len() && is_vertex_of_edge(
            #[trigger] b.exteriors@[c].edges@[i],
            q,
        );
    match (edge.spec_start(), edge.spec_end()) {
        (Some(start), Some(end)) => {
            let edges = b.exteriors@[0].edges@;
            lemma_moved_edge_vertices(edge, path, flipped(edges[2]), q);
            assert(q.plus(path@).minus(path@) == q);
            if i == 1 {
                assert(end@.plus(path@).minus(path@) == end@);
            } else if i == 3 {
                assert(start@.plus(path@).minus(path@) == start@);
            }
        },
        _ => {
            lemma_moved_edge_vertices(edge, path, flipped(b.exteriors@[1].edges@[0]), q);
        },
    }
}

/// The face whose swept faces hold the place `g`.
proof fn find_face(faces: Seq<Face>, count: nat, g: int) -> (f: int)
    requires
        count <= faces.len(),
        0 <= g < swept_count(faces, count),
    ensures
        0 <= f < count,
        swept_count(faces, f as nat) <= g < swept_count(faces, (f + 1) as nat),
    decreases count,
{
    if g >= swept_count(faces, (count - 1) as nat) {
        count - 1
    } else {
        find_face(faces, (count - 1) as nat, g)
    }
}

/// The cycle and the edge of it whose side face is the `k`th.
proof fn find_edge(cycles: Seq<Cycle>, count: nat, k: int) -> (r: (int, int))
    requires
        count <= cycles.len(),
        0 <= k < edge_count(cycles, count),
    ensures
        0 <= r.0 < count,
        0 <= r.1 < cycles[r.0].edges@.len(),
        k == edge_count(cycles, r.0 as nat) + r.1,
    decreases count,
{
    if k >= edge_count(cycles, (count - 1) as nat) {
        (count - 1, k - edge_count(cycles, (count - 1) as nat))
    } else {
        find_edge(cycles, (count - 1) as nat, k)
    }
}

/// A vertex of a side face among those that cover the cycles is a vertex of
/// the cycles, or lies the path away from one.
proof fn lemma_sides_vertices(
    cycles: Seq<Cycle>,
    path: Vector,
    color: Color,
    out: Seq<Face>,
    from: int,
    k: int,
    q: Vec3,
)
    requires
        sides_cover(cycles, path, color, out, from),
        0 <= k < edge_count(cycles, cycles.len()),
        is_vertex_of(out[from + k], q),
    ensures
        is_vertex_of_cycles(cycles, q) || is_vertex_of_cycles(cycles, q.minus(path@)),
{
    let (c, i) = find_edge(cycles, cycles.len(), k);
    let edge = cycles[c].edges@[i];
    assert(is_side(edge, path, color, out[from + edge_count(cycles, c as nat) + i]));
    lemma_side_vertices(edge, path, color, out[from + k], q);
    if is_vertex_of_edge(edge, q) {
        assert(is_vertex_of_edge(cycles[c].edges@[i], q));
    } else {
        assert(is_vertex_of_edge(cycles[c].edges@[i], q.minus(path@)));
    }
}

/// A vertex of one of the faces that a face is swept into is a vertex of
/// the face, or lies the path away from one.
proof fn lemma_group_vertices(
    face: Face,
    path: Vector,
    color: Color,
    out: Seq<Face>,
    from: int,
    j: int,
    q: Vec3,
)
    requires
        is_swept_face(face, path, color, out, from),
        0 <= j < swept_size(face),
        is_vertex_of(out[from + j], q),
    ensures
        is_or_follows_vertex_of(face, path, q),
{
    reveal(is_swept_face);
    if j == 0 {
        lemma_bottom_vertices(face, color, out[from], q);
    } else if j == 1 {
        lemma_top_vertices(face, path, color, out[from + 1], q);
    } else {
        match face {
            Face::Face(brep) => {
                let outer = edge_count(brep.exteriors@, brep.exteriors@.len()) as int;
                if j - 2 < outer {
                    lemma_sides_vertices(brep.exteriors@, path, color, out, from + 2, j - 2, q);
                } else {
                    lemma_sides_vertices(
                        brep.interiors@,
                        path,
                        color,
                        out,
                        from + 2 + outer,
                        j - 2 - outer,
                        q,
                    );
                }
            },
            Face::Triangles(_) => {},
        }
    }
}

/// The vertices of a swept solid are the vertices of the sketch and the
/// points that lie the path away from them.
pub proof fn lemma_solid_vertices(
    faces: Seq<Face>,
    path: Vector,
    color: Color,
    out: Seq<Face>,
    q: Vec3,
)
    requires
        is_sweep_of(faces, path, color, out),
    ensures
        is_vertex_among(out, out.len(), q) == (is_vertex_among(faces, faces.len(), q)
            || is_vertex_among(faces, faces.len(), q.minus(path@))),
{
    reveal(is_swept_face);
    if is_vertex_among(out, out.len(), q) {
        let g = choose|g: int| 0 <= g < out.len() && is_vertex_of(#[trigger] out[g], q);
        let f = find_face(faces, faces.len(), g);
        let from = swept_count(faces, f as nat) as int;
        assert(is_swept_face(faces[f], path, color, out, from));
        lemma_group_vertices(faces[f], path, color, out, from, g - from, q);
        if is_vertex_of(faces[f], q) {
            assert(is_vertex_among(faces, faces.len(), q));
        } else {
            assert(is_vertex_of(faces[f], q.minus(path@)));
            assert(is_vertex_among(faces, faces.len(), q.minus(path@)));
        }
    }
    if is_vertex_among(faces, faces.len(), q) {
        let f = choose|f: int| 0 <= f < faces.len() && is_vertex_of(#[trigger] faces[f], q);
        let from = swept_count(faces, f as nat) as int;
        lemma_swept_count_grows(faces, f as nat, faces.len());
        assert(is_swept_face(faces[f], path, color, out, from));
        lemma_bottom_vertices(faces[f], color, out[from], q);
        assert(is_vertex_of(out[from], q));
    }
    if is_vertex_among(faces, faces.len(), q.minus(path@)) {
        let f = choose|f: int|
            0 <= f < faces.len() && is_vertex_of(#[trigger] faces[f], q.minus(path@));
        let from = swept_count(faces, f as nat) as int;
        lemma_swept_count_grows(faces, f as nat, faces.len());
        assert(is_swept_face(faces[f], path, color, out, from));
        lemma_top_vertices(faces[f], path, color, out[from + 1], q);
        assert(is_vertex_of(out[from + 1], q));
    }
}

/// The box around a swept solid is the box that is computed from the box
/// around the sketch and the path: on every axis it reaches from the smaller
/// of the lower bound of the sketch and that bound moved along the path to
/// the larger of the upper bound and that bound moved along the path. A
/// sketch without a vertex is swept into a solid without one.
pub proof fn lemma_swept_solid_bounding_volume(
    faces: Seq<Face>,
    path: Vector,
    color: Color,
    out: Seq<Face>,
)
    requires
        is_sweep_of(faces, path, color, out),
    ensures
        match box_with_faces(None, faces, faces.len()) {
            Some(flat) => {
                &&& box_with_faces(None, out, out.len()) matches Some(solid)
                &&& solid.min.x == least(flat.min.x as int, flat.min.x + path.x)
                &&& solid.min.y == least(flat.min.y as int, flat.min.y + path.y)
                &&& solid.min.z == least(flat.min.z as int, flat.min.z + path.z)
                &&& solid.max.x == greatest(flat.max.x as int, flat.max.x + path.x)
                &&& solid.max.y == greatest(flat.max.y as int, flat.max.y + path.y)
                &&& solid.max.z == greatest(flat.max.z as int, flat.max.z + path.z)
            },
            None => box_with_faces(None, out, out.len()) is None,
        },
{
    let below = box_with_faces(None, faces, faces.len());
    let whole = box_with_faces(None, out, out.len());
    lemma_box_exists_with_vertices(faces, faces.len());
    lemma_box_exists_with_vertices(out, out.len());
    lemma_faces_box_sound(None, faces, faces.len());
    lemma_faces_box_sound(None, out, out.len());
    if exists|q: Vec3| #[trigger] is_vertex_among(faces, faces.len(), q) {
        let q = choose|q: Vec3| #[trigger] is_vertex_among(faces, faces.len(), q);
        lemma_solid_vertices(faces, path, color, out, q);
        assert(is_vertex_among(out, out.len(), q));
    }
    if exists|q: Vec3| #[trigger] is_vertex_among(out, out.len(), q) {
        let q = choose|q: Vec3| #[trigger] is_vertex_among(out, out.len(), q);
        lemma_solid_vertices(faces, path, color, out, q);
        assert(is_vertex_among(faces, faces.len(), q) || is_vertex_among(
            faces,
            faces.len(),
            q.minus(path@),
        ));
    }
    if below is Some {
        let flat = below.unwrap();
        let solid = whole.unwrap();
        let reach = Span {
            lo: Vec3 {
                x: least(flat.min.x as int, flat.min.x + path.x),
                y: least(flat.min.y as int, flat.min.y + path.y),
                z: least(flat.min.z as int, flat.min.z + path.z),
            },
            hi: Vec3 {
                x: greatest(flat.max.x as int, flat.max.x + path.x),
                y: greatest(flat.max.y as int, flat.max.y + path.y),
                z: greatest(flat.max.z as int, flat.max.z + path.z),
            },
        };
        assert forall|q: Vec3| #[trigger] is_vertex_among(out, out.len(), q) implies reach.spans(
            q,
        ) by {
            lemma_solid_vertices(faces, path, color, out, q);
            if is_vertex_among(faces, faces.len(), q) {
                let f = choose|f: int| 0 <= f < faces.len() && is_vertex_of(#[trigger] faces[f], q);
                lemma_box_holds_vertices(faces, faces.len(), f, q);
            } else {
                let back = q.minus(path@);
                let f = choose|f: int|
                    0 <= f < faces.len() && is_vertex_of(#[trigger] faces[f], back);
                lemma_box_holds_vertices(faces, faces.len(), f, back);
            }
        }
        lemma_box_is_least(out, out.len(), reach);
        let here = Span { lo: solid.min@, hi: solid.max@ };
        let there = Span { lo: solid.min@.minus(path@), hi: solid.max@.minus(path@) };
        assert forall|q: Vec3| #[trigger] is_vertex_among(faces, faces.len(), q) implies here.spans(
            q,
        ) && there.spans(q) by {
            lemma_solid_vertices(faces, path, color, out, q);
            let g = choose|g: int| 0 <= g < out.len() && is_vertex_of(#[trigger] out[g], q);
            lemma_box_holds_vertices(out, out.len(), g, q);
            let ahead = q.plus(path@);
            assert(ahead.minus(path@) == q);
            lemma_solid_vertices(faces, path, color, out, ahead);
            let h = choose|h: int| 0 <= h < out.len() && is_vertex_of(#[trigger] out[h], ahead);
            lemma_box_holds_vertices(out, out.len(), h, ahead);
        }
        lemma_box_is_least(faces, faces.len(), here);
        lemma_box_is_least(faces, faces.len(), there);
    }
}

} // verus!
