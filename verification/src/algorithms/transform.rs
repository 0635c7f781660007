//! Transforming objects: one affine transform, applied alike to every kind
//! of geometry and topology.

use vstd::prelude::*;
use crate::geometry::curve::{lemma_coord_found, Circle, Curve, Line};
use crate::geometry::surface::{Surface, SweptCurve};
use crate::math::point::Vector;
use crate::math::space::{
    lemma_after_apply, lemma_apply_combination, lemma_identity_apply, lemma_rigid_inverse, Affine,
    Vec3,
};
use crate::math::transform::{quarter_turns, turn_cosine, turn_sine, Axis, Transform};
use crate::objects::edge::{Cycle, Edge, Edges};
use crate::objects::face::{Color, Face, FaceBRep, Triangle};
use crate::objects::shape::{Sketch, Solid};
use crate::objects::vertex::{GlobalVertex, Vertex};

verus! {

/// An object that an affine transform can be applied to.
///
/// Coordinates are stored in machine integers, so the image of an object
/// exists only where every coordinate of it can be stored: `transform`
/// returns it where it exists and `None` where it does not. The proof
/// functions are the laws that every kind of object obeys.
pub trait TransformObject: Sized {
    /// Whether `image` is what the map `t` makes of `self`.
    spec fn maps_to(&self, t: Affine, image: &Self) -> bool;

    /// Whether what `t` makes of `self` can be stored.
    spec fn transformable(&self, t: Affine) -> bool;

    /// Whether two objects are equal in every part.
    spec fn same_as(&self, other: &Self) -> bool;

    /// Whether the object is valid: every local coordinate in it names the
    /// position in space that it is paired with.
    spec fn valid(&self) -> bool;

    /// Transforms the object.
    fn transform(self, transform: &Transform) -> (r: Option<Self>)
        ensures
            match r {
                Some(image) => self.maps_to(transform@, &image),
                None => !self.transformable(transform@),
            },
    ;

    /// Translates the object: the transform by the translation alone.
    fn translate(self, offset: Vector) -> (r: Option<Self>)
        ensures
            match r {
                Some(image) => self.maps_to(Affine::translation(offset@), &image),
                None => !self.transformable(Affine::translation(offset@)),
            },
    {
        self.transform(&Transform::translation(offset))
    }

    /// Rotates the object about an axis by quarter turns: the transform by
    /// the rotation alone.
    fn rotate(self, axis: Axis, turns: u32) -> (r: Option<Self>)
        ensures
            match r {
                Some(image) => self.maps_to(quarter_turns(axis, turns as int), &image),
                None => !self.transformable(quarter_turns(axis, turns as int)),
            },
    {
        self.transform(&Transform::rotation(axis, turns))
    }

    /// An object has an image only where it is transformable.
    proof fn lemma_image_stored(&self, t: Affine, image: &Self)
        requires
            self.maps_to(t, image),
        ensures
            self.transformable(t),
    ;

    /// What a transform makes of a valid object is valid.
    proof fn lemma_image_valid(&self, t: Affine, image: &Self)
        requires
            self.valid(),
            self.maps_to(t, image),
        ensures
            image.valid(),
    ;

    /// The identity makes of a valid object that object and nothing else.
    proof fn lemma_identity(&self, image: &Self)
        requires
            self.valid(),
        ensures
            self.maps_to(Affine::identity(), image) == self.same_as(image),
    ;

    /// A transform makes one thing of an object.
    proof fn lemma_unique(&self, t: Affine, one: &Self, other: &Self)
        requires
            self.maps_to(t, one),
            self.maps_to(t, other),
        ensures
            one.same_as(other),
    ;

    /// What two transforms make of a valid object in turn, the composed
    /// transform makes of it at once.
    proof fn lemma_composition(&self, middle: &Self, last: &Self, first: Affine, second: Affine)
        requires
            self.valid(),
            self.maps_to(first, middle),
            middle.maps_to(second, last),
        ensures
            self.maps_to(second.after(first), last),
    ;
}

/// Transforming a valid object by a composed transform gives what
/// transforming it by the parts in turn gives.
pub proof fn lemma_transform_composition<T: TransformObject>(
    object: &T,
    middle: &T,
    last: &T,
    at_once: &T,
    first: Affine,
    second: Affine,
)
    requires
        object.valid(),
        object.maps_to(first, middle),
        middle.maps_to(second, last),
        object.maps_to(second.after(first), at_once),
    ensures
        at_once.same_as(last),
{
    object.lemma_composition(middle, last, first, second);
    object.lemma_unique(second.after(first), at_once, last);
}

/// Transforming a valid object by a rigid transform and then by the inverse
/// of that transform gives the object back.
pub proof fn lemma_transform_round_trip<T: TransformObject>(
    object: &T,
    there: &T,
    back: &T,
    t: Affine,
)
    requires
        object.valid(),
        t.is_rigid(),
        object.maps_to(t, there),
        there.maps_to(t.rigid_inverse(), back),
    ensures
        object.same_as(back),
{
    object.lemma_composition(there, back, t, t.rigid_inverse());
    lemma_rigid_inverse(t);
    object.lemma_identity(back);
}

/// Whether `images` holds, place by place, what `t` makes of `items`.
pub open spec fn all_map_to<T: TransformObject>(items: Seq<T>, t: Affine, images: Seq<T>) -> bool {
    &&& items.len() == images.len()
    &&& forall|i: int| 0 <= i < items.len() ==> (#[trigger] items[i]).maps_to(t, &images[i])
}

/// Whether what `t` makes of each of `items` can be stored.
pub open spec fn all_transformable<T: TransformObject>(items: Seq<T>, t: Affine) -> bool {
    forall|i: int| 0 <= i < items.len() ==> (#[trigger] items[i]).transformable(t)
}

/// Whether two sequences hold equal objects, place by place.
pub open spec fn all_same<T: TransformObject>(one: Seq<T>, other: Seq<T>) -> bool {
    &&& one.len() == other.len()
    &&& forall|i: int| 0 <= i < one.len() ==> (#[trigger] one[i]).same_as(&other[i])
}

/// Whether each of the objects is valid.
pub open spec fn all_valid<T: TransformObject>(items: Seq<T>) -> bool {
    forall|i: int| 0 <= i < items.len() ==> (#[trigger] items[i]).valid()
}

proof fn lemma_all_image_valid<T: TransformObject>(items: Seq<T>, t: Affine, images: Seq<T>)
    requires
        all_valid(items),
        all_map_to(items, t, images),
    ensures
        all_valid(images),
{
    assert forall|i: int| 0 <= i < images.len() implies (#[trigger] images[i]).valid() by {
        items[i].lemma_image_valid(t, &images[i]);
    }
}

proof fn lemma_all_image_stored<T: TransformObject>(items: Seq<T>, t: Affine, images: Seq<T>)
    requires
        all_map_to(items, t, images),
    ensures
        all_transformable(items, t),
{
    assert forall|i: int| 0 <= i < items.len() implies (#[trigger] items[i]).transformable(t) by {
        items[i].lemma_image_stored(t, &images[i]);
    }
}

proof fn lemma_all_identity<T: TransformObject>(items: Seq<T>, images: Seq<T>)
    requires
        all_valid(items),
    ensures
        all_map_to(items, Affine::identity(), images) == all_same(items, images),
{
    if items.len() == images.len() {
        assert forall|i: int| 0 <= i < items.len() implies (#[trigger] items[i]).maps_to(
            Affine::identity(),
            &images[i],
        ) == items[i].same_as(&images[i]) by {
            items[i].lemma_identity(&images[i]);
        }
    }
}

proof fn lemma_all_unique<T: TransformObject>(items: Seq<T>, t: Affine, one: Seq<T>, other: Seq<T>)
    requires
        all_map_to(items, t, one),
        all_map_to(items, t, other),
    ensures
        all_same(one, other),
{
    assert forall|i: int| 0 <= i < one.len() implies (#[trigger] one[i]).same_as(&other[i]) by {
        items[i].lemma_unique(t, &one[i], &other[i]);
    }
}

proof fn lemma_all_composition<T: TransformObject>(
    items: Seq<T>,
    middle: Seq<T>,
    last: Seq<T>,
    first: Affine,
    second: Affine,
)
    requires
        all_valid(items),
        all_map_to(items, first, middle),
        all_map_to(middle, second, last),
    ensures
        all_map_to(items, second.after(first), last),
{
    assert forall|i: int| 0 <= i < items.len() implies (#[trigger] items[i]).maps_to(
        second.after(first),
        &last[i],
    ) by {
        items[i].lemma_composition(&middle[i], &last[i], first, second);
    }
}

impl TransformObject for GlobalVertex {
    open spec fn maps_to(&self, t: Affine, image: &Self) -> bool {
        image.position@ == t.apply(self.position@)
    }

    open spec fn transformable(&self, t: Affine) -> bool {
        t.apply(self.position@).representable()
    }

    open spec fn same_as(&self, other: &Self) -> bool {
        self == other
    }

    open spec fn valid(&self) -> bool {
        true
    }

    /// Carries the position through the transform and makes a global vertex
    /// of the result.
    fn transform(self, transform: &Transform) -> (r: Option<Self>) {
        match transform.transform_point(&self.position) {
            Some(position) => Some(GlobalVertex::from_position(position)),
            None => None,
        }
    }

    proof fn lemma_image_valid(&self, t: Affine, image: &Self) {
    }

    proof fn lemma_image_stored(&self, t: Affine, image: &Self) {
    }

    proof fn lemma_identity(&self, image: &Self) {
        lemma_identity_apply(self.position@);
    }

    proof fn lemma_unique(&self, t: Affine, one: &Self, other: &Self) {
    }

    proof fn lemma_composition(&self, middle: &Self, last: &Self, first: Affine, second: Affine) {
        lemma_after_apply(second, first, self.position@);
    }
}

impl TransformObject for Vertex {
    open spec fn maps_to(&self, t: Affine, image: &Self) -> bool {
        image.local == self.local && self.global.maps_to(t, &image.global)
    }

    open spec fn transformable(&self, t: Affine) -> bool {
        self.global.transformable(t)
    }

    open spec fn same_as(&self, other: &Self) -> bool {
        self == other
    }

    open spec fn valid(&self) -> bool {
        true
    }

    /// Transforms the global vertex. A vertex taken by itself has no curve
    /// to hold its coordinate against: the coordinate stays. The vertices of
    /// an edge are transformed with their edge, which renews their
    /// coordinates against its transformed curve.
    fn transform(self, transform: &Transform) -> (r: Option<Self>) {
        match self.global.transform(transform) {
            Some(global) => Some(Vertex::new(self.local, global)),
            None => None,
        }
    }

    proof fn lemma_image_valid(&self, t: Affine, image: &Self) {
    }

    proof fn lemma_image_stored(&self, t: Affine, image: &Self) {
    }

    proof fn lemma_identity(&self, image: &Self) {
        self.global.lemma_identity(&image.global);
    }

    proof fn lemma_unique(&self, t: Affine, one: &Self, other: &Self) {
    }

    proof fn lemma_composition(&self, middle: &Self, last: &Self, first: Affine, second: Affine) {
        self.global.lemma_composition(&middle.global, &last.global, first, second);
    }
}

/// Whether `image` is what `t` makes of the line.
pub open spec fn line_maps_to(line: Line, t: Affine, image: Line) -> bool {
    image.origin@ == t.apply(line.origin@) && image.direction@ == t.linear(line.direction@)
}

/// Whether `image` is what `t` makes of the circle.
pub open spec fn circle_maps_to(circle: Circle, t: Affine, image: Circle) -> bool {
    &&& image.center@ == t.apply(circle.center@)
    &&& image.a@ == t.linear(circle.a@)
    &&& image.b@ == t.linear(circle.b@)
}

/// Whether `image` is what `t` makes of the triangle.
pub open spec fn triangle_maps_to(triangle: Triangle, t: Affine, image: Triangle) -> bool {
    &&& image.a@ == t.apply(triangle.a@)
    &&& image.b@ == t.apply(triangle.b@)
    &&& image.c@ == t.apply(triangle.c@)
}

/// Whether what `t` makes of the triangle can be stored.
pub open spec fn triangle_transformable(triangle: Triangle, t: Affine) -> bool {
    &&& t.apply(triangle.a@).representable()
    &&& t.apply(triangle.b@).representable()
    &&& t.apply(triangle.c@).representable()
}

impl Transform {
    /// The image of a line: of its origin as a point and of its direction as
    /// a displacement.
    pub fn transform_line(&self, line: &Line) -> (r: Option<Line>)
        ensures
            match r {
                Some(image) => line_maps_to(*line, self@, image),
                None => !(self@.apply(line.origin@).representable() && self@.linear(
                    line.direction@,
                ).representable()),
            },
    {
        match (self.transform_point(&line.origin), self.transform_vector(&line.direction)) {
            (Some(origin), Some(direction)) => Some(Line { origin, direction }),
            _ => None,
        }
    }

    /// The image of a circle: of its centre as a point and of its radius
    /// vectors as displacements.
    pub fn transform_circle(&self, circle: &Circle) -> (r: Option<Circle>)
        ensures
            match r {
                Some(image) => circle_maps_to(*circle, self@, image),
                None => !(self@.apply(circle.center@).representable() && self@.linear(
                    circle.a@,
                ).representable() && self@.linear(circle.b@).representable()),
            },
    {
        match (
            self.transform_point(&circle.center),
            self.transform_vector(&circle.a),
            self.transform_vector(&circle.b),
        ) {
            (Some(center), Some(a), Some(b)) => Some(Circle { center, a, b }),
            _ => None,
        }
    }

    /// The image of a triangle: of each of its corners.
    pub fn transform_triangle(&self, triangle: &Triangle) -> (r: Option<Triangle>)
        ensures
            match r {
                Some(image) => triangle_maps_to(*triangle, self@, image),
                None => !triangle_transformable(*triangle, self@),
            },
    {
        match (
            self.transform_point(&triangle.a),
            self.transform_point(&triangle.b),
            self.transform_point(&triangle.c),
        ) {
            (Some(a), Some(b), Some(c)) => Some(Triangle { a, b, c }),
            _ => None,
        }
    }
}

impl TransformObject for Curve {
    open spec fn maps_to(&self, t: Affine, image: &Self) -> bool {
        match (*self, *image) {
            (Curve::Line(line), Curve::Line(other)) => line_maps_to(line, t, other),
            (Curve::Circle(circle), Curve::Circle(other)) => circle_maps_to(circle, t, other),
            _ => false,
        }
    }

    open spec fn transformable(&self, t: Affine) -> bool {
        match *self {
            Curve::Line(line) => t.apply(line.origin@).representable() && t.linear(
                line.direction@,
            ).representable(),
            Curve::Circle(circle) => t.apply(circle.center@).representable() && t.linear(
                circle.a@,
            ).representable() && t.linear(circle.b@).representable(),
        }
    }

    open spec fn same_as(&self, other: &Self) -> bool {
        self == other
    }

    open spec fn valid(&self) -> bool {
        true
    }

    fn transform(self, transform: &Transform) -> (r: Option<Self>) {
        match self {
            Curve::Circle(curve) => match transform.transform_circle(&curve) {
                Some(image) => Some(Curve::Circle(image)),
                None => None,
            },
            Curve::Line(curve) => match transform.transform_line(&curve) {
                Some(image) => Some(Curve::Line(image)),
                None => None,
            },
        }
    }

    proof fn lemma_image_valid(&self, t: Affine, image: &Self) {
    }

    proof fn lemma_image_stored(&self, t: Affine, image: &Self) {
    }

    proof fn lemma_identity(&self, image: &Self) {
        match *self {
            Curve::Line(line) => {
                lemma_identity_apply(line.origin@);
                lemma_identity_apply(line.direction@);
            },
            Curve::Circle(circle) => {
                lemma_identity_apply(circle.center@);
                lemma_identity_apply(circle.a@);
                lemma_identity_apply(circle.b@);
            },
        }
    }

    proof fn lemma_unique(&self, t: Affine, one: &Self, other: &Self) {
    }

    proof fn lemma_composition(&self, middle: &Self, last: &Self, first: Affine, second: Affine) {
        match *self {
            Curve::Line(line) => {
                lemma_after_apply(second, first, line.origin@);
                lemma_after_apply(second, first, line.direction@);
            },
            Curve::Circle(circle) => {
                lemma_after_apply(second, first, circle.center@);
                lemma_after_apply(second, first, circle.a@);
                lemma_after_apply(second, first, circle.b@);
            },
        }
    }
}

/// The point that a curve coordinate names on a transformed curve is the
/// image of the point that it names on the curve.
pub proof fn lemma_curve_point_image(curve: Curve, t: Affine, image: Curve, coord: int)
    requires
        curve.maps_to(t, &image),
    ensures
        image.spec_point(coord) == t.apply(curve.spec_point(coord)),
{
    match curve {
        Curve::Line(line) => {
            lemma_apply_combination(t, line.origin@, line.direction@, coord);
        },
        Curve::Circle(circle) => {
            let c = turn_cosine(coord);
            let s = turn_sine(coord);
            lemma_apply_combination(t, circle.center@.plus(circle.a@.times(c)), circle.b@, s);
            lemma_apply_combination(t, circle.center@, circle.a@, c);
        },
    }
}

impl TransformObject for Surface {
    open spec fn maps_to(&self, t: Affine, image: &Self) -> bool {
        match (*self, *image) {
            (Surface::SweptCurve(swept), Surface::SweptCurve(other)) => swept.curve.maps_to(
                t,
                &other.curve,
            ) && other.path@ == t.linear(swept.path@),
        }
    }

    open spec fn transformable(&self, t: Affine) -> bool {
        match *self {
            Surface::SweptCurve(swept) => swept.curve.transformable(t) && t.linear(
                swept.path@,
            ).representable(),
        }
    }

    open spec fn same_as(&self, other: &Self) -> bool {
        self == other
    }

    open spec fn valid(&self) -> bool {
        true
    }

    fn transform(self, transform: &Transform) -> (r: Option<Self>) {
        match self {
            Surface::SweptCurve(surface) => match (
                surface.curve.transform(transform),
                transform.transform_vector(&surface.path),
            ) {
                (Some(curve), Some(path)) => Some(Surface::SweptCurve(SweptCurve { curve, path })),
                _ => None,
            },
        }
    }

    proof fn lemma_image_valid(&self, t: Affine, image: &Self) {
    }

    proof fn lemma_image_stored(&self, t: Affine, image: &Self) {
    }

    proof fn lemma_identity(&self, image: &Self) {
        match (*self, *image) {
            (Surface::SweptCurve(swept), Surface::SweptCurve(other)) => {
                swept.curve.lemma_identity(&other.curve);
                lemma_identity_apply(swept.path@);
            },
        }
    }

    proof fn lemma_unique(&self, t: Affine, one: &Self, other: &Self) {
    }

    proof fn lemma_composition(&self, middle: &Self, last: &Self, first: Affine, second: Affine) {
        match (*self, *middle, *last) {
            (Surface::SweptCurve(a), Surface::SweptCurve(b), Surface::SweptCurve(c)) => {
                a.curve.lemma_composition(&b.curve, &c.curve, first, second);
                lemma_after_apply(second, first, a.path@);
            },
        }
    }
}

/// The point that surface coordinates name on a transformed surface is the
/// image of the point that they name on the surface.
pub proof fn lemma_surface_point_image(surface: Surface, t: Affine, image: Surface, u: int, v: int)
    requires
        surface.maps_to(t, &image),
    ensures
        image.spec_point(u, v) == t.apply(surface.spec_point(u, v)),
{
    match (surface, image) {
        (Surface::SweptCurve(swept), Surface::SweptCurve(other)) => {
            lemma_curve_point_image(swept.curve, t, other.curve, u);
            lemma_apply_combination(t, swept.curve.spec_point(u), swept.path@, v);
        },
    }
}

impl TransformObject for Triangle {
    open spec fn maps_to(&self, t: Affine, image: &Self) -> bool {
        triangle_maps_to(*self, t, *image)
    }

    open spec fn transformable(&self, t: Affine) -> bool {
        triangle_transformable(*self, t)
    }

    open spec fn same_as(&self, other: &Self) -> bool {
        self == other
    }

    open spec fn valid(&self) -> bool {
        true
    }

    fn transform(self, transform: &Transform) -> (r: Option<Self>) {
        transform.transform_triangle(&self)
    }

    proof fn lemma_image_valid(&self, t: Affine, image: &Self) {
    }

    proof fn lemma_image_stored(&self, t: Affine, image: &Self) {
    }

    proof fn lemma_identity(&self, image: &Self) {
        lemma_identity_apply(self.a@);
        lemma_identity_apply(self.b@);
        lemma_identity_apply(self.c@);
        if self.maps_to(Affine::identity(), image) {
            assert(self.a == image.a && self.b == image.b && self.c == image.c);
            assert(*self == *image);
        }
        if self.same_as(image) {
            assert(triangle_maps_to(*self, Affine::identity(), *image));
        }
    }

    proof fn lemma_unique(&self, t: Affine, one: &Self, other: &Self) {
    }

    proof fn lemma_composition(&self, middle: &Self, last: &Self, first: Affine, second: Affine) {
        lemma_after_apply(second, first, self.a@);
        lemma_after_apply(second, first, self.b@);
        lemma_after_apply(second, first, self.c@);
    }
}

/// The curve coordinate of a vertex on a transformed curve. The coordinate
/// that the vertex had is held against the transformed curve: where it names
/// the transformed position there, it is kept. Where it does not, the
/// coordinate of the transformed position is looked for anew; the old
/// coordinate stays only where the position has none.
pub open spec fn renewed_coordinate(curve: Curve, position: Vec3, kept: i64) -> i64 {
    if curve.spec_point(kept as int) == position {
        kept
    } else {
        match curve.spec_coord_of(position) {
            Some(found) => found as i64,
            None => kept,
        }
    }
}

/// Whether `image` is what `t` makes of a vertex of an edge whose curve
/// becomes `curve`: the transformed global vertex, with its coordinate on the
/// transformed curve.
pub open spec fn vertex_maps_to(vertex: Vertex, t: Affine, curve: Curve, image: Vertex) -> bool {
    &&& vertex.global.maps_to(t, &image.global)
    &&& image.local == renewed_coordinate(curve, image.global.position@, vertex.local)
}

/// The curve coordinate of a transformed vertex on the transformed curve.
fn renew_coordinate(curve: &Curve, global: &GlobalVertex, kept: i64) -> (r: i64)
    ensures
        r == renewed_coordinate(*curve, global.position@, kept),
{
    let still = match curve.point_from_curve_coord(kept) {
        Some(named) => named == global.position,
        None => false,
    };
    if still {
        kept
    } else {
        match curve.curve_coord_of(&global.position) {
            Some(found) => found,
            None => kept,
        }
    }
}

impl Edge {
    /// Transforms the edge: its curve and the global position of each of its
    /// vertices, whose curve coordinates are renewed against the transformed
    /// curve. The direction in which the edge runs along its curve stays as
    /// it is.
    pub fn transform(self, transform: &Transform) -> (r: Option<Self>)
        ensures
            match r {
                Some(image) => self.maps_to(transform@, &image),
                None => !self.transformable(transform@),
            },
    {
        let curve = match self.curve.transform(transform) {
            Some(curve) => curve,
            None => {
                return None;
            },
        };
        let vertices = match self.vertices {
            Some(vs) => match (
                vs[0].global.transform(transform),
                vs[1].global.transform(transform),
            ) {
                (Some(first), Some(second)) => Some(
                    [
                        Vertex::new(renew_coordinate(&curve, &first, vs[0].local), first),
                        Vertex::new(renew_coordinate(&curve, &second, vs[1].local), second),
                    ],
                ),
                _ => {
                    return None;
                },
            },
            None => None,
        };
        Some(Edge { curve, vertices, reverse: self.reverse })
    }
}

impl TransformObject for Edge {
    open spec fn maps_to(&self, t: Affine, image: &Self) -> bool {
        &&& self.curve.maps_to(t, &image.curve)
        &&& image.reverse == self.reverse
        &&& match (self.vertices, image.vertices) {
            (Some(vs), Some(ws)) => vertex_maps_to(vs[0], t, image.curve, ws[0]) && vertex_maps_to(
                vs[1],
                t,
                image.curve,
                ws[1],
            ),
            (None, None) => true,
            _ => false,
        }
    }

    open spec fn transformable(&self, t: Affine) -> bool {
        &&& self.curve.transformable(t)
        &&& match self.vertices {
            Some(vs) => vs[0].transformable(t) && vs[1].transformable(t),
            None => true,
        }
    }

    open spec fn same_as(&self, other: &Self) -> bool {
        &&& self.curve == other.curve
        &&& self.reverse == other.reverse
        &&& match (self.vertices, other.vertices) {
            (Some(vs), Some(ws)) => vs[0] == ws[0] && vs[1] == ws[1],
            (None, None) => true,
            _ => false,
        }
    }

    open spec fn valid(&self) -> bool {
        self.wf()
    }

    fn transform(self, transform: &Transform) -> (r: Option<Self>) {
        Edge::transform(self, transform)
    }

    proof fn lemma_image_valid(&self, t: Affine, image: &Self) {
        match (self.vertices, image.vertices) {
            (Some(vs), Some(ws)) => {
                lemma_curve_point_image(self.curve, t, image.curve, vs[0].local as int);
                lemma_curve_point_image(self.curve, t, image.curve, vs[1].local as int);
            },
            _ => {},
        }
    }

    proof fn lemma_image_stored(&self, t: Affine, image: &Self) {
    }

    proof fn lemma_identity(&self, image: &Self) {
        self.curve.lemma_identity(&image.curve);
        match (self.vertices, image.vertices) {
            (Some(vs), Some(ws)) => {
                vs[0].global.lemma_identity(&ws[0].global);
                vs[1].global.lemma_identity(&ws[1].global);
            },
            _ => {},
        }
    }

    proof fn lemma_unique(&self, t: Affine, one: &Self, other: &Self) {
    }

    proof fn lemma_composition(&self, middle: &Self, last: &Self, first: Affine, second: Affine) {
        self.curve.lemma_composition(&middle.curve, &last.curve, first, second);
        match (self.vertices, middle.vertices, last.vertices) {
            (Some(us), Some(vs), Some(ws)) => {
                us[0].global.lemma_composition(&vs[0].global, &ws[0].global, first, second);
                us[1].global.lemma_composition(&vs[1].global, &ws[1].global, first, second);
                lemma_curve_point_image(self.curve, first, middle.curve, us[0].local as int);
                lemma_curve_point_image(self.curve, first, middle.curve, us[1].local as int);
            },
            _ => {},
        }
    }
}

/// A transform keeps the two halves of each vertex in step: where the
/// vertices of an edge lie on its curve, the vertices of the transformed edge
/// lie on the transformed curve, at the same curve coordinates.
pub proof fn lemma_transform_keeps_vertices_on_curve(edge: Edge, t: Affine, image: Edge)
    requires
        edge.wf(),
        edge.maps_to(t, &image),
    ensures
        image.wf(),
        edge.vertices matches Some(vs) ==> image.vertices.unwrap()[0].local == vs[0].local
            && image.vertices.unwrap()[1].local == vs[1].local,
{
    match (edge.vertices, image.vertices) {
        (Some(vs), Some(ws)) => {
            lemma_curve_point_image(edge.curve, t, image.curve, vs[0].local as int);
            lemma_curve_point_image(edge.curve, t, image.curve, vs[1].local as int);
        },
        _ => {},
    }
}

/// The curve coordinate that a vertex of a valid edge keeps under a
/// transform is the one that is found when it is looked for anew: on the
/// transformed curve, where that is a line with a direction, the coordinate
/// of the transformed vertex is the coordinate that the vertex had.
pub proof fn lemma_kept_coordinate_is_found_anew(edge: Edge, t: Affine, image: Edge, which: int)
    requires
        edge.wf(),
        edge.maps_to(t, &image),
        edge.vertices is Some,
        0 <= which < 2,
        image.curve matches Curve::Line(line) && line.direction@ != Vec3::zero(),
    ensures
        image.curve.spec_coord_of(image.vertices.unwrap()[which].global.position@) == Some(
            edge.vertices.unwrap()[which].local as int,
        ),
{
    lemma_transform_keeps_vertices_on_curve(edge, t, image);
    lemma_coord_found(image.curve, edge.vertices.unwrap()[which].local as int);
}

impl Cycle {
    /// What the transform makes of the cycle: of each edge, in order.
    pub fn transformed(&self, transform: &Transform) -> (r: Option<Cycle>)
        ensures
            match r {
                Some(image) => self.maps_to(transform@, &image),
                None => !self.transformable(transform@),
            },
    {
        let mut edges: Vec<Edge> = Vec::new();
        let mut i: usize = 0;
        while i < self.edges.len()
            invariant
                i <= self.edges@.len(),
                edges@.len() == i,
                forall|j: int|
                    0 <= j < i ==> (#[trigger] self.edges@[j]).maps_to(transform@, &edges@[j]),
            decreases self.edges@.len() - i,
        {
            let edge: Edge = self.edges[i];
            match edge.transform(transform) {
                Some(image) => {
                    edges.push(image);
                },
                None => {
                    assert(!self.edges@[i as int].transformable(transform@));
                    return None;
                },
            }
            i += 1;
        }
        Some(Cycle { edges })
    }
}

impl TransformObject for Cycle {
    open spec fn maps_to(&self, t: Affine, image: &Self) -> bool {
        all_map_to(self.edges@, t, image.edges@)
    }

    open spec fn transformable(&self, t: Affine) -> bool {
        all_transformable(self.edges@, t)
    }

    open spec fn same_as(&self, other: &Self) -> bool {
        all_same(self.edges@, other.edges@)
    }

    open spec fn valid(&self) -> bool {
        all_valid(self.edges@)
    }

    fn transform(self, transform: &Transform) -> (r: Option<Self>) {
        self.transformed(transform)
    }

    proof fn lemma_image_valid(&self, t: Affine, image: &Self) {
        lemma_all_image_valid(self.edges@, t, image.edges@);
    }

    proof fn lemma_image_stored(&self, t: Affine, image: &Self) {
        lemma_all_image_stored(self.edges@, t, image.edges@);
    }

    proof fn lemma_identity(&self, image: &Self) {
        lemma_all_identity(self.edges@, image.edges@);
    }

    proof fn lemma_unique(&self, t: Affine, one: &Self, other: &Self) {
        lemma_all_unique(self.edges@, t, one.edges@, other.edges@);
    }

    proof fn lemma_composition(&self, middle: &Self, last: &Self, first: Affine, second: Affine) {
        lemma_all_composition(self.edges@, middle.edges@, last.edges@, first, second);
    }
}

/// What the transform makes of each of the cycles, in order.
pub fn transform_cycles(cycles: &Vec<Cycle>, transform: &Transform) -> (r: Option<Vec<Cycle>>)
    ensures
        match r {
            Some(images) => all_map_to(cycles@, transform@, images@),
            None => !all_transformable(cycles@, transform@),
        },
{
    let mut images: Vec<Cycle> = Vec::new();
    let mut i: usize = 0;
    while i < cycles.len()
        invariant
            i <= cycles@.len(),
            images@.len() == i,
            forall|j: int| 0 <= j < i ==> (#[trigger] cycles@[j]).maps_to(transform@, &images@[j]),
        decreases cycles@.len() - i,
    {
        match cycles[i].transformed(transform) {
            Some(image) => {
                images.push(image);
            },
            None => {
                assert(!cycles@[i as int].transformable(transform@));
                return None;
            },
        }
        i += 1;
    }
    Some(images)
}

impl Edges {
    /// Transforms the edges: every edge of every cycle.
    pub fn transform(self, transform: &Transform) -> (r: Option<Self>)
        ensures
            match r {
                Some(image) => all_map_to(self.cycles@, transform@, image.cycles@),
                None => !all_transformable(self.cycles@, transform@),
            },
    {
        match transform_cycles(&self.cycles, transform) {
            Some(cycles) => Some(Edges { cycles }),
            None => None,
        }
    }
}

/// Whether `images` holds, place by place, what `t` makes of the triangles,
/// each with its colour unchanged.
pub open spec fn triangles_map_to(
    triangles: Seq<(Triangle, Color)>,
    t: Affine,
    images: Seq<(Triangle, Color)>,
) -> bool {
    &&& triangles.len() == images.len()
    &&& forall|i: int|
        0 <= i < triangles.len() ==> triangle_maps_to((#[trigger] triangles[i]).0, t, images[i].0)
            && images[i].1 == triangles[i].1
}

/// Whether what `t` makes of each of the triangles can be stored.
pub open spec fn triangles_transformable(triangles: Seq<(Triangle, Color)>, t: Affine) -> bool {
    forall|i: int|
        0 <= i < triangles.len() ==> triangle_transformable((#[trigger] triangles[i]).0, t)
}

/// What the transform makes of each of the triangles, each with its colour.
pub fn transform_triangles(triangles: &Vec<(Triangle, Color)>, transform: &Transform) -> (r: Option<
    Vec<(Triangle, Color)>,
>)
    ensures
        match r {
            Some(images) => triangles_map_to(triangles@, transform@, images@),
            None => !triangles_transformable(triangles@, transform@),
        },
{
    let mut target: Vec<(Triangle, Color)> = Vec::new();
    let mut i: usize = 0;
    while i < triangles.len()
        invariant
            i <= triangles@.len(),
            target@.len() == i,
            forall|j: int|
                0 <= j < i ==> triangle_maps_to(
                    (#[trigger] triangles@[j]).0,
                    transform@,
                    target@[j].0,
                ) && target@[j].1 == triangles@[j].1,
        decreases triangles@.len() - i,
    {
        let (triangle, color) = triangles[i];
        match transform.transform_triangle(&triangle) {
            Some(image) => {
                target.push((image, color));
            },
            None => {
                assert(!triangle_transformable(triangles@[i as int].0, transform@));
                return None;
            },
        }
        i += 1;
    }
    Some(target)
}

impl Face {
    /// What the transform makes of the face. Of a face bounded by cycles: its
    /// surface and every cycle, the exterior cycles staying exterior and the
    /// interior cycles interior, with the colour unchanged. Of a face given
    /// as triangles: every triangle, each with its colour.
    pub fn transformed(&self, transform: &Transform) -> (r: Option<Face>)
        ensures
            match r {
                Some(image) => self.maps_to(transform@, &image),
                None => !self.transformable(transform@),
            },
    {
        match self {
            Face::Face(face) => {
                let surface = match face.surface.transform(transform) {
                    Some(surface) => surface,
                    None => {
                        return None;
                    },
                };
                let exteriors = match transform_cycles(&face.exteriors, transform) {
                    Some(cycles) => cycles,
                    None => {
                        return None;
                    },
                };
                let interiors = match transform_cycles(&face.interiors, transform) {
                    Some(cycles) => cycles,
                    None => {
                        return None;
                    },
                };
                let color = face.color;
                Some(Face::Face(FaceBRep { surface, exteriors, interiors, color }))
            },
            Face::Triangles(triangles) => match transform_triangles(triangles, transform) {
                Some(target) => Some(Face::Triangles(target)),
                None => None,
            },
        }
    }
}

impl TransformObject for Face {
    open spec fn maps_to(&self, t: Affine, image: &Self) -> bool {
        match (self, image) {
            (Face::Face(face), Face::Face(other)) => {
                &&& face.surface.maps_to(t, &other.surface)
                &&& all_map_to(face.exteriors@, t, other.exteriors@)
                &&& all_map_to(face.interiors@, t, other.interiors@)
                &&& other.color == face.color
            },
            (Face::Triangles(triangles), Face::Triangles(others)) => triangles_map_to(
                triangles@,
                t,
                others@,
            ),
            _ => false,
        }
    }

    open spec fn transformable(&self, t: Affine) -> bool {
        match self {
            Face::Face(face) => {
                &&& face.surface.transformable(t)
                &&& all_transformable(face.exteriors@, t)
                &&& all_transformable(face.interiors@, t)
            },
            Face::Triangles(triangles) => triangles_transformable(triangles@, t),
        }
    }

    open spec fn same_as(&self, other: &Self) -> bool {
        match (self, other) {
            (Face::Face(face), Face::Face(other)) => {
                &&& face.surface == other.surface
                &&& all_same(face.exteriors@, other.exteriors@)
                &&& all_same(face.interiors@, other.interiors@)
                &&& face.color == other.color
            },
            (Face::Triangles(triangles), Face::Triangles(others)) => triangles@ == others@,
            _ => false,
        }
    }

    open spec fn valid(&self) -> bool {
        match self {
            Face::Face(face) => all_valid(face.exteriors@) && all_valid(face.interiors@),
            Face::Triangles(_) => true,
        }
    }

    fn transform(self, transform: &Transform) -> (r: Option<Self>) {
        self.transformed(transform)
    }

    proof fn lemma_image_valid(&self, t: Affine, image: &Self) {
        match (self, image) {
            (Face::Face(face), Face::Face(other)) => {
                lemma_all_image_valid(face.exteriors@, t, other.exteriors@);
                lemma_all_image_valid(face.interiors@, t, other.interiors@);
            },
            _ => {},
        }
    }

    proof fn lemma_image_stored(&self, t: Affine, image: &Self) {
        match (self, image) {
            (Face::Face(face), Face::Face(other)) => {
                lemma_all_image_stored(face.exteriors@, t, other.exteriors@);
                lemma_all_image_stored(face.interiors@, t, other.interiors@);
            },
            (Face::Triangles(triangles), Face::Triangles(others)) => {
                assert forall|i: int| 0 <= i < triangles@.len() implies triangle_transformable(
                    (#[trigger] triangles@[i]).0,
                    t,
                ) by {
                    assert(triangle_maps_to(triangles@[i].0, t, others@[i].0));
                }
            },
            _ => {},
        }
    }

    proof fn lemma_identity(&self, image: &Self) {
        match (self, image) {
            (Face::Face(face), Face::Face(other)) => {
                face.surface.lemma_identity(&other.surface);
                lemma_all_identity(face.exteriors@, other.exteriors@);
                lemma_all_identity(face.interiors@, other.interiors@);
            },
            (Face::Triangles(triangles), Face::Triangles(others)) => {
                let id = Affine::identity();
                if triangles@.len() == others@.len() {
                    assert forall|i: int| 0 <= i < triangles@.len() implies (triangle_maps_to(
                        (#[trigger] triangles@[i]).0,
                        id,
                        others@[i].0,
                    ) && others@[i].1 == triangles@[i].1) == (triangles@[i] == others@[i]) by {
                        triangles@[i].0.lemma_identity(&others@[i].0);
                    }
                    if triangles_map_to(triangles@, id, others@) {
                        assert(triangles@ =~= others@);
                    }
                }
            },
            _ => {},
        }
    }

    proof fn lemma_unique(&self, t: Affine, one: &Self, other: &Self) {
        match (self, one, other) {
            (Face::Face(face), Face::Face(a), Face::Face(b)) => {
                lemma_all_unique(face.exteriors@, t, a.exteriors@, b.exteriors@);
                lemma_all_unique(face.interiors@, t, a.interiors@, b.interiors@);
            },
            (Face::Triangles(triangles), Face::Triangles(a), Face::Triangles(b)) => {
                assert forall|i: int| 0 <= i < a@.len() implies a@[i] == b@[i] by {
                    assert(triangle_maps_to(triangles@[i].0, t, a@[i].0));
                    assert(triangle_maps_to(triangles@[i].0, t, b@[i].0));
                }
                assert(a@ =~= b@);
            },
            _ => {},
        }
    }

    proof fn lemma_composition(&self, middle: &Self, last: &Self, first: Affine, second: Affine) {
        match (self, middle, last) {
            (Face::Face(a), Face::Face(b), Face::Face(c)) => {
                a.surface.lemma_composition(&b.surface, &c.surface, first, second);
                lemma_all_composition(a.exteriors@, b.exteriors@, c.exteriors@, first, second);
                lemma_all_composition(a.interiors@, b.interiors@, c.interiors@, first, second);
            },
            (Face::Triangles(a), Face::Triangles(b), Face::Triangles(c)) => {
                assert forall|i: int| 0 <= i < a@.len() implies triangle_maps_to(
                    (#[trigger] a@[i]).0,
                    second.after(first),
                    c@[i].0,
                ) && c@[i].1 == a@[i].1 by {
                    assert(triangle_maps_to(a@[i].0, first, b@[i].0));
                    assert(triangle_maps_to(b@[i].0, second, c@[i].0));
                    a@[i].0.lemma_composition(&b@[i].0, &c@[i].0, first, second);
                }
            },
            _ => {},
        }
    }
}

/// What the transform makes of each of the faces, in order.
pub fn transformed_faces(faces: &Vec<Face>, transform: &Transform) -> (r: Option<Vec<Face>>)
    ensures
        match r {
            Some(images) => all_map_to(faces@, transform@, images@),
            None => !all_transformable(faces@, transform@),
        },
{
    let mut images: Vec<Face> = Vec::new();
    let mut i: usize = 0;
    while i < faces.len()
        invariant
            i <= faces@.len(),
            images@.len() == i,
            forall|j: int| 0 <= j < i ==> (#[trigger] faces@[j]).maps_to(transform@, &images@[j]),
        decreases faces@.len() - i,
    {
        match faces[i].transformed(transform) {
            Some(image) => {
                images.push(image);
            },
            None => {
                assert(!faces@[i as int].transformable(transform@));
                return None;
            },
        }
        i += 1;
    }
    Some(images)
}

/// Transforms the faces of a shape in place and says whether it did. Where
/// the image of one of them cannot be stored, the faces stay as they were.
pub fn transform_faces(faces: &mut Vec<Face>, transform: &Transform) -> (done: bool)
    ensures
        done ==> all_map_to(old(faces)@, transform@, final(faces)@),
        !done ==> *final(faces) == *old(faces) && !all_transformable(old(faces)@, transform@),
{
    match transformed_faces(faces, transform) {
        Some(images) => {
            *faces = images;
            true
        },
        None => false,
    }
}

impl TransformObject for Sketch {
    open spec fn maps_to(&self, t: Affine, image: &Self) -> bool {
        all_map_to(self.faces@, t, image.faces@)
    }

    open spec fn transformable(&self, t: Affine) -> bool {
        all_transformable(self.faces@, t)
    }

    open spec fn same_as(&self, other: &Self) -> bool {
        all_same(self.faces@, other.faces@)
    }

    open spec fn valid(&self) -> bool {
        all_valid(self.faces@)
    }

    fn transform(self, transform: &Transform) -> (r: Option<Self>) {
        let faces = self.into_faces();
        match transformed_faces(&faces, transform) {
            Some(images) => Some(Sketch::from_faces(images)),
            None => None,
        }
    }

    proof fn lemma_image_valid(&self, t: Affine, image: &Self) {
        lemma_all_image_valid(self.faces@, t, image.faces@);
    }

    proof fn lemma_image_stored(&self, t: Affine, image: &Self) {
        lemma_all_image_stored(self.faces@, t, image.faces@);
    }

    proof fn lemma_identity(&self, image: &Self) {
        lemma_all_identity(self.faces@, image.faces@);
    }

    proof fn lemma_unique(&self, t: Affine, one: &Self, other: &Self) {
        lemma_all_unique(self.faces@, t, one.faces@, other.faces@);
    }

    proof fn lemma_composition(&self, middle: &Self, last: &Self, first: Affine, second: Affine) {
        lemma_all_composition(self.faces@, middle.faces@, last.faces@, first, second);
    }
}

impl TransformObject for Solid {
    open spec fn maps_to(&self, t: Affine, image: &Self) -> bool {
        all_map_to(self.faces@, t, image.faces@)
    }

    open spec fn transformable(&self, t: Affine) -> bool {
        all_transformable(self.faces@, t)
    }

    open spec fn same_as(&self, other: &Self) -> bool {
        all_same(self.faces@, other.faces@)
    }

    open spec fn valid(&self) -> bool {
        all_valid(self.faces@)
    }

    fn transform(self, transform: &Transform) -> (r: Option<Self>) {
        let faces = self.into_faces();
        match transformed_faces(&faces, transform) {
            Some(images) => Some(Solid::from_faces(images)),
            None => None,
        }
    }

    proof fn lemma_image_valid(&self, t: Affine, image: &Self) {
        lemma_all_image_valid(self.faces@, t, image.faces@);
    }

    proof fn lemma_image_stored(&self, t: Affine, image: &Self) {
        lemma_all_image_stored(self.faces@, t, image.faces@);
    }

    proof fn lemma_identity(&self, image: &Self) {
        lemma_all_identity(self.faces@, image.faces@);
    }

    proof fn lemma_unique(&self, t: Affine, one: &Self, other: &Self) {
        lemma_all_unique(self.faces@, t, one.faces@, other.faces@);
    }

    proof fn lemma_composition(&self, middle: &Self, last: &Self, first: Affine, second: Affine) {
        lemma_all_composition(self.faces@, middle.faces@, last.faces@, first, second);
    }
}

} // verus!
