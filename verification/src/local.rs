//! Local forms: a coordinate on a curve or on a surface, paired with the
//! point of space that it names.

use vstd::prelude::*;
use crate::algorithms::transform::{
    lemma_curve_point_image, lemma_surface_point_image, TransformObject,
};
use crate::geometry::curve::Curve;
use crate::geometry::surface::Surface;
use crate::math::point::Point;
use crate::math::space::{lemma_after_apply, lemma_identity_apply, Affine};
use crate::math::transform::Transform;

verus! {

/// A pair of surface coordinates.
#[derive(Clone, Copy, Debug, PartialEq, Eq, Structural)]
pub struct SurfaceCoords {
    pub u: i64,
    pub v: i64,
}

/// A coordinate in the local space of a curve or a surface, paired with the
/// point of space that it names there.
///
/// The two halves are made together and change together: a pair is made
/// from a coordinate and the curve or surface that gives it its meaning, and
/// a transform, which moves the curve or surface along with the points on it,
/// keeps the coordinate and moves the point. Neither half can be set alone.
#[derive(Clone, Copy, Debug, PartialEq, Eq)]
pub struct Local<T> {
    local: T,
    global: Point,
}

impl<T> Local<T> {
    /// The local coordinate.
    pub closed spec fn spec_local(&self) -> T {
        self.local
    }

    /// The point of space.
    pub closed spec fn spec_global(&self) -> Point {
        self.global
    }

    /// The local coordinate.
    pub fn local(&self) -> (r: &T)
        ensures
            *r == self.spec_local(),
    {
        &self.local
    }

    /// The point of space.
    pub fn global(&self) -> (r: Point)
        ensures
            r == self.spec_global(),
    {
        self.global
    }
}

impl Local<i64> {
    /// Whether the two halves agree on `curve`: the coordinate names the
    /// point.
    pub open spec fn in_step_with(&self, curve: &Curve) -> bool {
        curve.spec_point(self.spec_local() as int) == self.spec_global()@
    }

    /// The pair of a curve coordinate and the point that it names on
    /// `curve`, if that point can be stored.
    pub fn on_curve(curve: &Curve, coord: i64) -> (r: Option<Self>)
        ensures
            match r {
                Some(pair) => pair.spec_local() == coord && pair.in_step_with(curve),
                None => !curve.spec_point(coord as int).representable(),
            },
    {
        match curve.point_from_curve_coord(coord) {
            Some(global) => Some(Local { local: coord, global }),
            None => None,
        }
    }
}

impl Local<SurfaceCoords> {
    /// Whether the two halves agree on `surface`: the coordinates name the
    /// point.
    pub open spec fn in_step_with(&self, surface: &Surface) -> bool {
        surface.spec_point(self.spec_local().u as int, self.spec_local().v as int)
            == self.spec_global()@
    }

    /// The pair of surface coordinates and the point that they name on
    /// `surface`, if that point can be stored.
    pub fn on_surface(surface: &Surface, coords: SurfaceCoords) -> (r: Option<Self>)
        ensures
            match r {
                Some(pair) => pair.spec_local() == coords && pair.in_step_with(surface),
                None => !surface.spec_point(coords.u as int, coords.v as int).representable(),
            },
    {
        match surface.point_from_surface_coords(coords.u, coords.v) {
            Some(global) => Some(Local { local: coords, global }),
            None => None,
        }
    }
}

impl<T> TransformObject for Local<T> {
    closed spec fn maps_to(&self, t: Affine, image: &Self) -> bool {
        image.local == self.local && image.global@ == t.apply(self.global@)
    }

    closed spec fn transformable(&self, t: Affine) -> bool {
        t.apply(self.global@).representable()
    }

    closed spec fn same_as(&self, other: &Self) -> bool {
        self.local == other.local && self.global == other.global
    }

    open spec fn valid(&self) -> bool {
        true
    }

    /// Keeps the coordinate and moves the point: on the transformed curve or
    /// surface, the coordinate names the moved point.
    fn transform(self, transform: &Transform) -> (r: Option<Self>) {
        match transform.transform_point(&self.global) {
            Some(global) => Some(Local { local: self.local, global }),
            None => None,
        }
    }

    proof fn lemma_image_valid(&self, t: Affine, image: &Self) {
    }

    proof fn lemma_image_stored(&self, t: Affine, image: &Self) {
    }

    proof fn lemma_identity(&self, image: &Self) {
        lemma_identity_apply(self.global@);
    }

    proof fn lemma_unique(&self, t: Affine, one: &Self, other: &Self) {
    }

    proof fn lemma_composition(&self, middle: &Self, last: &Self, first: Affine, second: Affine) {
        lemma_after_apply(second, first, self.global@);
    }
}

/// What a transform makes of a pair has the coordinate of the pair, and for
/// its point the image of the point of the pair.
pub proof fn lemma_local_image<T>(pair: Local<T>, t: Affine, image: Local<T>)
    ensures
        pair.maps_to(t, &image) == (image.spec_local() == pair.spec_local()
            && image.spec_global()@ == t.apply(pair.spec_global()@)),
        pair.same_as(&image) == (image.spec_local() == pair.spec_local() && image.spec_global()
            == pair.spec_global()),
        pair.transformable(t) == t.apply(pair.spec_global()@).representable(),
{
}

/// A transform keeps the two halves of a pair on a curve in step: where the
/// coordinate names the point on the curve, it names the transformed point
/// on the transformed curve.
pub proof fn lemma_stays_in_step_with_curve(
    pair: Local<i64>,
    curve: Curve,
    t: Affine,
    image: Local<i64>,
    curve_image: Curve,
)
    requires
        pair.in_step_with(&curve),
        pair.maps_to(t, &image),
        curve.maps_to(t, &curve_image),
    ensures
        image.in_step_with(&curve_image),
{
    lemma_local_image(pair, t, image);
    lemma_curve_point_image(curve, t, curve_image, pair.spec_local() as int);
}

/// A transform keeps the two halves of a pair on a surface in step: where
/// the coordinates name the point on the surface, they name the transformed
/// point on the transformed surface.
pub proof fn lemma_stays_in_step_with_surface(
    pair: Local<SurfaceCoords>,
    surface: Surface,
    t: Affine,
    image: Local<SurfaceCoords>,
    surface_image: Surface,
)
    requires
        pair.in_step_with(&surface),
        pair.maps_to(t, &image),
        surface.maps_to(t, &surface_image),
    ensures
        image.in_step_with(&surface_image),
{
    lemma_local_image(pair, t, image);
    lemma_surface_point_image(
        surface,
        t,
        surface_image,
        pair.spec_local().u as int,
        pair.spec_local().v as int,
    );
}

} // verus!
