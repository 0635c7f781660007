//! Surfaces, each with a map from a pair of surface coordinates to a point.

use vstd::prelude::*;
use crate::geometry::curve::{Curve, Line};
use crate::math::point::{Point, Vector};
use crate::math::scalar::{narrow, product, scaled};
use crate::math::space::Vec3;
use crate::math::transform::Axis;

verus! {

/// The surface that `curve` sweeps when it is moved along `path`. The surface
/// coordinates `(u, v)` name the point of the curve at `u`, moved by
/// `v * path`.
#[derive(Clone, Copy, Debug, PartialEq, Eq, Structural)]
pub struct SweptCurve {
    pub curve: Curve,
    pub path: Vector,
}

/// A surface in space.
#[derive(Clone, Copy, Debug, PartialEq, Eq, Structural)]
pub enum Surface {
    SweptCurve(SweptCurve),
}

/// The cross product of two displacements.
pub open spec fn cross(a: Vec3, b: Vec3) -> Vec3 {
    Vec3 { x: a.y * b.z - a.z * b.y, y: a.z * b.x - a.x * b.z, z: a.x * b.y - a.y * b.x }
}

impl SweptCurve {
    /// The point at surface coordinates `(u, v)`.
    pub open spec fn spec_point(&self, u: int, v: int) -> Vec3 {
        self.curve.spec_point(u).plus(self.path@.times(v))
    }

    /// For a swept line, a vector at right angles to the surface; zero where
    /// the line has no direction or runs along the path. A swept circle has
    /// no such vector.
    pub open spec fn spec_normal(&self) -> Option<Vec3> {
        match self.curve {
            Curve::Line(line) => Some(cross(line.direction@, self.path@)),
            Curve::Circle(_) => None,
        }
    }

    /// The axis along which a plane can be flattened without folding it: the
    /// last axis on which its normal does not vanish. A surface that is no
    /// plane has none.
    pub open spec fn spec_flattening_axis(&self) -> Option<Axis> {
        match self.spec_normal() {
            Some(n) => if n.z != 0 {
                Some(Axis::Z)
            } else if n.y != 0 {
                Some(Axis::Y)
            } else if n.x != 0 {
                Some(Axis::X)
            } else {
                None
            },
            None => None,
        }
    }

    /// The point at surface coordinates `(u, v)`, if its coordinates can be
    /// stored.
    pub fn point_from_surface_coords(&self, u: i64, v: i64) -> (r: Option<Point>)
        ensures
            match r {
                Some(p) => p@ == self.spec_point(u as int, v as int),
                None => !self.spec_point(u as int, v as int).representable(),
            },
    {
        let (x, y, z) = self.curve.wide_point(u);
        let x = narrow(x + scaled(self.path.x, v));
        let y = narrow(y + scaled(self.path.y, v));
        let z = narrow(z + scaled(self.path.z, v));
        match (x, y, z) {
            (Some(x), Some(y), Some(z)) => Some(Point { x, y, z }),
            _ => None,
        }
    }

    /// The axis along which the surface can be flattened, if it is a plane.
    pub fn flattening_axis(&self) -> (r: Option<Axis>)
        ensures
            r == self.spec_flattening_axis(),
    {
        match self.curve {
            Curve::Line(line) => {
                let d = line.direction;
                let p = self.path;
                if product(d.x, p.y) as i128 - product(d.y, p.x) as i128 != 0 {
                    Some(Axis::Z)
                } else if product(d.z, p.x) as i128 - product(d.x, p.z) as i128 != 0 {
                    Some(Axis::Y)
                } else if product(d.y, p.z) as i128 - product(d.z, p.y) as i128 != 0 {
                    Some(Axis::X)
                } else {
                    None
                }
            },
            Curve::Circle(_) => None,
        }
    }
}

impl Surface {
    /// The point at surface coordinates `(u, v)`.
    pub open spec fn spec_point(&self, u: int, v: int) -> Vec3 {
        match self {
            Surface::SweptCurve(swept) => swept.spec_point(u, v),
        }
    }

    /// The axis along which the surface can be flattened, if it is a plane.
    pub open spec fn spec_flattening_axis(&self) -> Option<Axis> {
        match self {
            Surface::SweptCurve(swept) => swept.spec_flattening_axis(),
        }
    }

    /// The plane through `origin` spanned by `u` and `v`.
    pub fn plane(origin: Point, u: Vector, v: Vector) -> (r: Self)
        ensures
            r == Surface::SweptCurve(
                SweptCurve { curve: Curve::Line(Line { origin, direction: u }), path: v },
            ),
    {
        Surface::SweptCurve(
            SweptCurve { curve: Curve::Line(Line { origin, direction: u }), path: v },
        )
    }

    /// The plane of the first two axes, with their coordinates as surface
    /// coordinates.
    pub fn xy_plane() -> (r: Self)
        ensures
            forall|u: int, v: int| r.spec_point(u, v) == (Vec3 { x: u, y: v, z: 0 }),
            r.spec_flattening_axis() == Some(Axis::Z),
    {
        let r = Surface::plane(
            Point { x: 0, y: 0, z: 0 },
            Vector { x: 1, y: 0, z: 0 },
            Vector { x: 0, y: 1, z: 0 },
        );
        assert forall|u: int, v: int| r.spec_point(u, v) == (Vec3 { x: u, y: v, z: 0 }) by {
            assert(1 * u == u && 0 * u == 0 && 1 * v == v && 0 * v == 0) by (nonlinear_arith);
        }
        r
    }

    /// The point at surface coordinates `(u, v)`, if its coordinates can be
    /// stored.
    pub fn point_from_surface_coords(&self, u: i64, v: i64) -> (r: Option<Point>)
        ensures
            match r {
                Some(p) => p@ == self.spec_point(u as int, v as int),
                None => !self.spec_point(u as int, v as int).representable(),
            },
    {
        match self {
            Surface::SweptCurve(swept) => swept.point_from_surface_coords(u, v),
        }
    }

    /// The axis along which the surface can be flattened, if it is a plane.
    pub fn flattening_axis(&self) -> (r: Option<Axis>)
        ensures
            r == self.spec_flattening_axis(),
    {
        match self {
            Surface::SweptCurve(swept) => swept.flattening_axis(),
        }
    }
}

} // verus!
