//! Vertices: a position in space, and a position on a curve paired with it.

use vstd::prelude::*;
use crate::geometry::curve::Curve;
use crate::math::point::Point;

verus! {

/// A vertex of a shape, known by its position in space. Edges of adjacent
/// faces that meet in one place hold equal global vertices.
#[derive(Clone, Copy, Debug, PartialEq, Eq, Structural)]
pub struct GlobalVertex {
    pub position: Point,
}

impl GlobalVertex {
    pub fn from_position(position: Point) -> (r: Self)
        ensures
            r.position == position,
    {
        GlobalVertex { position }
    }

    pub fn position(&self) -> (r: Point)
        ensures
            r == self.position,
    {
        self.position
    }
}

/// A vertex on a curve: its curve coordinate, paired with the global vertex
/// that the coordinate names.
#[derive(Clone, Copy, Debug, PartialEq, Eq, Structural)]
pub struct Vertex {
    pub local: i64,
    pub global: GlobalVertex,
}

impl Vertex {
    /// Whether the two halves agree: the curve coordinate names the global
    /// position on `curve`.
    pub open spec fn lies_on(&self, curve: &Curve) -> bool {
        curve.spec_point(self.local as int) == self.global.position@
    }

    /// The pair of a curve coordinate and a global vertex.
    pub fn new(local: i64, global: GlobalVertex) -> (r: Self)
        ensures
            r.local == local,
            r.global == global,
    {
        Vertex { local, global }
    }

    /// The vertex at curve coordinate `local` of `curve`, with the global
    /// position that the coordinate names, if that position can be stored.
    pub fn on_curve(curve: &Curve, local: i64) -> (r: Option<Self>)
        ensures
            match r {
                Some(vertex) => vertex.local == local && vertex.lies_on(curve),
                None => !curve.spec_point(local as int).representable(),
            },
    {
        match curve.point_from_curve_coord(local) {
            Some(position) => Some(Vertex { local, global: GlobalVertex { position } }),
            None => None,
        }
    }

    /// The vertex of `curve` at the global vertex `global`, with the curve
    /// coordinate found for it, if `global` is a point of the curve.
    pub fn at_global(curve: &Curve, global: GlobalVertex) -> (r: Option<Self>)
        ensures
            match r {
                Some(vertex) => vertex.global == global && vertex.lies_on(curve)
                    && curve.spec_coord_of(global.position@) == Some(vertex.local as int),
                None => curve.spec_coord_of(global.position@) is None,
            },
    {
        match curve.curve_coord_of(&global.position) {
            Some(local) => Some(Vertex { local, global }),
            None => None,
        }
    }

    /// The curve coordinate.
    pub fn position(&self) -> (r: i64)
        ensures
            r == self.local,
    {
        self.local
    }

    /// The global vertex.
    pub fn global(&self) -> (r: GlobalVertex)
        ensures
            r == self.global,
    {
        self.global
    }
}

} // verus!
