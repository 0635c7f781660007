//! Faces: a surface with the cycles that bound a region of it, or a list of
//! triangles.

use vstd::prelude::*;
use crate::geometry::surface::Surface;
use crate::math::point::Point;
use crate::objects::edge::Cycle;

verus! {

/// A colour, with its red, green, blue and alpha parts.
#[derive(Clone, Copy, Debug, PartialEq, Eq, Structural)]
pub struct Color {
    pub red: u8,
    pub green: u8,
    pub blue: u8,
    pub alpha: u8,
}

impl Color {
    pub fn new(red: u8, green: u8, blue: u8, alpha: u8) -> (r: Self)
        ensures
            r == (Color { red, green, blue, alpha }),
    {
        Color { red, green, blue, alpha }
    }
}

/// A triangle in space.
#[derive(Clone, Copy, Debug, PartialEq, Eq, Structural)]
pub struct Triangle {
    pub a: Point,
    pub b: Point,
    pub c: Point,
}

impl Triangle {
    /// The triangle with the given corners.
    pub fn new(a: [i32; 3], b: [i32; 3], c: [i32; 3]) -> (r: Self)
        ensures
            r.a == (Point { x: a[0], y: a[1], z: a[2] }),
            r.b == (Point { x: b[0], y: b[1], z: b[2] }),
            r.c == (Point { x: c[0], y: c[1], z: c[2] }),
    {
        Triangle { a: Point::from_array(a), b: Point::from_array(b), c: Point::from_array(c) }
    }

    /// The triangle whose corners are the three rows.
    pub fn from_array(corners: [[i32; 3]; 3]) -> (r: Self)
        ensures
            r.a == (Point { x: corners[0][0], y: corners[0][1], z: corners[0][2] }),
            r.b == (Point { x: corners[1][0], y: corners[1][1], z: corners[1][2] }),
            r.c == (Point { x: corners[2][0], y: corners[2][1], z: corners[2][2] }),
    {
        Triangle::new(corners[0], corners[1], corners[2])
    }

    /// The corners, one row each.
    pub fn to_array(&self) -> (r: [[i32; 3]; 3])
        ensures
            r == [
                [self.a.x, self.a.y, self.a.z],
                [self.b.x, self.b.y, self.b.z],
                [self.c.x, self.c.y, self.c.z],
            ],
    {
        [
            [self.a.x, self.a.y, self.a.z],
            [self.b.x, self.b.y, self.b.z],
            [self.c.x, self.c.y, self.c.z],
        ]
    }
}

impl From<[[i32; 3]; 3]> for Triangle {
    fn from(corners: [[i32; 3]; 3]) -> (r: Self) {
        Triangle::from_array(corners)
    }
}

impl vstd::std_specs::convert::FromSpecImpl<[[i32; 3]; 3]> for Triangle {
    open spec fn obeys_from_spec() -> bool {
        true
    }

    open spec fn from_spec(corners: [[i32; 3]; 3]) -> Self {
        Triangle {
            a: Point { x: corners[0][0], y: corners[0][1], z: corners[0][2] },
            b: Point { x: corners[1][0], y: corners[1][1], z: corners[1][2] },
            c: Point { x: corners[2][0], y: corners[2][1], z: corners[2][2] },
        }
    }
}

impl From<Triangle> for [[i32; 3]; 3] {
    fn from(triangle: Triangle) -> (r: Self) {
        triangle.to_array()
    }
}

impl vstd::std_specs::convert::FromSpecImpl<Triangle> for [[i32; 3]; 3] {
    open spec fn obeys_from_spec() -> bool {
        true
    }

    open spec fn from_spec(triangle: Triangle) -> Self {
        [
            [triangle.a.x, triangle.a.y, triangle.a.z],
            [triangle.b.x, triangle.b.y, triangle.b.z],
            [triangle.c.x, triangle.c.y, triangle.c.z],
        ]
    }
}

impl From<&Triangle> for [[i32; 3]; 3] {
    fn from(triangle: &Triangle) -> (r: Self) {
        triangle.to_array()
    }
}

impl vstd::std_specs::convert::FromSpecImpl<&Triangle> for [[i32; 3]; 3] {
    open spec fn obeys_from_spec() -> bool {
        true
    }

    open spec fn from_spec(triangle: &Triangle) -> Self {
        [
            [triangle.a.x, triangle.a.y, triangle.a.z],
            [triangle.b.x, triangle.b.y, triangle.b.z],
            [triangle.c.x, triangle.c.y, triangle.c.z],
        ]
    }
}

/// A face that is bounded by cycles on a surface.
///
/// The exterior cycles bound the face from outside, the interior cycles cut
/// holes into it.
#[derive(Clone, Debug, PartialEq, Eq)]
pub struct FaceBRep {
    pub surface: Surface,
    pub exteriors: Vec<Cycle>,
    pub interiors: Vec<Cycle>,
    pub color: Color,
}

/// A face of a shape.
#[derive(Clone, Debug, PartialEq, Eq)]
pub enum Face {
    /// A face bounded by cycles on a surface.
    Face(FaceBRep),
    /// A face that is given as triangles, each with its colour.
    Triangles(Vec<(Triangle, Color)>),
}

impl Face {
    /// The face on `surface` bounded by the given cycles.
    pub fn new(surface: Surface, exteriors: Vec<Cycle>, interiors: Vec<Cycle>, color: Color) -> (r:
        Self)
        ensures
            r == Face::Face(FaceBRep { surface, exteriors, interiors, color }),
    {
        Face::Face(FaceBRep { surface, exteriors, interiors, color })
    }

    /// The number of cycles of the face, exterior and interior.
    pub open spec fn spec_cycle_count(&self) -> nat {
        match self {
            Face::Face(brep) => brep.exteriors@.len() + brep.interiors@.len(),
            Face::Triangles(_) => 0,
        }
    }

    /// The cycle of the face with the given number: the exterior cycles come
    /// first, the interior cycles after them.
    pub open spec fn spec_cycle(&self, index: int) -> Cycle
        recommends
            0 <= index < self.spec_cycle_count(),
    {
        match self {
            Face::Face(brep) => if index < brep.exteriors@.len() {
                brep.exteriors@[index]
            } else {
                brep.interiors@[index - brep.exteriors@.len()]
            },
            Face::Triangles(_) => arbitrary(),
        }
    }

    /// The surface of the face, if it is bounded by cycles.
    pub open spec fn spec_surface(&self) -> Option<Surface> {
        match self {
            Face::Face(brep) => Some(brep.surface),
            Face::Triangles(_) => None,
        }
    }
}

} // verus!
