//! Points and vectors on the lattice.

use vstd::prelude::*;
use crate::math::scalar::{narrow, Tolerance};
use crate::math::space::Vec3;
use crate::math::transform::Axis;

verus! {

/// A displacement between lattice points.
#[derive(Clone, Copy, Debug, PartialEq, Eq, Structural)]
pub struct Vector {
    pub x: i32,
    pub y: i32,
    pub z: i32,
}

impl View for Vector {
    type V = Vec3;

    open spec fn view(&self) -> Vec3 {
        Vec3 { x: self.x as int, y: self.y as int, z: self.z as int }
    }
}

impl Vector {
    pub fn new(x: i32, y: i32, z: i32) -> (r: Self)
        ensures
            r == (Vector { x, y, z }),
    {
        Vector { x, y, z }
    }

    /// The displacement that moves nothing.
    pub fn zero() -> (r: Self)
        ensures
            r@ == Vec3::zero(),
    {
        Vector { x: 0, y: 0, z: 0 }
    }

    pub fn from_array(coords: [i32; 3]) -> (r: Self)
        ensures
            r == (Vector { x: coords[0], y: coords[1], z: coords[2] }),
    {
        Vector { x: coords[0], y: coords[1], z: coords[2] }
    }

    pub fn is_zero(&self) -> (r: bool)
        ensures
            r == (self@ == Vec3::zero()),
    {
        self.x == 0 && self.y == 0 && self.z == 0
    }
}

/// A point of the lattice.
#[derive(Clone, Copy, Debug, PartialEq, Eq, Structural)]
pub struct Point {
    pub x: i32,
    pub y: i32,
    pub z: i32,
}

impl View for Point {
    type V = Vec3;

    open spec fn view(&self) -> Vec3 {
        Vec3 { x: self.x as int, y: self.y as int, z: self.z as int }
    }
}

impl Point {
    pub fn new(x: i32, y: i32, z: i32) -> (r: Self)
        ensures
            r == (Point { x, y, z }),
    {
        Point { x, y, z }
    }

    pub fn origin() -> (r: Self)
        ensures
            r@ == Vec3::zero(),
    {
        Point { x: 0, y: 0, z: 0 }
    }

    pub fn from_array(coords: [i32; 3]) -> (r: Self)
        ensures
            r == (Point { x: coords[0], y: coords[1], z: coords[2] }),
    {
        Point { x: coords[0], y: coords[1], z: coords[2] }
    }

    pub fn to_array(&self) -> (r: [i32; 3])
        ensures
            r == [self.x, self.y, self.z],
    {
        [self.x, self.y, self.z]
    }

    /// The point reached by moving `offset` away, if its coordinates can be
    /// stored.
    pub fn translated(&self, offset: &Vector) -> (r: Option<Point>)
        ensures
            match r {
                Some(q) => q@ == self@.plus(offset@),
                None => !self@.plus(offset@).representable(),
            },
    {
        let x = narrow(self.x as i128 + offset.x as i128);
        let y = narrow(self.y as i128 + offset.y as i128);
        let z = narrow(self.z as i128 + offset.z as i128);
        match (x, y, z) {
            (Some(x), Some(y), Some(z)) => Some(Point { x, y, z }),
            _ => None,
        }
    }

    /// The square of the distance between two points.
    pub fn squared_distance(&self, other: &Point) -> (r: u128)
        ensures
            r == self@.minus(other@).norm_squared(),
    {
        let dx: i64 = self.x as i64 - other.x as i64;
        let dy: i64 = self.y as i64 - other.y as i64;
        let dz: i64 = self.z as i64 - other.z as i64;
        assert(0 <= dx * dx <= 0x1_0000_0000_0000_0000) by (nonlinear_arith)
            requires
                -0x1_0000_0000 <= dx <= 0x1_0000_0000,
        ;
        assert(0 <= dy * dy <= 0x1_0000_0000_0000_0000) by (nonlinear_arith)
            requires
                -0x1_0000_0000 <= dy <= 0x1_0000_0000,
        ;
        assert(0 <= dz * dz <= 0x1_0000_0000_0000_0000) by (nonlinear_arith)
            requires
                -0x1_0000_0000 <= dz <= 0x1_0000_0000,
        ;
        let sx: i128 = (dx as i128) * (dx as i128);
        let sy: i128 = (dy as i128) * (dy as i128);
        let sz: i128 = (dz as i128) * (dz as i128);
        (sx + sy + sz) as u128
    }

    /// Whether two points are one within the tolerance.
    pub fn coincides_with(&self, other: &Point, tolerance: &Tolerance) -> (r: bool)
        ensures
            r == self@.close_to(other@, tolerance.distance as int),
    {
        self.squared_distance(other) <= tolerance.squared() as u128
    }
}

/// A point of a plane.
#[derive(Clone, Copy, Debug, PartialEq, Eq, Structural)]
pub struct Point2 {
    pub u: i32,
    pub v: i32,
}

impl Point2 {
    pub fn new(u: i32, v: i32) -> (r: Self)
        ensures
            r == (Point2 { u, v }),
    {
        Point2 { u, v }
    }
}

/// A displacement between points of a plane.
#[derive(Clone, Copy, Debug, PartialEq, Eq, Structural)]
pub struct Vector2 {
    pub u: i32,
    pub v: i32,
}

impl Vector2 {
    pub fn new(u: i32, v: i32) -> (r: Self)
        ensures
            r == (Vector2 { u, v }),
    {
        Vector2 { u, v }
    }
}

impl Vector {
    /// The displacement without its part along `axis`.
    pub open spec fn spec_flattened(&self, axis: Axis) -> Vector2 {
        match axis {
            Axis::X => Vector2 { u: self.y, v: self.z },
            Axis::Y => Vector2 { u: self.x, v: self.z },
            Axis::Z => Vector2 { u: self.x, v: self.y },
        }
    }

    /// The displacement without its part along `axis`.
    pub fn flattened(&self, axis: Axis) -> (r: Vector2)
        ensures
            r == self.spec_flattened(axis),
    {
        match axis {
            Axis::X => Vector2 { u: self.y, v: self.z },
            Axis::Y => Vector2 { u: self.x, v: self.z },
            Axis::Z => Vector2 { u: self.x, v: self.y },
        }
    }
}

impl Point {
    /// The point without its coordinate on `axis`: what is left of it when
    /// space is flattened along that axis.
    pub open spec fn spec_flattened(&self, axis: Axis) -> Point2 {
        match axis {
            Axis::X => Point2 { u: self.y, v: self.z },
            Axis::Y => Point2 { u: self.x, v: self.z },
            Axis::Z => Point2 { u: self.x, v: self.y },
        }
    }

    /// The point without its coordinate on `axis`.
    pub fn flattened(&self, axis: Axis) -> (r: Point2)
        ensures
            r == self.spec_flattened(axis),
    {
        match axis {
            Axis::X => Point2 { u: self.y, v: self.z },
            Axis::Y => Point2 { u: self.x, v: self.z },
            Axis::Z => Point2 { u: self.x, v: self.y },
        }
    }
}

/// Points that are close are close in either order.
pub proof fn lemma_close_symmetric(p: Vec3, q: Vec3, tolerance: int)
    ensures
        p.close_to(q, tolerance) == q.close_to(p, tolerance),
{
    let (a, b, c) = (p.x - q.x, p.y - q.y, p.z - q.z);
    assert(a * a == (-a) * (-a) && b * b == (-b) * (-b) && c * c == (-c) * (-c))
        by (nonlinear_arith);
}

/// With a tolerance of zero, points are close only where they are equal.
pub proof fn lemma_close_exact(p: Vec3, q: Vec3)
    ensures
        p.close_to(q, 0) == (p == q),
{
    let (a, b, c) = (p.x - q.x, p.y - q.y, p.z - q.z);
    assert(a * a + b * b + c * c <= 0 <==> (a == 0 && b == 0 && c == 0)) by (nonlinear_arith);
}

} // verus!
