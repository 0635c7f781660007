//! Axis-aligned bounding boxes.

use vstd::prelude::*;
use crate::math::point::{Point, Vector};
use crate::math::scalar::{greatest, larger, least, smaller};
use crate::math::space::Vec3;

verus! {

/// The box of all points between `min` and `max` on every axis.
#[derive(Clone, Copy, Debug, PartialEq, Eq, Structural)]
pub struct Aabb {
    pub min: Point,
    pub max: Point,
}

impl Aabb {
    /// Whether the box is not empty: on no axis does `min` lie beyond `max`.
    pub open spec fn wf(&self) -> bool {
        self.min.x <= self.max.x && self.min.y <= self.max.y && self.min.z <= self.max.z
    }

    /// Whether the point lies in the box.
    pub open spec fn spec_contains(&self, p: Vec3) -> bool {
        &&& self.min.x <= p.x <= self.max.x
        &&& self.min.y <= p.y <= self.max.y
        &&& self.min.z <= p.z <= self.max.z
    }

    /// The smallest box that holds the box and the point.
    pub open spec fn spec_including(&self, p: Point) -> Aabb {
        Aabb {
            min: Point {
                x: least(self.min.x as int, p.x as int) as i32,
                y: least(self.min.y as int, p.y as int) as i32,
                z: least(self.min.z as int, p.z as int) as i32,
            },
            max: Point {
                x: greatest(self.max.x as int, p.x as int) as i32,
                y: greatest(self.max.y as int, p.y as int) as i32,
                z: greatest(self.max.z as int, p.z as int) as i32,
            },
        }
    }

    /// The smallest box that holds both boxes.
    pub open spec fn spec_merged(&self, other: &Aabb) -> Aabb {
        self.spec_including(other.min).spec_including(other.max)
    }

    /// The smallest box that holds the first `count` of the points, if that
    /// is at least one point.
    pub open spec fn spec_from_points(points: Seq<Point>, count: nat) -> Option<Aabb>
        decreases count,
    {
        if count == 0 {
            None
        } else {
            Some(grown(Aabb::spec_from_points(points, (count - 1) as nat), points[count - 1]))
        }
    }

    /// The box that holds one point.
    pub fn around(p: Point) -> (r: Self)
        ensures
            r == (Aabb { min: p, max: p }),
            r.wf(),
    {
        Aabb { min: p, max: p }
    }

    /// Whether the point lies in the box.
    pub fn contains(&self, p: &Point) -> (r: bool)
        ensures
            r == self.spec_contains(p@),
    {
        self.min.x <= p.x && p.x <= self.max.x && self.min.y <= p.y && p.y <= self.max.y
            && self.min.z <= p.z && p.z <= self.max.z
    }

    /// The smallest box that holds the box and the point.
    pub fn including(&self, p: &Point) -> (r: Self)
        ensures
            r == self.spec_including(*p),
    {
        Aabb {
            min: Point {
                x: smaller(self.min.x, p.x),
                y: smaller(self.min.y, p.y),
                z: smaller(self.min.z, p.z),
            },
            max: Point {
                x: larger(self.max.x, p.x),
                y: larger(self.max.y, p.y),
                z: larger(self.max.z, p.z),
            },
        }
    }

    /// The smallest box that holds both boxes.
    pub fn merged(&self, other: &Aabb) -> (r: Self)
        ensures
            r == self.spec_merged(other),
    {
        self.including(&other.min).including(&other.max)
    }

    /// The smallest box that holds all the points, if there is a point.
    pub fn from_points(points: &Vec<Point>) -> (r: Option<Self>)
        ensures
            r == Aabb::spec_from_points(points@, points@.len()),
    {
        let mut found: Option<Aabb> = None;
        let mut i: usize = 0;
        while i < points.len()
            invariant
                i <= points@.len(),
                found == Aabb::spec_from_points(points@, i as nat),
            decreases points@.len() - i,
        {
            found = Some(grow(found, &points[i]));
            i += 1;
        }
        found
    }

    /// The eight corners of the box.
    pub fn vertices(&self) -> (r: [Point; 8])
        ensures
            r[0] == (Point { x: self.min.x, y: self.min.y, z: self.min.z }),
            r[1] == (Point { x: self.max.x, y: self.min.y, z: self.min.z }),
            r[2] == (Point { x: self.min.x, y: self.max.y, z: self.min.z }),
            r[3] == (Point { x: self.max.x, y: self.max.y, z: self.min.z }),
            r[4] == (Point { x: self.min.x, y: self.min.y, z: self.max.z }),
            r[5] == (Point { x: self.max.x, y: self.min.y, z: self.max.z }),
            r[6] == (Point { x: self.min.x, y: self.max.y, z: self.max.z }),
            r[7] == (Point { x: self.max.x, y: self.max.y, z: self.max.z }),
    {
        [
            Point { x: self.min.x, y: self.min.y, z: self.min.z },
            Point { x: self.max.x, y: self.min.y, z: self.min.z },
            Point { x: self.min.x, y: self.max.y, z: self.min.z },
            Point { x: self.max.x, y: self.max.y, z: self.min.z },
            Point { x: self.min.x, y: self.min.y, z: self.max.z },
            Point { x: self.max.x, y: self.min.y, z: self.max.z },
            Point { x: self.min.x, y: self.max.y, z: self.max.z },
            Point { x: self.max.x, y: self.max.y, z: self.max.z },
        ]
    }

    /// The box moved by `offset`, if its corners can be stored.
    pub fn translated(&self, offset: &Vector) -> (r: Option<Self>)
        ensures
            match r {
                Some(b) => b.min@ == self.min@.plus(offset@) && b.max@ == self.max@.plus(offset@),
                None => !(self.min@.plus(offset@).representable() && self.max@.plus(
                    offset@,
                ).representable()),
            },
    {
        match (self.min.translated(offset), self.max.translated(offset)) {
            (Some(min), Some(max)) => Some(Aabb { min, max }),
            _ => None,
        }
    }
}

/// The smallest box that holds what `found` holds and the point.
pub open spec fn grown(found: Option<Aabb>, p: Point) -> Aabb {
    match found {
        Some(b) => b.spec_including(p),
        None => Aabb { min: p, max: p },
    }
}

/// The smallest box that holds what `found` holds and the point.
pub fn grow(found: Option<Aabb>, p: &Point) -> (r: Aabb)
    ensures
        r == grown(found, *p),
{
    match found {
        Some(b) => b.including(p),
        None => Aabb::around(*p),
    }
}

/// A box that was made to include a point holds that point, and every point
/// that it held before; it is not empty where it was not; and every box that
/// holds the point and what the box held before holds all that it holds now.
pub proof fn lemma_including_is_least(b: Aabb, p: Point, q: Vec3, outer: Aabb)
    requires
        b.wf(),
    ensures
        b.spec_including(p).wf(),
        b.spec_including(p).spec_contains(p@),
        b.spec_contains(q) ==> b.spec_including(p).spec_contains(q),
        outer.spec_contains(p@) && outer.spec_contains(b.min@) && outer.spec_contains(b.max@)
            && b.spec_including(p).spec_contains(q) ==> outer.spec_contains(q),
{
}

} // verus!
