//! Lines and circles, each with a map from a curve coordinate to a point.

use vstd::prelude::*;
use crate::math::point::{Point, Vector};
use crate::math::scalar::{narrow, product, scaled};
use crate::math::space::Vec3;
use crate::math::transform::{turn_cosine, turn_sine};

verus! {

/// The range that a point of a curve stays in, whatever its coordinate.
pub open spec fn wide_bounded(v: int) -> bool {
    -0x1_0000_0000_0000_0000_0000_0000 <= v <= 0x1_0000_0000_0000_0000_0000_0000
}

/// The line through `origin` along `direction`. The curve coordinate `t`
/// names the point `origin + t * direction`.
#[derive(Clone, Copy, Debug, PartialEq, Eq, Structural)]
pub struct Line {
    pub origin: Point,
    pub direction: Vector,
}

/// The circle around `center` spanned by the radius vectors `a` and `b`. A
/// curve coordinate counts quarter turns: `0` names `center + a`, `1` names
/// `center + b`, `2` names `center - a` and `3` names `center - b`.
#[derive(Clone, Copy, Debug, PartialEq, Eq, Structural)]
pub struct Circle {
    pub center: Point,
    pub a: Vector,
    pub b: Vector,
}

/// A curve in space.
#[derive(Clone, Copy, Debug, PartialEq, Eq, Structural)]
pub enum Curve {
    Line(Line),
    Circle(Circle),
}

impl Line {
    /// The point at curve coordinate `t`.
    pub open spec fn spec_point(&self, t: int) -> Vec3 {
        self.origin@.plus(self.direction@.times(t))
    }

    /// The curve coordinate of `p`: the `t` with `origin + t * direction == p`,
    /// found along the first axis on which the direction does not vanish. A
    /// line without direction holds its origin alone, at coordinate `0`.
    pub open spec fn spec_coord_of(&self, p: Vec3) -> Option<int> {
        let w = p.minus(self.origin@);
        let d = self.direction@;
        let t = if d.x != 0 {
            w.x / d.x
        } else if d.y != 0 {
            w.y / d.y
        } else if d.z != 0 {
            w.z / d.z
        } else {
            0
        };
        if self.spec_point(t) == p {
            Some(t)
        } else {
            None
        }
    }

    /// The line through two points, directed from the first to the second, if
    /// their difference can be stored.
    pub fn from_points(from: &Point, to: &Point) -> (r: Option<Line>)
        ensures
            match r {
                Some(line) => line.origin == *from && line.direction@ == to@.minus(from@),
                None => !to@.minus(from@).representable(),
            },
    {
        let x = narrow(to.x as i128 - from.x as i128);
        let y = narrow(to.y as i128 - from.y as i128);
        let z = narrow(to.z as i128 - from.z as i128);
        match (x, y, z) {
            (Some(x), Some(y), Some(z)) => Some(
                Line { origin: *from, direction: Vector { x, y, z } },
            ),
            _ => None,
        }
    }

    /// The point at curve coordinate `t`, in wide integers.
    pub fn wide_point(&self, t: i64) -> (r: (i128, i128, i128))
        ensures
            r.0 == self.spec_point(t as int).x,
            r.1 == self.spec_point(t as int).y,
            r.2 == self.spec_point(t as int).z,
            wide_bounded(r.0 as int) && wide_bounded(r.1 as int) && wide_bounded(r.2 as int),
    {
        (
            self.origin.x as i128 + scaled(self.direction.x, t),
            self.origin.y as i128 + scaled(self.direction.y, t),
            self.origin.z as i128 + scaled(self.direction.z, t),
        )
    }

    /// The point at curve coordinate `t`, if its coordinates can be stored.
    pub fn point_from_line_coord(&self, t: i64) -> (r: Option<Point>)
        ensures
            match r {
                Some(p) => p@ == self.spec_point(t as int),
                None => !self.spec_point(t as int).representable(),
            },
    {
        let (x, y, z) = self.wide_point(t);
        match (narrow(x), narrow(y), narrow(z)) {
            (Some(x), Some(y), Some(z)) => Some(Point { x, y, z }),
            _ => None,
        }
    }

    /// The curve coordinate of `p`, if `p` is a point of the line.
    pub fn line_coord_of(&self, p: &Point) -> (r: Option<i64>)
        ensures
            match r {
                Some(t) => self.spec_coord_of(p@) == Some(t as int),
                None => self.spec_coord_of(p@) is None,
            },
    {
        let wx: i64 = p.x as i64 - self.origin.x as i64;
        let wy: i64 = p.y as i64 - self.origin.y as i64;
        let wz: i64 = p.z as i64 - self.origin.z as i64;
        let quotient = if self.direction.x != 0 {
            wx.checked_div_euclid(self.direction.x as i64)
        } else if self.direction.y != 0 {
            wy.checked_div_euclid(self.direction.y as i64)
        } else if self.direction.z != 0 {
            wz.checked_div_euclid(self.direction.z as i64)
        } else {
            Some(0)
        };
        proof {
            lemma_quotient_bounds(wx as int, self.direction.x as int);
            lemma_quotient_bounds(wy as int, self.direction.y as int);
            lemma_quotient_bounds(wz as int, self.direction.z as int);
        }
        match quotient {
            Some(t) => {
                match self.point_from_line_coord(t) {
                    Some(q) => {
                        if q == *p {
                            Some(t)
                        } else {
                            None
                        }
                    },
                    None => None,
                }
            },
            None => None,
        }
    }
}

/// Dividing by a non-zero integer does not make a number larger.
proof fn lemma_quotient_bounds(w: int, d: int)
    ensures
        d != 0 && -0x1_0000_0000 <= w <= 0x1_0000_0000 ==> -0x1_0000_0000 <= w / d
            <= 0x1_0000_0000,
{
    if d != 0 && -0x1_0000_0000 <= w <= 0x1_0000_0000 {
        assert(-0x1_0000_0000 <= w / d <= 0x1_0000_0000) by (nonlinear_arith)
            requires
                d != 0,
                -0x1_0000_0000 <= w <= 0x1_0000_0000,
        ;
    }
}

impl Circle {
    /// The point at curve coordinate `t`, counted in quarter turns.
    pub open spec fn spec_point(&self, t: int) -> Vec3 {
        self.center@.plus(self.a@.times(turn_cosine(t))).plus(self.b@.times(turn_sine(t)))
    }

    /// The least of the coordinates `0` to `3` that names `p`.
    pub open spec fn spec_coord_of(&self, p: Vec3) -> Option<int> {
        if self.spec_point(0) == p {
            Some(0)
        } else if self.spec_point(1) == p {
            Some(1)
        } else if self.spec_point(2) == p {
            Some(2)
        } else if self.spec_point(3) == p {
            Some(3)
        } else {
            None
        }
    }

    /// The point at curve coordinate `t`, in wide integers.
    pub fn wide_point(&self, t: i64) -> (r: (i128, i128, i128))
        ensures
            r.0 == self.spec_point(t as int).x,
            r.1 == self.spec_point(t as int).y,
            r.2 == self.spec_point(t as int).z,
            wide_bounded(r.0 as int) && wide_bounded(r.1 as int) && wide_bounded(r.2 as int),
    {
        let k: i64 = match t.checked_rem_euclid(4) {
            Some(k) => k,
            None => 0,
        };
        let c: i32 = if k == 0 {
            1
        } else if k == 2 {
            -1
        } else {
            0
        };
        let s: i32 = if k == 1 {
            1
        } else if k == 3 {
            -1
        } else {
            0
        };
        (
            self.center.x as i128 + product(self.a.x, c) as i128 + product(self.b.x, s) as i128,
            self.center.y as i128 + product(self.a.y, c) as i128 + product(self.b.y, s) as i128,
            self.center.z as i128 + product(self.a.z, c) as i128 + product(self.b.z, s) as i128,
        )
    }

    /// The point at curve coordinate `t`, if its coordinates can be stored.
    pub fn point_from_circle_coord(&self, t: i64) -> (r: Option<Point>)
        ensures
            match r {
                Some(p) => p@ == self.spec_point(t as int),
                None => !self.spec_point(t as int).representable(),
            },
    {
        let (x, y, z) = self.wide_point(t);
        match (narrow(x), narrow(y), narrow(z)) {
            (Some(x), Some(y), Some(z)) => Some(Point { x, y, z }),
            _ => None,
        }
    }

    /// The least of the coordinates `0` to `3` that names `p`, if one does.
    pub fn circle_coord_of(&self, p: &Point) -> (r: Option<i64>)
        ensures
            match r {
                Some(t) => self.spec_coord_of(p@) == Some(t as int),
                None => self.spec_coord_of(p@) is None,
            },
    {
        let mut t: i64 = 0;
        while t < 4
            invariant
                0 <= t <= 4,
                forall|k: int| 0 <= k < t ==> self.spec_point(k) != p@,
            decreases 4 - t,
        {
            match self.point_from_circle_coord(t) {
                Some(q) => {
                    if q == *p {
                        return Some(t);
                    }
                },
                None => {},
            }
            t = t + 1;
        }
        None
    }
}

impl Curve {
    /// The point at curve coordinate `t`.
    pub open spec fn spec_point(&self, t: int) -> Vec3 {
        match self {
            Curve::Line(line) => line.spec_point(t),
            Curve::Circle(circle) => circle.spec_point(t),
        }
    }

    /// The curve coordinate of `p`, where `p` is a point of the curve that a
    /// coordinate names.
    pub open spec fn spec_coord_of(&self, p: Vec3) -> Option<int> {
        match self {
            Curve::Line(line) => line.spec_coord_of(p),
            Curve::Circle(circle) => circle.spec_coord_of(p),
        }
    }

    /// The point at curve coordinate `t`, in wide integers.
    pub fn wide_point(&self, t: i64) -> (r: (i128, i128, i128))
        ensures
            r.0 == self.spec_point(t as int).x,
            r.1 == self.spec_point(t as int).y,
            r.2 == self.spec_point(t as int).z,
            wide_bounded(r.0 as int) && wide_bounded(r.1 as int) && wide_bounded(r.2 as int),
    {
        match self {
            Curve::Line(line) => line.wide_point(t),
            Curve::Circle(circle) => circle.wide_point(t),
        }
    }

    /// The point at curve coordinate `t`, if its coordinates can be stored.
    pub fn point_from_curve_coord(&self, t: i64) -> (r: Option<Point>)
        ensures
            match r {
                Some(p) => p@ == self.spec_point(t as int),
                None => !self.spec_point(t as int).representable(),
            },
    {
        match self {
            Curve::Line(line) => line.point_from_line_coord(t),
            Curve::Circle(circle) => circle.point_from_circle_coord(t),
        }
    }

    /// The curve coordinate of `p`, if a coordinate names it.
    pub fn curve_coord_of(&self, p: &Point) -> (r: Option<i64>)
        ensures
            match r {
                Some(t) => self.spec_coord_of(p@) == Some(t as int),
                None => self.spec_coord_of(p@) is None,
            },
    {
        match self {
            Curve::Line(line) => line.line_coord_of(p),
            Curve::Circle(circle) => circle.circle_coord_of(p),
        }
    }
}

/// A coordinate that was found names the point it was found for.
pub proof fn lemma_coord_names_point(curve: Curve, p: Vec3)
    requires
        curve.spec_coord_of(p) is Some,
    ensures
        curve.spec_point(curve.spec_coord_of(p).unwrap()) == p,
{
}

/// Every point that a coordinate names has a coordinate, and on a line with a
/// direction that coordinate is the only one.
pub proof fn lemma_coord_found(curve: Curve, t: int)
    ensures
        curve.spec_coord_of(curve.spec_point(t)) is Some,
        curve matches Curve::Line(line) && line.direction@ != Vec3::zero()
            ==> curve.spec_coord_of(curve.spec_point(t)) == Some(t),
{
    match curve {
        Curve::Line(line) => {
            let d = line.direction@;
            let p = line.spec_point(t);
            let w = p.minus(line.origin@);
            assert(w == d.times(t));
            if d.x != 0 {
                assert((d.x * t) / d.x == t) by (nonlinear_arith)
                    requires
                        d.x != 0,
                ;
            } else if d.y != 0 {
                assert((d.y * t) / d.y == t) by (nonlinear_arith)
                    requires
                        d.y != 0,
                ;
            } else if d.z != 0 {
                assert((d.z * t) / d.z == t) by (nonlinear_arith)
                    requires
                        d.z != 0,
                ;
            } else {
                assert(d.x * t == 0 && d.y * t == 0 && d.z * t == 0 && d.x * 0 == 0 && d.y * 0 == 0
                    && d.z * 0 == 0) by (nonlinear_arith)
                    requires
                        d.x == 0 && d.y == 0 && d.z == 0,
                ;
            }
        },
        Curve::Circle(circle) => {
            let k = t % 4;
            assert(circle.spec_point(t) == circle.spec_point(k));
        },
    }
}

} // verus!
