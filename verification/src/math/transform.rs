//! Affine transforms of the lattice.

use vstd::prelude::*;
use crate::math::point::{Point, Vector};
use crate::math::scalar::{narrow, row_image};
use crate::math::space::Affine;

verus! {

/// A coordinate axis.
#[derive(Clone, Copy, Debug, PartialEq, Eq, Structural)]
pub enum Axis {
    X,
    Y,
    Z,
}

/// An affine transform with integer entries: a linear part, given by its
/// rows, followed by an offset.
#[derive(Clone, Copy, Debug, PartialEq, Eq, Structural)]
pub struct Transform {
    pub xx: i32,
    pub xy: i32,
    pub xz: i32,
    pub yx: i32,
    pub yy: i32,
    pub yz: i32,
    pub zx: i32,
    pub zy: i32,
    pub zz: i32,
    pub tx: i32,
    pub ty: i32,
    pub tz: i32,
}

impl View for Transform {
    type V = Affine;

    open spec fn view(&self) -> Affine {
        Affine {
            xx: self.xx as int, xy: self.xy as int, xz: self.xz as int,
            yx: self.yx as int, yy: self.yy as int, yz: self.yz as int,
            zx: self.zx as int, zy: self.zy as int, zz: self.zz as int,
            tx: self.tx as int, ty: self.ty as int, tz: self.tz as int,
        }
    }
}

/// The cosine of `turns` quarter turns.
pub open spec fn turn_cosine(turns: int) -> int {
    if turns % 4 == 0 {
        1
    } else if turns % 4 == 2 {
        -1
    } else {
        0
    }
}

/// The sine of `turns` quarter turns.
pub open spec fn turn_sine(turns: int) -> int {
    if turns % 4 == 1 {
        1
    } else if turns % 4 == 3 {
        -1
    } else {
        0
    }
}

/// The quarter turn about `axis`, counter-clockwise when seen from the tip of
/// the axis, `turns` times over.
pub open spec fn quarter_turns(axis: Axis, turns: int) -> Affine {
    let c = turn_cosine(turns);
    let s = turn_sine(turns);
    match axis {
        Axis::X => Affine {
            xx: 1, xy: 0, xz: 0,
            yx: 0, yy: c, yz: -s,
            zx: 0, zy: s, zz: c,
            tx: 0, ty: 0, tz: 0,
        },
        Axis::Y => Affine {
            xx: c, xy: 0, xz: s,
            yx: 0, yy: 1, yz: 0,
            zx: -s, zy: 0, zz: c,
            tx: 0, ty: 0, tz: 0,
        },
        Axis::Z => Affine {
            xx: c, xy: -s, xz: 0,
            yx: s, yy: c, yz: 0,
            zx: 0, zy: 0, zz: 1,
            tx: 0, ty: 0, tz: 0,
        },
    }
}

/// Every rotation by quarter turns is rigid.
pub proof fn lemma_quarter_turns_rigid(axis: Axis, turns: int)
    ensures
        quarter_turns(axis, turns).is_rigid(),
{
    let c = turn_cosine(turns);
    let s = turn_sine(turns);
    assert(c * c + s * s == 1 && (-s) * (-s) + c * c == 1 && c * (-s) + s * c == 0 && c * s + (-s)
        * c == 0 && s * s + c * c == 1) by (nonlinear_arith)
        requires
            (c == 1 && s == 0) || (c == 0 && s == 1) || (c == -1 && s == 0) || (c == 0 && s == -1),
    ;
}

impl Transform {
    /// The transform that moves nothing.
    pub fn identity() -> (r: Self)
        ensures
            r@ == Affine::identity(),
    {
        Transform {
            xx: 1, xy: 0, xz: 0,
            yx: 0, yy: 1, yz: 0,
            zx: 0, zy: 0, zz: 1,
            tx: 0, ty: 0, tz: 0,
        }
    }

    /// The transform that moves every point by `offset`.
    pub fn translation(offset: Vector) -> (r: Self)
        ensures
            r@ == Affine::translation(offset@),
    {
        Transform {
            xx: 1, xy: 0, xz: 0,
            yx: 0, yy: 1, yz: 0,
            zx: 0, zy: 0, zz: 1,
            tx: offset.x, ty: offset.y, tz: offset.z,
        }
    }

    /// The rotation about `axis` by `turns` quarter turns.
    pub fn rotation(axis: Axis, turns: u32) -> (r: Self)
        ensures
            r@ == quarter_turns(axis, turns as int),
    {
        let k: u32 = turns % 4;
        let c: i32 = if k == 0 {
            1
        } else if k == 2 {
            -1
        } else {
            0
        };
        let s: i32 = if k == 1 {
            1
        } else if k == 3 {
            -1
        } else {
            0
        };
        match axis {
            Axis::X => Transform {
                xx: 1, xy: 0, xz: 0,
                yx: 0, yy: c, yz: -s,
                zx: 0, zy: s, zz: c,
                tx: 0, ty: 0, tz: 0,
            },
            Axis::Y => Transform {
                xx: c, xy: 0, xz: s,
                yx: 0, yy: 1, yz: 0,
                zx: -s, zy: 0, zz: c,
                tx: 0, ty: 0, tz: 0,
            },
            Axis::Z => Transform {
                xx: c, xy: -s, xz: 0,
                yx: s, yy: c, yz: 0,
                zx: 0, zy: 0, zz: 1,
                tx: 0, ty: 0, tz: 0,
            },
        }
    }

    /// The image of a point, if its coordinates can be stored.
    pub fn transform_point(&self, point: &Point) -> (r: Option<Point>)
        ensures
            match r {
                Some(q) => q@ == self@.apply(point@),
                None => !self@.apply(point@).representable(),
            },
    {
        let x = narrow(row_image(self.xx, self.xy, self.xz, self.tx, point.x, point.y, point.z));
        let y = narrow(row_image(self.yx, self.yy, self.yz, self.ty, point.x, point.y, point.z));
        let z = narrow(row_image(self.zx, self.zy, self.zz, self.tz, point.x, point.y, point.z));
        match (x, y, z) {
            (Some(x), Some(y), Some(z)) => Some(Point { x, y, z }),
            _ => None,
        }
    }

    /// The image of a displacement, if its coordinates can be stored. The
    /// offset of the transform plays no part.
    pub fn transform_vector(&self, vector: &Vector) -> (r: Option<Vector>)
        ensures
            match r {
                Some(w) => w@ == self@.linear(vector@),
                None => !self@.linear(vector@).representable(),
            },
    {
        let x = narrow(row_image(self.xx, self.xy, self.xz, 0, vector.x, vector.y, vector.z));
        let y = narrow(row_image(self.yx, self.yy, self.yz, 0, vector.x, vector.y, vector.z));
        let z = narrow(row_image(self.zx, self.zy, self.zz, 0, vector.x, vector.y, vector.z));
        match (x, y, z) {
            (Some(x), Some(y), Some(z)) => Some(Vector { x, y, z }),
            _ => None,
        }
    }

    /// The transform that applies `self` and then `next`, if its entries can
    /// be stored.
    pub fn then(&self, next: &Transform) -> (r: Option<Transform>)
        ensures
            match r {
                Some(c) => c@ == next@.after(self@),
                None => !next@.after(self@).representable(),
            },
    {
        let xx = narrow(row_image(next.xx, next.xy, next.xz, 0, self.xx, self.yx, self.zx));
        let xy = narrow(row_image(next.xx, next.xy, next.xz, 0, self.xy, self.yy, self.zy));
        let xz = narrow(row_image(next.xx, next.xy, next.xz, 0, self.xz, self.yz, self.zz));
        let tx = narrow(row_image(next.xx, next.xy, next.xz, next.tx, self.tx, self.ty, self.tz));
        let yx = narrow(row_image(next.yx, next.yy, next.yz, 0, self.xx, self.yx, self.zx));
        let yy = narrow(row_image(next.yx, next.yy, next.yz, 0, self.xy, self.yy, self.zy));
        let yz = narrow(row_image(next.yx, next.yy, next.yz, 0, self.xz, self.yz, self.zz));
        let ty = narrow(row_image(next.yx, next.yy, next.yz, next.ty, self.tx, self.ty, self.tz));
        let zx = narrow(row_image(next.zx, next.zy, next.zz, 0, self.xx, self.yx, self.zx));
        let zy = narrow(row_image(next.zx, next.zy, next.zz, 0, self.xy, self.yy, self.zy));
        let zz = narrow(row_image(next.zx, next.zy, next.zz, 0, self.xz, self.yz, self.zz));
        let tz = narrow(row_image(next.zx, next.zy, next.zz, next.tz, self.tx, self.ty, self.tz));
        match (xx, xy, xz, tx) {
            (Some(xx), Some(xy), Some(xz), Some(tx)) => match (yx, yy, yz, ty) {
                (Some(yx), Some(yy), Some(yz), Some(ty)) => match (zx, zy, zz, tz) {
                    (Some(zx), Some(zy), Some(zz), Some(tz)) => Some(
                        Transform { xx, xy, xz, yx, yy, yz, zx, zy, zz, tx, ty, tz },
                    ),
                    _ => None,
                },
                _ => None,
            },
            _ => None,
        }
    }

    /// Whether the transform keeps distances.
    pub fn is_rigid(&self) -> (r: bool)
        ensures
            r == self@.is_rigid(),
    {
        row_image(self.xx, self.yx, self.zx, 0, self.xx, self.yx, self.zx) == 1
            && row_image(self.xy, self.yy, self.zy, 0, self.xy, self.yy, self.zy) == 1
            && row_image(self.xz, self.yz, self.zz, 0, self.xz, self.yz, self.zz) == 1
            && row_image(self.xx, self.yx, self.zx, 0, self.xy, self.yy, self.zy) == 0
            && row_image(self.xx, self.yx, self.zx, 0, self.xz, self.yz, self.zz) == 0
            && row_image(self.xy, self.yy, self.zy, 0, self.xz, self.yz, self.zz) == 0
    }

    /// The transform that undoes a rigid transform. There is none to return
    /// where the transform is not rigid, or where the inverse's offset cannot
    /// be stored.
    pub fn inverse(&self) -> (r: Option<Transform>)
        ensures
            match r {
                Some(u) => self@.is_rigid() && u@ == self@.rigid_inverse(),
                None => !self@.is_rigid() || !self@.rigid_inverse().representable(),
            },
    {
        if !self.is_rigid() {
            return None;
        }
        let bx: i128 = row_image(self.xx, self.yx, self.zx, 0, self.tx, self.ty, self.tz);
        let by: i128 = row_image(self.xy, self.yy, self.zy, 0, self.tx, self.ty, self.tz);
        let bz: i128 = row_image(self.xz, self.yz, self.zz, 0, self.tx, self.ty, self.tz);
        match (narrow(-bx), narrow(-by), narrow(-bz)) {
            (Some(tx), Some(ty), Some(tz)) => Some(
                Transform {
                    xx: self.xx, xy: self.yx, xz: self.zx,
                    yx: self.xy, yy: self.yy, yz: self.zy,
                    zx: self.xz, zy: self.yz, zz: self.zz,
                    tx, ty, tz,
                },
            ),
            _ => None,
        }
    }
}

} // verus!
