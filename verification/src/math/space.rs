//! The mathematical model of space: unbounded integer coordinates and the
//! affine maps between them.

use vstd::prelude::*;
use crate::math::scalar::representable;

verus! {

/// A point or a displacement with unbounded integer coordinates.
pub ghost struct Vec3 {
    pub x: int,
    pub y: int,
    pub z: int,
}

impl Vec3 {
    pub open spec fn zero() -> Vec3 {
        Vec3 { x: 0, y: 0, z: 0 }
    }

    pub open spec fn plus(self, other: Vec3) -> Vec3 {
        Vec3 { x: self.x + other.x, y: self.y + other.y, z: self.z + other.z }
    }

    pub open spec fn minus(self, other: Vec3) -> Vec3 {
        Vec3 { x: self.x - other.x, y: self.y - other.y, z: self.z - other.z }
    }

    pub open spec fn times(self, k: int) -> Vec3 {
        Vec3 { x: self.x * k, y: self.y * k, z: self.z * k }
    }

    pub open spec fn dot(self, other: Vec3) -> int {
        self.x * other.x + self.y * other.y + self.z * other.z
    }

    pub open spec fn norm_squared(self) -> int {
        self.dot(self)
    }

    /// Whether every coordinate can be stored.
    pub open spec fn representable(self) -> bool {
        representable(self.x) && representable(self.y) && representable(self.z)
    }

    /// Whether `self` and `other` are at most `tolerance` apart.
    pub open spec fn close_to(self, other: Vec3, tolerance: int) -> bool {
        self.minus(other).norm_squared() <= tolerance * tolerance
    }
}

/// An affine map of space: a linear part, given by its rows, followed by an
/// offset.
pub ghost struct Affine {
    pub xx: int,
    pub xy: int,
    pub xz: int,
    pub yx: int,
    pub yy: int,
    pub yz: int,
    pub zx: int,
    pub zy: int,
    pub zz: int,
    pub tx: int,
    pub ty: int,
    pub tz: int,
}

impl Affine {
    pub open spec fn identity() -> Affine {
        Affine {
            xx: 1, xy: 0, xz: 0,
            yx: 0, yy: 1, yz: 0,
            zx: 0, zy: 0, zz: 1,
            tx: 0, ty: 0, tz: 0,
        }
    }

    pub open spec fn translation(offset: Vec3) -> Affine {
        Affine {
            xx: 1, xy: 0, xz: 0,
            yx: 0, yy: 1, yz: 0,
            zx: 0, zy: 0, zz: 1,
            tx: offset.x, ty: offset.y, tz: offset.z,
        }
    }

    /// The image of a displacement: the linear part alone.
    pub open spec fn linear(self, v: Vec3) -> Vec3 {
        Vec3 {
            x: self.xx * v.x + self.xy * v.y + self.xz * v.z,
            y: self.yx * v.x + self.yy * v.y + self.yz * v.z,
            z: self.zx * v.x + self.zy * v.y + self.zz * v.z,
        }
    }

    /// The image of a point.
    pub open spec fn apply(self, p: Vec3) -> Vec3 {
        Vec3 {
            x: self.xx * p.x + self.xy * p.y + self.xz * p.z + self.tx,
            y: self.yx * p.x + self.yy * p.y + self.yz * p.z + self.ty,
            z: self.zx * p.x + self.zy * p.y + self.zz * p.z + self.tz,
        }
    }

    /// The map that applies `first` and then `self`.
    pub open spec fn after(self, first: Affine) -> Affine {
        Affine {
            xx: self.xx * first.xx + self.xy * first.yx + self.xz * first.zx,
            xy: self.xx * first.xy + self.xy * first.yy + self.xz * first.zy,
            xz: self.xx * first.xz + self.xy * first.yz + self.xz * first.zz,
            yx: self.yx * first.xx + self.yy * first.yx + self.yz * first.zx,
            yy: self.yx * first.xy + self.yy * first.yy + self.yz * first.zy,
            yz: self.yx * first.xz + self.yy * first.yz + self.yz * first.zz,
            zx: self.zx * first.xx + self.zy * first.yx + self.zz * first.zx,
            zy: self.zx * first.xy + self.zy * first.yy + self.zz * first.zy,
            zz: self.zx * first.xz + self.zy * first.yz + self.zz * first.zz,
            tx: self.xx * first.tx + self.xy * first.ty + self.xz * first.tz + self.tx,
            ty: self.yx * first.tx + self.yy * first.ty + self.yz * first.tz + self.ty,
            tz: self.zx * first.tx + self.zy * first.ty + self.zz * first.tz + self.tz,
        }
    }

    /// Whether the map keeps distances: the columns of the linear part are
    /// of length one and orthogonal to each other.
    pub open spec fn is_rigid(self) -> bool {
        &&& self.xx * self.xx + self.yx * self.yx + self.zx * self.zx == 1
        &&& self.xy * self.xy + self.yy * self.yy + self.zy * self.zy == 1
        &&& self.xz * self.xz + self.yz * self.yz + self.zz * self.zz == 1
        &&& self.xx * self.xy + self.yx * self.yy + self.zx * self.zy == 0
        &&& self.xx * self.xz + self.yx * self.yz + self.zx * self.zz == 0
        &&& self.xy * self.xz + self.yy * self.yz + self.zy * self.zz == 0
    }

    /// For a rigid map, the map that undoes it: the transposed linear part,
    /// and the offset carried back through it and reversed.
    pub open spec fn rigid_inverse(self) -> Affine {
        Affine {
            xx: self.xx, xy: self.yx, xz: self.zx,
            yx: self.xy, yy: self.yy, yz: self.zy,
            zx: self.xz, zy: self.yz, zz: self.zz,
            tx: -(self.xx * self.tx + self.yx * self.ty + self.zx * self.tz),
            ty: -(self.xy * self.tx + self.yy * self.ty + self.zy * self.tz),
            tz: -(self.xz * self.tx + self.yz * self.ty + self.zz * self.tz),
        }
    }

    /// Whether every entry can be stored.
    pub open spec fn representable(self) -> bool {
        &&& representable(self.xx) && representable(self.xy) && representable(self.xz)
        &&& representable(self.yx) && representable(self.yy) && representable(self.yz)
        &&& representable(self.zx) && representable(self.zy) && representable(self.zz)
        &&& representable(self.tx) && representable(self.ty) && representable(self.tz)
    }
}

proof fn lemma_assoc(a: int, f: int, p: int)
    by (nonlinear_arith)
    ensures
        a * (f * p) == (a * f) * p,
{
}

proof fn lemma_spread(a: int, x: int, y: int, z: int, w: int)
    by (nonlinear_arith)
    ensures
        a * (x + y + z + w) == a * x + a * y + a * z + a * w,
{
}

proof fn lemma_gather(x: int, y: int, z: int, p: int)
    by (nonlinear_arith)
    ensures
        (x + y + z) * p == x * p + y * p + z * p,
{
}

/// One row of a composed map applied to a point.
proof fn lemma_row_after(a: int, b: int, c: int, t: int, f: Affine, p: Vec3)
    ensures
        (a * f.xx + b * f.yx + c * f.zx) * p.x + (a * f.xy + b * f.yy + c * f.zy) * p.y
            + (a * f.xz + b * f.yz + c * f.zz) * p.z + (a * f.tx + b * f.ty + c * f.tz + t)
            == a * f.apply(p).x + b * f.apply(p).y + c * f.apply(p).z + t,
        (a * f.xx + b * f.yx + c * f.zx) * p.x + (a * f.xy + b * f.yy + c * f.zy) * p.y
            + (a * f.xz + b * f.yz + c * f.zz) * p.z
            == a * f.linear(p).x + b * f.linear(p).y + c * f.linear(p).z,
{
    lemma_spread(a, f.xx * p.x, f.xy * p.y, f.xz * p.z, f.tx);
    lemma_spread(b, f.yx * p.x, f.yy * p.y, f.yz * p.z, f.ty);
    lemma_spread(c, f.zx * p.x, f.zy * p.y, f.zz * p.z, f.tz);
    lemma_spread(a, f.xx * p.x, f.xy * p.y, f.xz * p.z, 0);
    lemma_spread(b, f.yx * p.x, f.yy * p.y, f.yz * p.z, 0);
    lemma_spread(c, f.zx * p.x, f.zy * p.y, f.zz * p.z, 0);
    lemma_assoc(a, f.xx, p.x);
    lemma_assoc(a, f.xy, p.y);
    lemma_assoc(a, f.xz, p.z);
    lemma_assoc(b, f.yx, p.x);
    lemma_assoc(b, f.yy, p.y);
    lemma_assoc(b, f.yz, p.z);
    lemma_assoc(c, f.zx, p.x);
    lemma_assoc(c, f.zy, p.y);
    lemma_assoc(c, f.zz, p.z);
    lemma_gather(a * f.xx, b * f.yx, c * f.zx, p.x);
    lemma_gather(a * f.xy, b * f.yy, c * f.zy, p.y);
    lemma_gather(a * f.xz, b * f.yz, c * f.zz, p.z);
}

/// Applying a composed map is applying its two parts in turn.
pub proof fn lemma_after_apply(second: Affine, first: Affine, p: Vec3)
    ensures
        second.after(first).apply(p) == second.apply(first.apply(p)),
        second.after(first).linear(p) == second.linear(first.linear(p)),
{
    lemma_row_after(second.xx, second.xy, second.xz, second.tx, first, p);
    lemma_row_after(second.yx, second.yy, second.yz, second.ty, first, p);
    lemma_row_after(second.zx, second.zy, second.zz, second.tz, first, p);
}

proof fn lemma_spread2(a: int, x: int, y: int)
    by (nonlinear_arith)
    ensures
        a * (x + y) == a * x + a * y,
{
}

/// One row of a map applied to `p + k * q`.
proof fn lemma_row_combination(a: int, b: int, c: int, p: Vec3, q: Vec3, k: int)
    ensures
        a * (p.x + q.x * k) + b * (p.y + q.y * k) + c * (p.z + q.z * k) == (a * p.x + b * p.y + c
            * p.z) + (a * q.x + b * q.y + c * q.z) * k,
{
    lemma_spread2(a, p.x, q.x * k);
    lemma_spread2(b, p.y, q.y * k);
    lemma_spread2(c, p.z, q.z * k);
    lemma_assoc(a, q.x, k);
    lemma_assoc(b, q.y, k);
    lemma_assoc(c, q.z, k);
    lemma_gather(a * q.x, b * q.y, c * q.z, k);
}

/// An affine map carries `p + k * q` to the image of `p` plus `k` times the
/// linear image of `q`.
pub proof fn lemma_apply_combination(t: Affine, p: Vec3, q: Vec3, k: int)
    ensures
        t.apply(p.plus(q.times(k))) == t.apply(p).plus(t.linear(q).times(k)),
        t.linear(p.plus(q.times(k))) == t.linear(p).plus(t.linear(q).times(k)),
{
    lemma_row_combination(t.xx, t.xy, t.xz, p, q, k);
    lemma_row_combination(t.yx, t.yy, t.yz, p, q, k);
    lemma_row_combination(t.zx, t.zy, t.zz, p, q, k);
}

/// The identity map moves nothing.
pub proof fn lemma_identity_apply(p: Vec3)
    ensures
        Affine::identity().apply(p) == p,
        Affine::identity().linear(p) == p,
{
}

/// The identity map composed with any map is that map.
pub proof fn lemma_identity_after(t: Affine)
    ensures
        Affine::identity().after(t) == t,
        t.after(Affine::identity()) == t,
{
}

/// A translation moves each point by its offset and leaves displacements alone.
pub proof fn lemma_translation_apply(offset: Vec3, p: Vec3)
    ensures
        Affine::translation(offset).apply(p) == p.plus(offset),
        Affine::translation(offset).linear(p) == p,
        Affine::translation(offset).is_rigid(),
{
}

/// The inverse of a rigid map, applied after the map, is the identity.
pub proof fn lemma_rigid_inverse(t: Affine)
    requires
        t.is_rigid(),
    ensures
        t.rigid_inverse().after(t) == Affine::identity(),
{
    let u = t.rigid_inverse();
    let c = u.after(t);
    assert(c.tx == 0 && c.ty == 0 && c.tz == 0) by (nonlinear_arith)
        requires
            c.tx == t.xx * t.tx + t.yx * t.ty + t.zx * t.tz - (t.xx * t.tx + t.yx * t.ty + t.zx
                * t.tz),
            c.ty == t.xy * t.tx + t.yy * t.ty + t.zy * t.tz - (t.xy * t.tx + t.yy * t.ty + t.zy
                * t.tz),
            c.tz == t.xz * t.tx + t.yz * t.ty + t.zz * t.tz - (t.xz * t.tx + t.yz * t.ty + t.zz
                * t.tz),
    ;
    assert(c.xy == c.yx && c.xz == c.zx && c.yz == c.zy) by (nonlinear_arith)
        requires
            c.xy == t.xx * t.xy + t.yx * t.yy + t.zx * t.zy,
            c.yx == t.xy * t.xx + t.yy * t.yx + t.zy * t.zx,
            c.xz == t.xx * t.xz + t.yx * t.yz + t.zx * t.zz,
            c.zx == t.xz * t.xx + t.yz * t.yx + t.zz * t.zx,
            c.yz == t.xy * t.xz + t.yy * t.yz + t.zy * t.zz,
            c.zy == t.xz * t.xy + t.yz * t.yy + t.zz * t.zy,
    ;
}

} // verus!
