//! Machine integers that hold coordinates, and the wide arithmetic around them.

use vstd::prelude::*;

verus! {

/// Whether `v` can be stored as one coordinate.
pub open spec fn representable(v: int) -> bool {
    i32::MIN <= v <= i32::MAX
}

/// The size of `x`, without its sign.
pub open spec fn magnitude(x: int) -> int {
    if x < 0 {
        -x
    } else {
        x
    }
}

/// The smaller of two integers.
pub open spec fn least(a: int, b: int) -> int {
    if a <= b {
        a
    } else {
        b
    }
}

/// The larger of two integers.
pub open spec fn greatest(a: int, b: int) -> int {
    if a <= b {
        b
    } else {
        a
    }
}

/// The smaller of two coordinates.
pub fn smaller(a: i32, b: i32) -> (r: i32)
    ensures
        r == least(a as int, b as int),
{
    if a <= b {
        a
    } else {
        b
    }
}

/// The larger of two coordinates.
pub fn larger(a: i32, b: i32) -> (r: i32)
    ensures
        r == greatest(a as int, b as int),
{
    if a <= b {
        b
    } else {
        a
    }
}

/// The coordinate that holds `v`, if there is one.
pub fn narrow(v: i128) -> (r: Option<i32>)
    ensures
        representable(v as int) ==> r == Some(v as i32),
        !representable(v as int) ==> r is None,
{
    if v < -2147483648 || v > 2147483647 {
        None
    } else {
        Some(v as i32)
    }
}

/// The exact product of two coordinates.
pub fn product(a: i32, b: i32) -> (r: i64)
    ensures
        r == a * b,
        -0x4000_0000_0000_0000 <= r <= 0x4000_0000_0000_0000,
{
    assert(-0x4000_0000_0000_0000 <= (a as int) * (b as int) <= 0x4000_0000_0000_0000)
        by (nonlinear_arith)
        requires
            -0x8000_0000 <= a as int <= 0x7fff_ffff,
            -0x8000_0000 <= b as int <= 0x7fff_ffff,
    ;
    (a as i64) * (b as i64)
}

/// The exact product of two wide integers.
pub fn wide_product(a: i64, b: i64) -> (r: i128)
    ensures
        r == a * b,
        -0x4000_0000_0000_0000_0000_0000_0000_0000 <= r <= 0x4000_0000_0000_0000_0000_0000_0000_0000,
{
    assert(-0x4000_0000_0000_0000_0000_0000_0000_0000 <= (a as int) * (b as int)
        <= 0x4000_0000_0000_0000_0000_0000_0000_0000) by (nonlinear_arith)
        requires
            -0x8000_0000_0000_0000 <= a as int <= 0x7fff_ffff_ffff_ffff,
            -0x8000_0000_0000_0000 <= b as int <= 0x7fff_ffff_ffff_ffff,
    ;
    (a as i128) * (b as i128)
}

/// The exact product of a coordinate and a wide integer.
pub fn scaled(d: i32, t: i64) -> (r: i128)
    ensures
        r == d * t,
        -0x4000_0000_0000_0000_0000_0000 <= r <= 0x4000_0000_0000_0000_0000_0000,
{
    assert(-0x4000_0000_0000_0000_0000_0000 <= (d as int) * (t as int)
        <= 0x4000_0000_0000_0000_0000_0000) by (nonlinear_arith)
        requires
            -0x8000_0000 <= d as int <= 0x7fff_ffff,
            -0x8000_0000_0000_0000 <= t as int <= 0x7fff_ffff_ffff_ffff,
    ;
    (d as i128) * (t as i128)
}

/// `a * x + b * y + c * z + t`, exactly.
pub fn row_image(a: i32, b: i32, c: i32, t: i32, x: i32, y: i32, z: i32) -> (r: i128)
    ensures
        r == a * x + b * y + c * z + t,
        -0x1_0000_0000_0000_0000 <= r <= 0x1_0000_0000_0000_0000,
{
    product(a, x) as i128 + product(b, y) as i128 + product(c, z) as i128 + t as i128
}

/// The distance below which two points count as one.
///
/// A tolerance of zero asks for exact coincidence.
#[derive(Clone, Copy, Debug, PartialEq, Eq, Structural)]
pub struct Tolerance {
    pub distance: u32,
}

impl Tolerance {
    /// The tolerance that accepts points up to `distance` lattice units apart.
    pub fn new(distance: u32) -> (r: Self)
        ensures
            r.distance == distance,
    {
        Tolerance { distance }
    }

    /// The tolerance that accepts only exact coincidence.
    pub fn exact() -> (r: Self)
        ensures
            r.distance == 0,
    {
        Tolerance { distance: 0 }
    }

    /// The square of the accepted distance.
    pub fn squared(&self) -> (r: u64)
        ensures
            r == self.distance * self.distance,
    {
        assert(0 <= (self.distance as int) * (self.distance as int) <= 0xffff_fffe_0000_0001)
            by (nonlinear_arith)
            requires
                0 <= self.distance as int <= 0xffff_ffff,
        ;
        (self.distance as u64) * (self.distance as u64)
    }
}

} // verus!
