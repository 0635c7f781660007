//! The intersection of two surfaces that are swept along one path.

use vstd::prelude::*;
use crate::geometry::curve::Curve;
use crate::geometry::surface::Surface;
use crate::math::point::Vector;
use crate::math::scalar::{magnitude, product, Tolerance};
use crate::math::space::Vec3;

verus! {

/// The line along which two swept surfaces meet.
///
/// The line runs along the path of the surfaces. It passes through the point
/// of the first surface's curve at the curve coordinate
/// `on_first / scale`, and through the point of the second surface's curve
/// at `on_second / scale`, moved along the path; `scale` is positive.
#[derive(Clone, Copy, Debug, PartialEq, Eq, Structural)]
pub struct SurfaceIntersection {
    pub on_first: i128,
    pub on_second: i128,
    pub scale: i128,
    pub direction: Vector,
}

/// The line along which two swept surfaces meet, in unbounded integers.
pub ghost struct SharedLine {
    pub on_first: int,
    pub on_second: int,
    pub scale: int,
    pub direction: Vector,
}

/// The determinant of three displacements.
pub open spec fn det3(a: Vec3, b: Vec3, c: Vec3) -> int {
    a.x * (b.y * c.z - b.z * c.y) - a.y * (b.x * c.z - b.z * c.x) + a.z * (b.x * c.y - b.y * c.x)
}

/// Where two surfaces meet.
///
/// Two surfaces that are swept from lines along one and the same path meet
/// where their lines meet when seen along the path, and from there all along
/// the path. With `d1` and `d2` the directions of the lines, `p` the path
/// and `w` the displacement from the origin of the first line to that of the
/// second, the lines count as parallel, and the surfaces as not meeting in
/// one line, where the determinant of `d1`, `d2` and `p` is at most the
/// tolerance. Else the lines meet at the solution of
/// `s * d1 - t * d2 - k * p == w`. Surfaces swept from circles, or along
/// different paths, are not compared.
pub open spec fn spec_surface_surface(first: Surface, second: Surface, tolerance: int) -> Option<
    SharedLine,
> {
    match (first, second) {
        (Surface::SweptCurve(a), Surface::SweptCurve(b)) => match (a.curve, b.curve) {
            (Curve::Line(l1), Curve::Line(l2)) => {
                let w = l2.origin@.minus(l1.origin@);
                let det = det3(l1.direction@, l2.direction@, a.path@);
                if a.path != b.path || magnitude(det) <= tolerance {
                    None
                } else {
                    let s = det3(w, l2.direction@, a.path@);
                    let t = det3(w, l1.direction@, a.path@);
                    Some(
                        SharedLine {
                            on_first: if det < 0 {
                                -s
                            } else {
                                s
                            },
                            on_second: if det < 0 {
                                -t
                            } else {
                                t
                            },
                            scale: magnitude(det),
                            direction: a.path,
                        },
                    )
                }
            },
            _ => None,
        },
    }
}

/// `bx * cy - by * cx`, exactly.
fn minor(bx: i32, by: i32, cx: i32, cy: i32) -> (r: i128)
    ensures
        r == bx * cy - by * cx,
        -0x8000_0000_0000_0000 <= r <= 0x8000_0000_0000_0000,
{
    product(bx, cy) as i128 - product(by, cx) as i128
}

/// `a * m`, exactly.
fn times(a: i64, m: i128) -> (r: i128)
    requires
        -0x1_0000_0000 <= a <= 0x1_0000_0000,
        -0x8000_0000_0000_0000 <= m <= 0x8000_0000_0000_0000,
    ensures
        r == a * m,
        -0x8000_0000_0000_0000_0000_0000 <= r <= 0x8000_0000_0000_0000_0000_0000,
{
    assert(-0x8000_0000_0000_0000_0000_0000 <= a * m <= 0x8000_0000_0000_0000_0000_0000)
        by (nonlinear_arith)
        requires
            -0x1_0000_0000 <= a <= 0x1_0000_0000,
            -0x8000_0000_0000_0000 <= m <= 0x8000_0000_0000_0000,
    ;
    (a as i128) * m
}

/// The determinant of a displacement between two points and two stored
/// displacements.
fn determinant(ax: i64, ay: i64, az: i64, b: &Vector, c: &Vector) -> (r: i128)
    requires
        -0x1_0000_0000 <= ax <= 0x1_0000_0000,
        -0x1_0000_0000 <= ay <= 0x1_0000_0000,
        -0x1_0000_0000 <= az <= 0x1_0000_0000,
    ensures
        r == det3(Vec3 { x: ax as int, y: ay as int, z: az as int }, b@, c@),
        -0x2_0000_0000_0000_0000_0000_0000 <= r <= 0x2_0000_0000_0000_0000_0000_0000,
{
    times(ax, minor(b.y, b.z, c.y, c.z)) - times(ay, minor(b.x, b.z, c.x, c.z)) + times(
        az,
        minor(b.x, b.y, c.x, c.y),
    )
}

/// Finds the line along which two surfaces meet.
pub fn surface_surface(first: &Surface, second: &Surface, tolerance: &Tolerance) -> (r: Option<
    SurfaceIntersection,
>)
    ensures
        match r {
            Some(found) => spec_surface_surface(*first, *second, tolerance.distance as int) == Some(
                SharedLine {
                    on_first: found.on_first as int,
                    on_second: found.on_second as int,
                    scale: found.scale as int,
                    direction: found.direction,
                },
            ),
            None => spec_surface_surface(*first, *second, tolerance.distance as int) is None,
        },
{
    match (first, second) {
        (Surface::SweptCurve(a), Surface::SweptCurve(b)) => match (a.curve, b.curve) {
            (Curve::Line(l1), Curve::Line(l2)) => {
                if a.path != b.path {
                    return None;
                }
                let wx: i64 = l2.origin.x as i64 - l1.origin.x as i64;
                let wy: i64 = l2.origin.y as i64 - l1.origin.y as i64;
                let wz: i64 = l2.origin.z as i64 - l1.origin.z as i64;
                let det: i128 = determinant(
                    l1.direction.x as i64,
                    l1.direction.y as i64,
                    l1.direction.z as i64,
                    &l2.direction,
                    &a.path,
                );
                let size: i128 = if det < 0 {
                    -det
                } else {
                    det
                };
                if size <= tolerance.distance as i128 {
                    return None;
                }
                let s: i128 = determinant(wx, wy, wz, &l2.direction, &a.path);
                let t: i128 = determinant(wx, wy, wz, &l1.direction, &a.path);
                let (on_first, on_second): (i128, i128) = if det < 0 {
                    (-s, -t)
                } else {
                    (s, t)
                };
                Some(SurfaceIntersection { on_first, on_second, scale: size, direction: a.path })
            },
            _ => None,
        },
    }
}

proof fn lemma_spread3(v: int, x: int, y: int, z: int)
    by (nonlinear_arith)
    ensures
        v * (x - y + z) == v * x - v * y + v * z,
{
}

proof fn lemma_spread_product(v: int, a: int, m: int, n: int)
    by (nonlinear_arith)
    ensures
        v * (a * (m - n)) == v * (a * m) - v * (a * n),
{
}

/// `v * det(a, b, c)`, multiplied out.
proof fn lemma_scaled_det(v: int, a: Vec3, b: Vec3, c: Vec3)
    ensures
        v * det3(a, b, c) == v * (a.x * (b.y * c.z)) - v * (a.x * (b.z * c.y)) - v * (a.y * (b.x
            * c.z)) + v * (a.y * (b.z * c.x)) + v * (a.z * (b.x * c.y)) - v * (a.z * (b.y * c.x)),
{
    lemma_spread3(
        v,
        a.x * (b.y * c.z - b.z * c.y),
        a.y * (b.x * c.z - b.z * c.x),
        a.z * (b.x * c.y - b.y * c.x),
    );
    lemma_spread_product(v, a.x, b.y * c.z, b.z * c.y);
    lemma_spread_product(v, a.y, b.x * c.z, b.z * c.x);
    lemma_spread_product(v, a.z, b.x * c.y, b.y * c.x);
}

/// For any four displacements `a`, `b`, `c` and `w` of space,
/// `det(a, b, c) * w == det(w, b, c) * a - det(w, a, c) * b + det(a, b, w) * c`.
proof fn lemma_four_displacements(a: Vec3, b: Vec3, c: Vec3, w: Vec3)
    ensures
        w.x * det3(a, b, c) == a.x * det3(w, b, c) - b.x * det3(w, a, c) + c.x * det3(a, b, w),
        w.y * det3(a, b, c) == a.y * det3(w, b, c) - b.y * det3(w, a, c) + c.y * det3(a, b, w),
        w.z * det3(a, b, c) == a.z * det3(w, b, c) - b.z * det3(w, a, c) + c.z * det3(a, b, w),
{
    let (ax, ay, az) = (a.x, a.y, a.z);
    let (bx, by, bz) = (b.x, b.y, b.z);
    let (cx, cy, cz) = (c.x, c.y, c.z);
    let (wx, wy, wz) = (w.x, w.y, w.z);
    lemma_scaled_det(wx, a, b, c);
    assert(wx * (ax * (by * cz)) == (((ax * by) * cz) * wx)) by (nonlinear_arith);
    assert(wx * (ax * (bz * cy)) == (((ax * bz) * cy) * wx)) by (nonlinear_arith);
    assert(wx * (ay * (bx * cz)) == (((ay * bx) * cz) * wx)) by (nonlinear_arith);
    assert(wx * (ay * (bz * cx)) == (((ay * bz) * cx) * wx)) by (nonlinear_arith);
    assert(wx * (az * (bx * cy)) == (((az * bx) * cy) * wx)) by (nonlinear_arith);
    assert(wx * (az * (by * cx)) == (((az * by) * cx) * wx)) by (nonlinear_arith);
    lemma_scaled_det(ax, w, b, c);
    assert(ax * (wx * (by * cz)) == (((ax * by) * cz) * wx)) by (nonlinear_arith);
    assert(ax * (wx * (bz * cy)) == (((ax * bz) * cy) * wx)) by (nonlinear_arith);
    assert(ax * (wy * (bx * cz)) == (((ax * bx) * cz) * wy)) by (nonlinear_arith);
    assert(ax * (wy * (bz * cx)) == (((ax * bz) * cx) * wy)) by (nonlinear_arith);
    assert(ax * (wz * (bx * cy)) == (((ax * bx) * cy) * wz)) by (nonlinear_arith);
    assert(ax * (wz * (by * cx)) == (((ax * by) * cx) * wz)) by (nonlinear_arith);
    lemma_scaled_det(bx, w, a, c);
    assert(bx * (wx * (ay * cz)) == (((ay * bx) * cz) * wx)) by (nonlinear_arith);
    assert(bx * (wx * (az * cy)) == (((az * bx) * cy) * wx)) by (nonlinear_arith);
    assert(bx * (wy * (ax * cz)) == (((ax * bx) * cz) * wy)) by (nonlinear_arith);
    assert(bx * (wy * (az * cx)) == (((az * bx) * cx) * wy)) by (nonlinear_arith);
    assert(bx * (wz * (ax * cy)) == (((ax * bx) * cy) * wz)) by (nonlinear_arith);
    assert(bx * (wz * (ay * cx)) == (((ay * bx) * cx) * wz)) by (nonlinear_arith);
    lemma_scaled_det(cx, a, b, w);
    assert(cx * (ax * (by * wz)) == (((ax * by) * cx) * wz)) by (nonlinear_arith);
    assert(cx * (ax * (bz * wy)) == (((ax * bz) * cx) * wy)) by (nonlinear_arith);
    assert(cx * (ay * (bx * wz)) == (((ay * bx) * cx) * wz)) by (nonlinear_arith);
    assert(cx * (ay * (bz * wx)) == (((ay * bz) * cx) * wx)) by (nonlinear_arith);
    assert(cx * (az * (bx * wy)) == (((az * bx) * cx) * wy)) by (nonlinear_arith);
    assert(cx * (az * (by * wx)) == (((az * by) * cx) * wx)) by (nonlinear_arith);
    lemma_scaled_det(wy, a, b, c);
    assert(wy * (ax * (by * cz)) == (((ax * by) * cz) * wy)) by (nonlinear_arith);
    assert(wy * (ax * (bz * cy)) == (((ax * bz) * cy) * wy)) by (nonlinear_arith);
    assert(wy * (ay * (bx * cz)) == (((ay * bx) * cz) * wy)) by (nonlinear_arith);
    assert(wy * (ay * (bz * cx)) == (((ay * bz) * cx) * wy)) by (nonlinear_arith);
    assert(wy * (az * (bx * cy)) == (((az * bx) * cy) * wy)) by (nonlinear_arith);
    assert(wy * (az * (by * cx)) == (((az * by) * cx) * wy)) by (nonlinear_arith);
    lemma_scaled_det(ay, w, b, c);
    assert(ay * (wx * (by * cz)) == (((ay * by) * cz) * wx)) by (nonlinear_arith);
    assert(ay * (wx * (bz * cy)) == (((ay * bz) * cy) * wx)) by (nonlinear_arith);
    assert(ay * (wy * (bx * cz)) == (((ay * bx) * cz) * wy)) by (nonlinear_arith);
    assert(ay * (wy * (bz * cx)) == (((ay * bz) * cx) * wy)) by (nonlinear_arith);
    assert(ay * (wz * (bx * cy)) == (((ay * bx) * cy) * wz)) by (nonlinear_arith);
    assert(ay * (wz * (by * cx)) == (((ay * by) * cx) * wz)) by (nonlinear_arith);
    lemma_scaled_det(by, w, a, c);
    assert(by * (wx * (ay * cz)) == (((ay * by) * cz) * wx)) by (nonlinear_arith);
    assert(by * (wx * (az * cy)) == (((az * by) * cy) * wx)) by (nonlinear_arith);
    assert(by * (wy * (ax * cz)) == (((ax * by) * cz) * wy)) by (nonlinear_arith);
    assert(by * (wy * (az * cx)) == (((az * by) * cx) * wy)) by (nonlinear_arith);
    assert(by * (wz * (ax * cy)) == (((ax * by) * cy) * wz)) by (nonlinear_arith);
    assert(by * (wz * (ay * cx)) == (((ay * by) * cx) * wz)) by (nonlinear_arith);
    lemma_scaled_det(cy, a, b, w);
    assert(cy * (ax * (by * wz)) == (((ax * by) * cy) * wz)) by (nonlinear_arith);
    assert(cy * (ax * (bz * wy)) == (((ax * bz) * cy) * wy)) by (nonlinear_arith);
    assert(cy * (ay * (bx * wz)) == (((ay * bx) * cy) * wz)) by (nonlinear_arith);
    assert(cy * (ay * (bz * wx)) == (((ay * bz) * cy) * wx)) by (nonlinear_arith);
    assert(cy * (az * (bx * wy)) == (((az * bx) * cy) * wy)) by (nonlinear_arith);
    assert(cy * (az * (by * wx)) == (((az * by) * cy) * wx)) by (nonlinear_arith);
    lemma_scaled_det(wz, a, b, c);
    assert(wz * (ax * (by * cz)) == (((ax * by) * cz) * wz)) by (nonlinear_arith);
    assert(wz * (ax * (bz * cy)) == (((ax * bz) * cy) * wz)) by (nonlinear_arith);
    assert(wz * (ay * (bx * cz)) == (((ay * bx) * cz) * wz)) by (nonlinear_arith);
    assert(wz * (ay * (bz * cx)) == (((ay * bz) * cx) * wz)) by (nonlinear_arith);
    assert(wz * (az * (bx * cy)) == (((az * bx) * cy) * wz)) by (nonlinear_arith);
    assert(wz * (az * (by * cx)) == (((az * by) * cx) * wz)) by (nonlinear_arith);
    lemma_scaled_det(az, w, b, c);
    assert(az * (wx * (by * cz)) == (((az * by) * cz) * wx)) by (nonlinear_arith);
    assert(az * (wx * (bz * cy)) == (((az * bz) * cy) * wx)) by (nonlinear_arith);
    assert(az * (wy * (bx * cz)) == (((az * bx) * cz) * wy)) by (nonlinear_arith);
    assert(az * (wy * (bz * cx)) == (((az * bz) * cx) * wy)) by (nonlinear_arith);
    assert(az * (wz * (bx * cy)) == (((az * bx) * cy) * wz)) by (nonlinear_arith);
    assert(az * (wz * (by * cx)) == (((az * by) * cx) * wz)) by (nonlinear_arith);
    lemma_scaled_det(bz, w, a, c);
    assert(bz * (wx * (ay * cz)) == (((ay * bz) * cz) * wx)) by (nonlinear_arith);
    assert(bz * (wx * (az * cy)) == (((az * bz) * cy) * wx)) by (nonlinear_arith);
    assert(bz * (wy * (ax * cz)) == (((ax * bz) * cz) * wy)) by (nonlinear_arith);
    assert(bz * (wy * (az * cx)) == (((az * bz) * cx) * wy)) by (nonlinear_arith);
    assert(bz * (wz * (ax * cy)) == (((ax * bz) * cy) * wz)) by (nonlinear_arith);
    assert(bz * (wz * (ay * cx)) == (((ay * bz) * cx) * wz)) by (nonlinear_arith);
    lemma_scaled_det(cz, a, b, w);
    assert(cz * (ax * (by * wz)) == (((ax * by) * cz) * wz)) by (nonlinear_arith);
    assert(cz * (ax * (bz * wy)) == (((ax * bz) * cz) * wy)) by (nonlinear_arith);
    assert(cz * (ay * (bx * wz)) == (((ay * bx) * cz) * wz)) by (nonlinear_arith);
    assert(cz * (ay * (bz * wx)) == (((ay * bz) * cz) * wx)) by (nonlinear_arith);
    assert(cz * (az * (bx * wy)) == (((az * bx) * cz) * wy)) by (nonlinear_arith);
    assert(cz * (az * (by * wx)) == (((az * by) * cz) * wx)) by (nonlinear_arith);
}

/// The line along which two surfaces meet lies on both of them: the point
/// of the first line at the reported coordinate and the point of the second
/// line at the reported coordinate lie the path apart, `lift / scale` times
/// over, so that the line along the path through the one passes through the
/// other.
pub proof fn lemma_shared_line_lies_on_both(first: Surface, second: Surface, tolerance: int)
    requires
        0 <= tolerance,
        spec_surface_surface(first, second, tolerance) is Some,
    ensures
        ({
            let found = spec_surface_surface(first, second, tolerance).unwrap();
            let a = first->SweptCurve_0;
            let b = second->SweptCurve_0;
            let l1 = a.curve->Line_0;
            let l2 = b.curve->Line_0;
            let det = det3(l1.direction@, l2.direction@, a.path@);
            let rise = det3(l1.direction@, l2.direction@, l2.origin@.minus(l1.origin@));
            let lift = if det < 0 {
                rise
            } else {
                -rise
            };
            &&& found.scale > 0
            &&& found.direction == a.path
            &&& found.direction == b.path
            &&& l1.origin@.times(found.scale).plus(l1.direction@.times(found.on_first))
                == l2.origin@.times(found.scale).plus(l2.direction@.times(found.on_second)).plus(
                a.path@.times(lift),
            )
        }),
{
    let a = first->SweptCurve_0;
    let b = second->SweptCurve_0;
    let l1 = a.curve->Line_0;
    let l2 = b.curve->Line_0;
    let (d1, d2, p) = (l1.direction@, l2.direction@, a.path@);
    let (o1, o2) = (l1.origin@, l2.origin@);
    let w = o2.minus(o1);
    let det = det3(d1, d2, p);
    let s = det3(w, d2, p);
    let t = det3(w, d1, p);
    let k = det3(d1, d2, w);
    lemma_four_displacements(d1, d2, p, w);
    lemma_on_both(o1.x, o2.x, d1.x, d2.x, p.x, det, s, t, k);
    lemma_on_both(o1.y, o2.y, d1.y, d2.y, p.y, det, s, t, k);
    lemma_on_both(o1.z, o2.z, d1.z, d2.z, p.z, det, s, t, k);
}

/// One coordinate of the two points of a shared line.
proof fn lemma_on_both(o1: int, o2: int, d1: int, d2: int, p: int, det: int, s: int, t: int, k: int)
    by (nonlinear_arith)
    requires
        (o2 - o1) * det == d1 * s - d2 * t + p * k,
    ensures
        o1 * det + d1 * s == o2 * det + d2 * t + p * (-k),
        o1 * (-det) + d1 * (-s) == o2 * (-det) + d2 * (-t) + p * k,
{
}

} // verus!
