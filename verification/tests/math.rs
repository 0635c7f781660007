use fj_kernel::geometry::curve::{Curve, Line};
use fj_kernel::math::aabb::{grow, Aabb};
use fj_kernel::math::point::{Point, Point2, Vector, Vector2};
use fj_kernel::math::scalar::{larger, narrow, product, row_image, scaled, smaller, wide_product, Tolerance};
use fj_kernel::math::transform::{Axis, Transform};

#[test]
fn wide_arithmetic_is_exact() {
    assert_eq!(product(i32::MIN, i32::MIN), 1 << 62);
    assert_eq!(product(-3, 7), -21);
    assert_eq!(wide_product(i64::MIN, i64::MIN), 1 << 126);
    assert_eq!(scaled(i32::MIN, i64::MAX), -(1i128 << 31) * ((1i128 << 63) - 1));
    assert_eq!(row_image(1, 2, 3, 4, 5, 6, 7), 1 * 5 + 2 * 6 + 3 * 7 + 4);
    assert_eq!(narrow(2147483647), Some(i32::MAX));
    assert_eq!(narrow(2147483648), None);
    assert_eq!(narrow(-2147483648), Some(i32::MIN));
    assert_eq!(narrow(-2147483649), None);
    assert_eq!(smaller(3, -3), -3);
    assert_eq!(larger(3, -3), 3);
}

#[test]
fn tolerance_gates_coincidence() {
    let a = Point::new(0, 0, 0);
    let b = Point::new(3, 4, 0);
    assert_eq!(a.squared_distance(&b), 25);
    assert!(a.coincides_with(&b, &Tolerance::new(5)));
    assert!(!a.coincides_with(&b, &Tolerance::new(4)));
    assert!(a.coincides_with(&a, &Tolerance::exact()));
    assert!(!a.coincides_with(&b, &Tolerance::exact()));
    assert_eq!(Tolerance::new(u32::MAX).squared(), 18446744065119617025);
    let far = Point::new(i32::MAX, i32::MAX, i32::MAX);
    let near = Point::new(i32::MIN, i32::MIN, i32::MIN);
    assert_eq!(far.squared_distance(&near), 3 * ((1u128 << 32) - 1) * ((1u128 << 32) - 1));
    assert!(!far.coincides_with(&near, &Tolerance::new(u32::MAX)));
}

#[test]
fn points_and_vectors_are_made_from_coordinates() {
    assert_eq!(Point::from_array([1, 2, 3]), Point::new(1, 2, 3));
    assert_eq!(Vector::from_array([1, 2, 3]), Vector::new(1, 2, 3));
    assert_eq!(Point::origin(), Point::new(0, 0, 0));
    assert!(Vector::zero().is_zero());
    assert!(!Vector::new(0, 0, 1).is_zero());
    assert_eq!(Point::new(1, 2, 3).translated(&Vector::new(1, 1, 1)), Some(Point::new(2, 3, 4)));
    assert_eq!(Point::new(1, 2, i32::MIN).translated(&Vector::new(0, 0, -1)), None);
    assert_eq!(Point::new(1, 2, 3).flattened(Axis::X), Point2::new(2, 3));
    assert_eq!(Point::new(1, 2, 3).flattened(Axis::Y), Point2::new(1, 3));
    assert_eq!(Point::new(1, 2, 3).flattened(Axis::Z), Point2::new(1, 2));
    assert_eq!(Vector::new(1, 2, 3).flattened(Axis::Y), Vector2::new(1, 3));
}

#[test]
fn rotations_turn_counter_clockwise_about_each_axis() {
    let x = Point::new(1, 0, 0);
    let y = Point::new(0, 1, 0);
    let z = Point::new(0, 0, 1);
    assert_eq!(Transform::rotation(Axis::X, 1).transform_point(&y), Some(z));
    assert_eq!(Transform::rotation(Axis::Y, 1).transform_point(&z), Some(x));
    assert_eq!(Transform::rotation(Axis::Z, 1).transform_point(&x), Some(y));
    assert_eq!(Transform::rotation(Axis::Z, 2).transform_point(&x), Some(Point::new(-1, 0, 0)));
    assert_eq!(Transform::rotation(Axis::Z, 3).transform_point(&x), Some(Point::new(0, -1, 0)));
    assert_eq!(Transform::rotation(Axis::Z, 4), Transform::identity());
    assert_eq!(Transform::rotation(Axis::X, 0), Transform::identity());
    assert!(Transform::rotation(Axis::Y, 7).is_rigid());
    assert_eq!(
        Transform::rotation(Axis::Y, 1).inverse(),
        Some(Transform::rotation(Axis::Y, 3))
    );
}

#[test]
fn composition_applies_the_first_transform_first() {
    let turn = Transform::rotation(Axis::Z, 1);
    let shift = Transform::translation(Vector::new(10, 0, 0));
    let turn_then_shift = turn.then(&shift).unwrap();
    let shift_then_turn = shift.then(&turn).unwrap();
    let p = Point::new(1, 0, 0);
    assert_eq!(turn_then_shift.transform_point(&p), Some(Point::new(10, 1, 0)));
    assert_eq!(shift_then_turn.transform_point(&p), Some(Point::new(0, 11, 0)));
    let big = Transform { xx: i32::MAX, xy: 0, xz: 0, yx: 0, yy: 1, yz: 0, zx: 0, zy: 0, zz: 1, tx: 0, ty: 0, tz: 0 };
    assert_eq!(big.then(&big), None);
}

#[test]
fn lines_name_their_points_by_coordinates() {
    let line = Line { origin: Point::new(1, 2, 3), direction: Vector::new(0, -2, 4) };
    assert_eq!(line.point_from_line_coord(3), Some(Point::new(1, -4, 15)));
    assert_eq!(line.point_from_line_coord(-1), Some(Point::new(1, 4, -1)));
    assert_eq!(line.line_coord_of(&Point::new(1, -4, 15)), Some(3));
    assert_eq!(line.line_coord_of(&Point::new(1, -3, 13)), None);
    assert_eq!(line.line_coord_of(&Point::new(2, -4, 15)), None);
    assert_eq!(line.point_from_line_coord(1 << 40), None);
    assert_eq!(
        Line::from_points(&Point::new(1, 1, 1), &Point::new(4, 0, -1)),
        Some(Line { origin: Point::new(1, 1, 1), direction: Vector::new(3, -1, -2) })
    );
    assert_eq!(Line::from_points(&Point::new(i32::MIN, 0, 0), &Point::new(1, 0, 0)), None);
    let still = Line { origin: Point::new(5, 5, 5), direction: Vector::zero() };
    assert_eq!(still.line_coord_of(&Point::new(5, 5, 5)), Some(0));
    assert_eq!(still.line_coord_of(&Point::new(5, 5, 6)), None);
    let long = Line { origin: Point::new(i32::MIN, 0, 0), direction: Vector::new(1, 0, 0) };
    assert_eq!(long.line_coord_of(&Point::new(i32::MAX, 0, 0)), Some((1 << 32) - 1));
    assert_eq!(Curve::Line(long).point_from_curve_coord((1 << 32) - 1), Some(Point::new(i32::MAX, 0, 0)));
}

#[test]
fn boxes_grow_to_hold_points() {
    let b = Aabb::around(Point::new(1, 1, 1));
    assert_eq!(b, Aabb { min: Point::new(1, 1, 1), max: Point::new(1, 1, 1) });
    let grown = b.including(&Point::new(-1, 5, 1));
    assert_eq!(grown, Aabb { min: Point::new(-1, 1, 1), max: Point::new(1, 5, 1) });
    assert_eq!(grow(None, &Point::new(2, 2, 2)), Aabb::around(Point::new(2, 2, 2)));
    assert_eq!(grow(Some(b), &Point::new(-1, 5, 1)), grown);
    let other = Aabb { min: Point::new(0, 0, 0), max: Point::new(3, 3, 3) };
    assert_eq!(grown.merged(&other), Aabb { min: Point::new(-1, 0, 0), max: Point::new(3, 5, 3) });
    assert_eq!(
        other.translated(&Vector::new(1, 2, 3)),
        Some(Aabb { min: Point::new(1, 2, 3), max: Point::new(4, 5, 6) })
    );
    assert_eq!(other.translated(&Vector::new(i32::MAX, 0, 0)), None);
    assert_eq!(
        Aabb::from_points(&vec![Point::new(3, 0, 0), Point::new(0, 4, -2), Point::new(1, 1, 7)]),
        Some(Aabb { min: Point::new(0, 0, -2), max: Point::new(3, 4, 7) })
    );
}
