use fj_kernel::algorithms::intersection::line_segment::Segment2;
use fj_kernel::algorithms::intersection::{line_segment, LineSegmentIntersection};
use fj_kernel::math::point::Point2;
use fj_kernel::math::scalar::Tolerance;

fn segment(a: (i32, i32), b: (i32, i32)) -> Segment2 {
    Segment2 { start: Point2::new(a.0, a.1), end: Point2::new(b.0, b.1) }
}

#[test]
fn crossing_segments_meet_in_one_point() {
    let first = segment((0, 0), (4, 4));
    let second = segment((0, 4), (4, 0));
    assert_eq!(
        line_segment(&first, &second, &Tolerance::exact()),
        Some(LineSegmentIntersection::Point { on_first: 16, on_second: 16, scale: 32, u: 64, v: 64 })
    );
}

#[test]
fn parameters_are_reported_for_each_segment() {
    let first = segment((0, 0), (8, 0));
    let second = segment((2, -1), (2, 3));
    assert_eq!(
        line_segment(&first, &second, &Tolerance::exact()),
        Some(LineSegmentIntersection::Point { on_first: 8, on_second: 8, scale: 32, u: 64, v: 0 })
    );
}

#[test]
fn intersection_does_not_depend_on_the_order() {
    let first = segment((0, 0), (8, 0));
    let second = segment((2, -1), (2, 3));
    assert_eq!(
        line_segment(&second, &first, &Tolerance::exact()),
        Some(LineSegmentIntersection::Point { on_first: 8, on_second: 8, scale: 32, u: 64, v: 0 })
    );
    let third = segment((6, -3), (6, 1));
    let one = line_segment(&first, &third, &Tolerance::exact());
    let other = line_segment(&third, &first, &Tolerance::exact());
    assert_eq!(
        one,
        Some(LineSegmentIntersection::Point { on_first: 24, on_second: 24, scale: 32, u: 192, v: 0 })
    );
    assert_eq!(
        other,
        Some(LineSegmentIntersection::Point { on_first: 24, on_second: 24, scale: 32, u: 192, v: 0 })
    );
    let slanted = segment((1, -2), (5, 2));
    assert_eq!(
        line_segment(&first, &slanted, &Tolerance::exact()),
        Some(LineSegmentIntersection::Point { on_first: 12, on_second: 16, scale: 32, u: 96, v: 0 })
    );
    assert_eq!(
        line_segment(&slanted, &first, &Tolerance::exact()),
        Some(LineSegmentIntersection::Point { on_first: 16, on_second: 12, scale: 32, u: 96, v: 0 })
    );
}

#[test]
fn parallel_segments_do_not_meet() {
    let first = segment((0, 0), (4, 0));
    let second = segment((0, 1), (4, 1));
    assert_eq!(line_segment(&first, &second, &Tolerance::exact()), None);
    assert_eq!(line_segment(&second, &first, &Tolerance::exact()), None);
}

#[test]
fn segments_along_one_line_overlap_where_they_share_a_stretch() {
    let first = segment((0, 0), (4, 0));
    let second = segment((2, 0), (6, 0));
    assert_eq!(line_segment(&first, &second, &Tolerance::exact()), Some(LineSegmentIntersection::Overlap));
    let apart = segment((5, 0), (6, 0));
    assert_eq!(line_segment(&first, &apart, &Tolerance::exact()), None);
}

#[test]
fn segments_that_stop_short_do_not_meet() {
    let first = segment((0, 0), (1, 1));
    let second = segment((0, 4), (4, 0));
    assert_eq!(line_segment(&first, &second, &Tolerance::exact()), None);
}

#[test]
fn nearly_parallel_segments_count_as_parallel_within_the_tolerance() {
    let first = segment((0, 0), (10, 0));
    let second = segment((0, 1), (10, 0));
    assert_eq!(
        line_segment(&first, &second, &Tolerance::exact()),
        Some(LineSegmentIntersection::Point { on_first: 10, on_second: 10, scale: 10, u: 100, v: 0 })
    );
    assert_eq!(line_segment(&first, &second, &Tolerance::new(10)), Some(LineSegmentIntersection::Overlap));
    assert_eq!(
        line_segment(&first, &second, &Tolerance::new(9)),
        Some(LineSegmentIntersection::Point { on_first: 10, on_second: 10, scale: 10, u: 100, v: 0 })
    );
}

#[test]
fn extreme_coordinates_are_handled_exactly() {
    let first = segment((i32::MIN, i32::MIN), (i32::MAX, i32::MAX));
    let second = segment((i32::MIN, i32::MAX), (i32::MAX, i32::MIN));
    match line_segment(&first, &second, &Tolerance::exact()) {
        Some(LineSegmentIntersection::Point { on_first, on_second, scale, u, v }) => {
            assert_eq!(on_first * 2, scale);
            assert_eq!(on_second * 2, scale);
            assert_eq!(u * 2, -scale);
            assert_eq!(v * 2, -scale);
        }
        other => panic!("expected a point, got {:?}", other),
    }
}

use fj_kernel::algorithms::intersection::curve_face::Ratio;
use fj_kernel::algorithms::intersection::surface_surface::SurfaceIntersection;
use fj_kernel::algorithms::intersection::{surface_surface, CurveFaceIntersection, CurveFaceIntersectionList};
use fj_kernel::geometry::curve::{Circle, Curve, Line};
use fj_kernel::geometry::surface::Surface;
use fj_kernel::math::point::{Point, Vector};
use fj_kernel::objects::edge::{Cycle, Edge};
use fj_kernel::objects::face::{Color, Face, Triangle};
use fj_kernel::objects::vertex::{GlobalVertex, Vertex};

fn polygon(points: &[(i32, i32)]) -> Cycle {
    let mut edges = Vec::new();
    for i in 0..points.len() {
        let a = points[i];
        let b = points[(i + 1) % points.len()];
        edges.push(Edge::line_segment(Point::new(a.0, a.1, 0), Point::new(b.0, b.1, 0)).unwrap());
    }
    Cycle::new(edges)
}

fn stretch(start: (i64, i64), end: (i64, i64)) -> CurveFaceIntersection {
    CurveFaceIntersection {
        start: Ratio { num: start.0, den: start.1 },
        end: Ratio { num: end.0, den: end.1 },
    }
}

fn line(origin: (i32, i32), direction: (i32, i32)) -> Curve {
    Curve::Line(Line {
        origin: Point::new(origin.0, origin.1, 0),
        direction: Vector::new(direction.0, direction.1, 0),
    })
}

#[test]
fn line_through_a_face_with_a_hole_leaves_the_hole_out() {
    let outer = polygon(&[(0, 0), (10, 0), (10, 10), (0, 10)]);
    let hole = polygon(&[(4, 4), (4, 6), (6, 6), (6, 4)]);
    let face = Face::new(Surface::xy_plane(), vec![outer], vec![hole], Color::new(0, 0, 0, 0));
    let through = line((-2, 5), (1, 0));
    let found = CurveFaceIntersectionList::compute(&through, &face, &Tolerance::exact()).unwrap();
    assert_eq!(found.intervals, vec![stretch((20, 10), (12, 2)), stretch((16, 2), (120, 10))]);
    let beside = line((-2, 2), (2, 0));
    let found = CurveFaceIntersectionList::compute(&beside, &face, &Tolerance::exact()).unwrap();
    assert_eq!(found.intervals, vec![stretch((20, 20), (120, 20))]);
    let outside = line((-2, 11), (1, 0));
    let found = CurveFaceIntersectionList::compute(&outside, &face, &Tolerance::exact()).unwrap();
    assert_eq!(found.intervals, vec![]);
}

#[test]
fn line_through_a_corner_crosses_the_boundary_once_there() {
    let diamond = polygon(&[(0, -2), (2, 0), (0, 2), (-2, 0)]);
    let face = Face::new(Surface::xy_plane(), vec![diamond], vec![], Color::new(0, 0, 0, 0));
    let through = line((-5, 0), (1, 0));
    let found = CurveFaceIntersectionList::compute(&through, &face, &Tolerance::exact()).unwrap();
    assert_eq!(found.intervals, vec![stretch((6, 2), (14, 2))]);
    let touching_above = line((-5, 2), (1, 0));
    let found = CurveFaceIntersectionList::compute(&touching_above, &face, &Tolerance::exact()).unwrap();
    assert_eq!(found.intervals, vec![stretch((10, 2), (10, 2))]);
    let touching_below = line((-5, -2), (1, 0));
    let found = CurveFaceIntersectionList::compute(&touching_below, &face, &Tolerance::exact()).unwrap();
    assert_eq!(found.intervals, vec![]);
}

#[test]
fn curve_face_intersection_is_only_found_for_lines_and_plane_faces() {
    let square = polygon(&[(0, 0), (10, 0), (10, 10), (0, 10)]);
    let face = Face::new(Surface::xy_plane(), vec![square.clone()], vec![], Color::new(0, 0, 0, 0));
    let circle = Curve::Circle(Circle { center: Point::origin(), a: Vector::new(1, 0, 0), b: Vector::new(0, 1, 0) });
    assert_eq!(CurveFaceIntersectionList::compute(&circle, &face, &Tolerance::exact()), None);
    let triangles = Face::Triangles(vec![(Triangle::new([0, 0, 0], [1, 0, 0], [0, 1, 0]), Color::new(0, 0, 0, 0))]);
    assert_eq!(CurveFaceIntersectionList::compute(&line((0, 0), (1, 0)), &triangles, &Tolerance::exact()), None);
    let open = Cycle::new(vec![Edge::line_segment(Point::new(0, 0, 0), Point::new(0, 10, 0)).unwrap()]);
    let broken = Face::new(Surface::xy_plane(), vec![open], vec![], Color::new(0, 0, 0, 0));
    assert_eq!(CurveFaceIntersectionList::compute(&line((-1, 5), (1, 0)), &broken, &Tolerance::exact()), None);
    let far_apart = Edge {
        curve: line((0, 0), (-1, 1)),
        vertices: Some([
            Vertex::new(0, GlobalVertex::from_position(Point::new(i32::MAX, i32::MIN, 0))),
            Vertex::new(1, GlobalVertex::from_position(Point::new(i32::MIN, i32::MAX, 0))),
        ]),
        reverse: false,
    };
    let wide = Face::new(Surface::xy_plane(), vec![Cycle::new(vec![far_apart])], vec![], Color::new(0, 0, 0, 0));
    assert_eq!(
        CurveFaceIntersectionList::compute(&line((0, 0), (i32::MIN, i32::MIN)), &wide, &Tolerance::exact()),
        None
    );
}

#[test]
fn planes_swept_along_one_path_meet_in_a_line_along_it() {
    let path = Vector::new(0, 0, 1);
    let first = Surface::plane(Point::new(0, 0, 0), Vector::new(1, 0, 0), path);
    let second = Surface::plane(Point::new(3, -4, 7), Vector::new(0, 2, 0), path);
    assert_eq!(
        surface_surface(&first, &second, &Tolerance::exact()),
        Some(SurfaceIntersection { on_first: 6, on_second: 4, scale: 2, direction: path })
    );
    assert_eq!(
        surface_surface(&second, &first, &Tolerance::exact()),
        Some(SurfaceIntersection { on_first: 4, on_second: 6, scale: 2, direction: path })
    );
    assert_eq!(surface_surface(&first, &second, &Tolerance::new(2)), None);
    let parallel = Surface::plane(Point::new(0, 5, 0), Vector::new(2, 0, 0), path);
    assert_eq!(surface_surface(&first, &parallel, &Tolerance::exact()), None);
    let other_path = Surface::plane(Point::new(0, 0, 0), Vector::new(0, 1, 0), Vector::new(0, 0, 2));
    assert_eq!(surface_surface(&first, &other_path, &Tolerance::exact()), None);
}
