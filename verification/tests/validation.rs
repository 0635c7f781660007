use fj_kernel::geometry::surface::Surface;
use fj_kernel::math::point::Point;
use fj_kernel::math::scalar::Tolerance;
use fj_kernel::objects::edge::{Cycle, Edge};
use fj_kernel::objects::face::{Color, Face, Triangle};
use fj_kernel::objects::shape::{Sketch, Solid};
use fj_kernel::validation::closure::CycleId;
use fj_kernel::validation::{validate, ValidationConfig, ValidationError};

fn polygon(points: &[(i32, i32)]) -> Cycle {
    let mut edges = Vec::new();
    for i in 0..points.len() {
        let a = points[i];
        let b = points[(i + 1) % points.len()];
        edges.push(Edge::line_segment(Point::new(a.0, a.1, 0), Point::new(b.0, b.1, 0)).unwrap());
    }
    Cycle::new(edges)
}

fn face(exteriors: Vec<Cycle>, interiors: Vec<Cycle>) -> Face {
    Face::new(Surface::xy_plane(), exteriors, interiors, Color::new(0, 0, 0, 255))
}

fn all_checks(distance: u32) -> ValidationConfig {
    ValidationConfig::new(Tolerance::new(distance))
}

#[test]
fn closed_cycle_passes_validation() {
    let a = Point::new(0, 0, 0);
    let b = Point::new(4, 0, 0);
    let c = Point::new(0, 3, 0);
    let cycle = Cycle::new(vec![
        Edge::line_segment(a, b).unwrap(),
        Edge::line_segment(b, c).unwrap(),
        Edge::line_segment(c, a).unwrap(),
    ]);
    let sketch = Sketch::from_faces(vec![face(vec![cycle], vec![])]);
    let validated = validate(sketch.clone(), &all_checks(0));
    match validated {
        Ok(certificate) => {
            assert_eq!(certificate.inner(), &sketch);
            assert_eq!(certificate.config(), all_checks(0));
            assert_eq!(certificate.into_inner(), sketch);
        }
        Err(error) => panic!("a closed cycle was refused: {:?}", error),
    }
}

#[test]
fn gap_beyond_the_tolerance_fails_with_the_closure_error() {
    let a = Point::new(0, 0, 0);
    let b = Point::new(4, 0, 0);
    let beside_b = Point::new(4, 2, 0);
    let c = Point::new(0, 3, 0);
    let cycle = Cycle::new(vec![
        Edge::line_segment(a, b).unwrap(),
        Edge::line_segment(beside_b, c).unwrap(),
        Edge::line_segment(c, a).unwrap(),
    ]);
    let sketch = Sketch::from_faces(vec![face(vec![cycle], vec![])]);
    assert!(
        validate(sketch.clone(), &all_checks(1)).err()
            == Some(ValidationError::OpenCycle { face: 0, cycle: CycleId::Exterior(0), edge: 0 })
    );
    assert!(
        validate(sketch.clone(), &all_checks(0)).err()
            == Some(ValidationError::OpenCycle { face: 0, cycle: CycleId::Exterior(0), edge: 0 })
    );
    assert!(validate(sketch, &all_checks(2)).is_ok());
}

#[test]
fn the_first_gap_is_the_one_reported() {
    let closed = polygon(&[(0, 0), (4, 0), (0, 3)]);
    let open = Cycle::new(vec![
        Edge::line_segment(Point::new(10, 0, 0), Point::new(14, 0, 0)).unwrap(),
        Edge::line_segment(Point::new(14, 0, 0), Point::new(10, 3, 0)).unwrap(),
        Edge::line_segment(Point::new(10, 4, 0), Point::new(10, 0, 0)).unwrap(),
    ]);
    let hole = Cycle::new(vec![
        Edge::line_segment(Point::new(1, 1, 0), Point::new(2, 1, 0)).unwrap(),
    ]);
    let solid = Solid::from_faces(vec![
        Face::Triangles(vec![(Triangle::new([0, 0, 0], [1, 0, 0], [0, 1, 0]), Color::new(1, 1, 1, 1))]),
        face(vec![closed.clone()], vec![]),
        face(vec![closed, open], vec![hole.clone()]),
    ]);
    assert!(
        validate(solid, &all_checks(0)).err()
            == Some(ValidationError::OpenCycle { face: 2, cycle: CycleId::Exterior(1), edge: 1 })
    );
    let only_hole = Sketch::from_faces(vec![face(vec![polygon(&[(0, 0), (4, 0), (0, 3)])], vec![hole])]);
    assert!(
        validate(only_hole, &all_checks(0)).err()
            == Some(ValidationError::OpenCycle { face: 0, cycle: CycleId::Interior(0), edge: 0 })
    );
}

#[test]
fn full_circle_closes_on_itself() {
    let sketch = Sketch::from_faces(vec![face(vec![Cycle::new(vec![Edge::circle(5)])], vec![])]);
    assert!(validate(sketch, &all_checks(0)).is_ok());
    let mixed = Sketch::from_faces(vec![face(
        vec![Cycle::new(vec![
            Edge::circle(5),
            Edge::line_segment(Point::new(0, 0, 0), Point::new(0, 0, 0)).unwrap(),
        ])],
        vec![],
    )]);
    assert!(
        validate(mixed, &all_checks(0)).err()
            == Some(ValidationError::OpenCycle { face: 0, cycle: CycleId::Exterior(0), edge: 0 })
    );
}

#[test]
fn cycle_that_crosses_itself_fails_with_the_self_intersection_error() {
    let bow_tie = polygon(&[(0, 0), (4, 4), (4, 0), (0, 4)]);
    let sketch = Sketch::from_faces(vec![face(vec![bow_tie], vec![])]);
    assert!(
        validate(sketch, &all_checks(0)).err()
            == Some(ValidationError::SelfIntersection {
                face: 0,
                cycle: CycleId::Exterior(0),
                first_edge: 0,
                second_edge: 2
            })
    );
    let square = polygon(&[(0, 0), (4, 0), (4, 4), (0, 4)]);
    let repaired = Sketch::from_faces(vec![face(vec![square], vec![])]);
    assert!(validate(repaired, &all_checks(0)).is_ok());
}

#[test]
fn overlapping_cycles_of_one_face_fail_with_the_overlap_error() {
    let outer = polygon(&[(0, 0), (10, 0), (10, 10), (0, 10)]);
    let reaching_out = polygon(&[(5, 5), (15, 5), (5, 8)]);
    let sketch = Sketch::from_faces(vec![face(vec![outer.clone()], vec![reaching_out])]);
    assert!(
        validate(sketch, &all_checks(0)).err()
            == Some(ValidationError::OverlappingCycles {
                face: 0,
                first_cycle: CycleId::Exterior(0),
                second_cycle: CycleId::Interior(0)
            })
    );
    let inside = polygon(&[(5, 5), (8, 5), (5, 8)]);
    let with_hole = Sketch::from_faces(vec![face(vec![outer.clone()], vec![inside.clone()])]);
    assert!(validate(with_hole, &all_checks(0)).is_ok());
    let second_hole = polygon(&[(6, 6), (9, 6), (6, 9)]);
    let holes_overlap = Sketch::from_faces(vec![face(vec![outer], vec![inside, second_hole])]);
    assert!(
        validate(holes_overlap, &all_checks(0)).err()
            == Some(ValidationError::OverlappingCycles {
                face: 0,
                first_cycle: CycleId::Interior(0),
                second_cycle: CycleId::Interior(1)
            })
    );
}

#[test]
fn faces_joined_in_one_direction_fail_with_the_join_error() {
    let upper = polygon(&[(0, 0), (4, 0), (4, 4), (0, 4)]);
    let lower_alike = polygon(&[(0, 0), (4, 0), (4, -4), (0, -4)]);
    let lower_opposed = polygon(&[(4, 0), (0, 0), (0, -4), (4, -4)]);
    let wrong = Solid::from_faces(vec![
        face(vec![polygon(&[(20, 20), (21, 20), (20, 21)])], vec![]),
        face(vec![upper.clone()], vec![]),
        face(vec![lower_alike], vec![]),
    ]);
    assert!(
        validate(wrong, &all_checks(0)).err()
            == Some(ValidationError::InconsistentJoin { first_face: 1, second_face: 2 })
    );
    let right = Solid::from_faces(vec![face(vec![upper], vec![]), face(vec![lower_opposed], vec![])]);
    assert!(validate(right, &all_checks(0)).is_ok());
}

#[test]
fn checks_run_in_order_and_only_where_switched_on() {
    let open_bow_tie = Cycle::new(vec![
        Edge::line_segment(Point::new(0, 0, 0), Point::new(4, 4, 0)).unwrap(),
        Edge::line_segment(Point::new(4, 4, 0), Point::new(4, 0, 0)).unwrap(),
        Edge::line_segment(Point::new(4, 0, 0), Point::new(0, 4, 0)).unwrap(),
    ]);
    let sketch = Sketch::from_faces(vec![face(vec![open_bow_tie], vec![])]);
    let tolerance = Tolerance::exact();
    assert!(
        validate(sketch.clone(), &ValidationConfig::new(tolerance)).err()
            == Some(ValidationError::OpenCycle { face: 0, cycle: CycleId::Exterior(0), edge: 2 })
    );
    assert!(
        validate(sketch.clone(), &ValidationConfig::with_checks(tolerance, false, true, true, true)).err()
            == Some(ValidationError::SelfIntersection {
                face: 0,
                cycle: CycleId::Exterior(0),
                first_edge: 0,
                second_edge: 2
            })
    );
    assert!(validate(sketch, &ValidationConfig::with_checks(tolerance, false, true, true, false)).is_ok());
}

#[test]
fn touching_edges_do_not_count_as_crossing() {
    let square = polygon(&[(0, 0), (4, 0), (4, 4), (0, 4)]);
    let sketch = Sketch::from_faces(vec![face(vec![square], vec![])]);
    assert!(validate(sketch, &ValidationConfig::with_checks(Tolerance::exact(), false, false, false, true)).is_ok());
}
