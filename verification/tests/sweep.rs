use fj_kernel::algorithms::bounding::{bounding_volume, swept_volume};
use fj_kernel::algorithms::sweep::{sweep, SweepError};
use fj_kernel::geometry::curve::{Curve, Line};
use fj_kernel::geometry::surface::{Surface, SweptCurve};
use fj_kernel::math::aabb::Aabb;
use fj_kernel::math::point::{Point, Vector};
use fj_kernel::math::scalar::Tolerance;
use fj_kernel::objects::edge::{Cycle, Edge};
use fj_kernel::objects::face::{Color, Face};
use fj_kernel::objects::shape::Sketch;
use fj_kernel::operations::{BuildError, Sweep};
use fj_kernel::validation::closure::CycleId;
use fj_kernel::validation::{validate, Validated, ValidationConfig, ValidationError};

fn polygon(points: &[(i32, i32)]) -> Cycle {
    let mut edges = Vec::new();
    for i in 0..points.len() {
        let a = points[i];
        let b = points[(i + 1) % points.len()];
        edges.push(Edge::line_segment(Point::new(a.0, a.1, 0), Point::new(b.0, b.1, 0)).unwrap());
    }
    Cycle::new(edges)
}

fn unit_square() -> Sketch {
    Sketch::from_faces(vec![Face::new(
        Surface::xy_plane(),
        vec![polygon(&[(0, 0), (1, 0), (1, 1), (0, 1)])],
        vec![],
        Color::new(10, 20, 30, 255),
    )])
}

fn validated(sketch: Sketch) -> Validated<Sketch> {
    match validate(sketch, &ValidationConfig::new(Tolerance::exact())) {
        Ok(certificate) => certificate,
        Err(error) => panic!("the sketch was refused: {:?}", error),
    }
}

#[test]
fn swept_unit_square_has_the_expected_bounding_box() {
    let color = Color::new(1, 2, 3, 4);
    let solid = sweep(&validated(unit_square()), Vector::new(0, 0, 5), Tolerance::exact(), color).unwrap();
    assert_eq!(solid.faces.len(), 6);
    assert_eq!(
        bounding_volume(&solid.faces),
        Some(Aabb { min: Point::new(0, 0, 0), max: Point::new(1, 1, 5) })
    );
    let sweep = Sweep::new(unit_square(), Vector::new(0, 0, 5), color);
    assert_eq!(sweep.bounding_volume(), Some(Aabb { min: Point::new(0, 0, 0), max: Point::new(1, 1, 5) }));
}

#[test]
fn swept_solid_is_valid() {
    let solid = sweep(&validated(unit_square()), Vector::new(0, 0, 5), Tolerance::exact(), Color::new(1, 2, 3, 4))
        .unwrap();
    assert!(validate(solid, &ValidationConfig::new(Tolerance::exact())).is_ok());
    let slanted = sweep(&validated(unit_square()), Vector::new(3, -2, 7), Tolerance::exact(), Color::new(1, 2, 3, 4))
        .unwrap();
    assert!(validate(slanted, &ValidationConfig::new(Tolerance::exact())).is_ok());
}

#[test]
fn sweep_makes_caps_and_one_side_for_each_edge() {
    let color = Color::new(1, 2, 3, 4);
    let path = Vector::new(0, 0, 5);
    let solid = sweep(&validated(unit_square()), path, Tolerance::exact(), color).unwrap();
    let a = Point::new(0, 0, 0);
    let b = Point::new(1, 0, 0);
    let c = Point::new(1, 1, 0);
    let d = Point::new(0, 1, 0);
    let flip = |mut edge: Edge| {
        edge.reverse();
        edge
    };
    let bottom = Face::new(
        Surface::xy_plane(),
        vec![Cycle::new(vec![
            flip(Edge::line_segment(d, a).unwrap()),
            flip(Edge::line_segment(c, d).unwrap()),
            flip(Edge::line_segment(b, c).unwrap()),
            flip(Edge::line_segment(a, b).unwrap()),
        ])],
        vec![],
        color,
    );
    assert_eq!(solid.faces[0], bottom);
    let top = Face::new(
        Surface::plane(Point::new(0, 0, 5), Vector::new(1, 0, 0), Vector::new(0, 1, 0)),
        vec![Cycle::new(vec![
            Edge::line_segment(Point::new(0, 0, 5), Point::new(1, 0, 5)).unwrap(),
            Edge::line_segment(Point::new(1, 0, 5), Point::new(1, 1, 5)).unwrap(),
            Edge::line_segment(Point::new(1, 1, 5), Point::new(0, 1, 5)).unwrap(),
            Edge::line_segment(Point::new(0, 1, 5), Point::new(0, 0, 5)).unwrap(),
        ])],
        vec![],
        color,
    );
    assert_eq!(solid.faces[1], top);
    let first_side = Face::new(
        Surface::SweptCurve(SweptCurve {
            curve: Curve::Line(Line { origin: a, direction: Vector::new(1, 0, 0) }),
            path,
        }),
        vec![Cycle::new(vec![
            Edge::line_segment(a, b).unwrap(),
            Edge::line_segment(b, Point::new(1, 0, 5)).unwrap(),
            flip(Edge::line_segment(Point::new(0, 0, 5), Point::new(1, 0, 5)).unwrap()),
            flip(Edge::line_segment(a, Point::new(0, 0, 5)).unwrap()),
        ])],
        vec![],
        color,
    );
    assert_eq!(solid.faces[2], first_side);
}

#[test]
fn swept_circle_gives_a_wall_between_two_circles() {
    let disc = Sketch::from_faces(vec![Face::new(
        Surface::xy_plane(),
        vec![Cycle::new(vec![Edge::circle(2)])],
        vec![],
        Color::new(0, 0, 0, 0),
    )]);
    let color = Color::new(5, 5, 5, 5);
    let solid = sweep(&validated(disc), Vector::new(0, 0, 3), Tolerance::exact(), color).unwrap();
    assert_eq!(solid.faces.len(), 3);
    match &solid.faces[2] {
        Face::Face(wall) => {
            assert_eq!(wall.exteriors.len(), 2);
            assert_eq!(wall.exteriors[0].edges, vec![Edge::circle(2)]);
            assert_eq!(wall.exteriors[1].edges.len(), 1);
            assert!(wall.exteriors[1].edges[0].reverse);
            assert_eq!(wall.interiors.len(), 0);
            assert_eq!(wall.color, color);
        }
        Face::Triangles(_) => panic!("a wall is bounded by cycles"),
    }
    assert!(validate(solid, &ValidationConfig::new(Tolerance::exact())).is_ok());
}

#[test]
fn path_within_the_tolerance_is_refused() {
    let sketch = validated(unit_square());
    let color = Color::new(0, 0, 0, 0);
    assert_eq!(sweep(&sketch, Vector::new(0, 0, 0), Tolerance::exact(), color), Err(SweepError::DegeneratePath));
    assert_eq!(sweep(&sketch, Vector::new(0, 3, 4), Tolerance::new(5), color), Err(SweepError::DegeneratePath));
    assert!(sweep(&sketch, Vector::new(0, 3, 4), Tolerance::new(4), color).is_ok());
}

#[test]
fn solid_that_cannot_be_stored_is_refused() {
    let sketch = validated(unit_square());
    assert_eq!(
        sweep(&sketch, Vector::new(i32::MAX, 0, 0), Tolerance::exact(), Color::new(0, 0, 0, 0)),
        Err(SweepError::OutOfRange)
    );
}

#[test]
fn compute_brep_validates_sweeps_and_validates() {
    let config = ValidationConfig::new(Tolerance::exact());
    let color = Color::new(7, 7, 7, 7);
    let built = Sweep::new(unit_square(), Vector::new(0, 0, 5), color).compute_brep(&config, Tolerance::exact());
    match built {
        Ok(certificate) => {
            let expected =
                sweep(&validated(unit_square()), Vector::new(0, 0, 5), Tolerance::exact(), color).unwrap();
            assert_eq!(certificate.inner(), &expected);
        }
        Err(error) => panic!("the sweep was refused: {:?}", error),
    }
    let bow_tie = Sketch::from_faces(vec![Face::new(
        Surface::xy_plane(),
        vec![polygon(&[(0, 0), (4, 4), (4, 0), (0, 4)])],
        vec![],
        color,
    )]);
    let refused = Sweep::new(bow_tie, Vector::new(0, 0, 5), color).compute_brep(&config, Tolerance::exact());
    assert!(
        refused.err()
            == Some(BuildError::Invalid(ValidationError::SelfIntersection {
                face: 0,
                cycle: CycleId::Exterior(0),
                first_edge: 0,
                second_edge: 2
            }))
    );
    let flat = Sweep::new(unit_square(), Vector::new(0, 0, 0), color).compute_brep(&config, Tolerance::exact());
    assert!(flat.err() == Some(BuildError::Sweep(SweepError::DegeneratePath)));
    let far = Sweep::new(unit_square(), Vector::new(0, i32::MAX, 0), color).compute_brep(&config, Tolerance::exact());
    assert!(far.err() == Some(BuildError::Sweep(SweepError::OutOfRange)));
}

#[test]
fn swept_volume_is_the_union_of_the_box_and_the_moved_box() {
    let flat = Aabb { min: Point::new(-1, 0, 2), max: Point::new(4, 5, 2) };
    assert_eq!(
        swept_volume(&flat, &Vector::new(3, -7, 1)),
        Some(Aabb { min: Point::new(-1, -7, 2), max: Point::new(7, 5, 3) })
    );
    assert_eq!(swept_volume(&flat, &Vector::new(i32::MAX, 0, 0)), None);
    let corners = flat.vertices();
    assert_eq!(corners[0], Point::new(-1, 0, 2));
    assert_eq!(corners[7], Point::new(4, 5, 2));
    assert_eq!(Aabb::from_points(&corners.to_vec()), Some(flat));
    assert_eq!(Aabb::from_points(&vec![]), None);
    assert!(flat.contains(&Point::new(0, 0, 2)));
    assert!(!flat.contains(&Point::new(0, 0, 3)));
}

#[test]
fn sketch_without_vertices_has_no_bounding_volume() {
    let disc = Sketch::from_faces(vec![Face::new(
        Surface::xy_plane(),
        vec![Cycle::new(vec![Edge::circle(2)])],
        vec![],
        Color::new(0, 0, 0, 0),
    )]);
    assert_eq!(bounding_volume(&disc.faces), None);
    assert_eq!(Sweep::new(disc, Vector::new(0, 0, 1), Color::new(0, 0, 0, 0)).bounding_volume(), None);
}
