use fj_kernel::algorithms::transform::{transform_faces, TransformObject};
use fj_kernel::geometry::curve::{Circle, Curve, Line};
use fj_kernel::geometry::surface::Surface;
use fj_kernel::local::{Local, SurfaceCoords};
use fj_kernel::math::point::{Point, Vector};
use fj_kernel::math::transform::{Axis, Transform};
use fj_kernel::objects::edge::{Cycle, Edge, Edges};
use fj_kernel::objects::face::{Color, Face, Triangle};
use fj_kernel::objects::shape::{Sketch, Solid};
use fj_kernel::objects::vertex::{GlobalVertex, Vertex};

fn square_cycle() -> Cycle {
    let a = Point::new(0, 0, 0);
    let b = Point::new(4, 0, 0);
    let c = Point::new(4, 4, 0);
    let d = Point::new(0, 4, 0);
    Cycle::new(vec![
        Edge::line_segment(a, b).unwrap(),
        Edge::line_segment(b, c).unwrap(),
        Edge::line_segment(c, d).unwrap(),
        Edge::line_segment(d, a).unwrap(),
    ])
}

fn square_face() -> Face {
    Face::new(Surface::xy_plane(), vec![square_cycle()], vec![], Color::new(255, 0, 0, 255))
}

fn sample_transform() -> Transform {
    Transform::rotation(Axis::X, 1).then(&Transform::translation(Vector::new(3, -2, 7))).unwrap()
}

#[test]
fn translation_moves_a_global_vertex() {
    let vertex = GlobalVertex::from_position(Point::new(1, 2, 3));
    let moved = vertex.translate(Vector::new(10, 20, 30)).unwrap();
    assert_eq!(moved.position(), Point::new(11, 22, 33));
}

#[test]
fn quarter_turn_about_z_carries_x_to_y() {
    let vertex = GlobalVertex::from_position(Point::new(1, 0, 0));
    let turned = vertex.rotate(Axis::Z, 1).unwrap();
    assert_eq!(turned.position(), Point::new(0, 1, 0));
    let same = vertex.transform(&Transform::rotation(Axis::Z, 1)).unwrap();
    assert_eq!(turned, same);
}

#[test]
fn translate_is_the_transform_by_the_translation() {
    let offset = Vector::new(5, -6, 7);
    let by_hand = Transform { xx: 1, xy: 0, xz: 0, yx: 0, yy: 1, yz: 0, zx: 0, zy: 0, zz: 1, tx: 5, ty: -6, tz: 7 };
    assert_eq!(Transform::translation(offset), by_hand);
    assert_eq!(square_face().translate(offset), square_face().transform(&by_hand));
    assert_eq!(square_cycle().translate(offset), square_cycle().transform(&by_hand));
}

#[test]
fn rotate_is_the_transform_by_the_rotation() {
    let by_hand = Transform { xx: 0, xy: -1, xz: 0, yx: 1, yy: 0, yz: 0, zx: 0, zy: 0, zz: 1, tx: 0, ty: 0, tz: 0 };
    assert_eq!(Transform::rotation(Axis::Z, 1), by_hand);
    assert_eq!(Transform::rotation(Axis::Z, 5), by_hand);
    assert_eq!(square_face().rotate(Axis::Z, 1), square_face().transform(&by_hand));
}

#[test]
fn transform_point_applies_rows_and_offset() {
    let t = Transform { xx: 1, xy: 2, xz: 3, yx: 4, yy: 5, yz: 6, zx: 7, zy: 8, zz: 9, tx: 10, ty: 20, tz: 30 };
    assert_eq!(t.transform_point(&Point::new(1, 1, 1)), Some(Point::new(16, 35, 54)));
    assert_eq!(t.transform_vector(&Vector::new(1, 1, 1)), Some(Vector::new(6, 15, 24)));
    assert_eq!(t.transform_point(&Point::new(1, 0, -1)), Some(Point::new(8, 18, 28)));
}

#[test]
fn transform_reports_coordinates_that_cannot_be_stored() {
    let far = GlobalVertex::from_position(Point::new(i32::MAX, 0, 0));
    assert_eq!(far.translate(Vector::new(1, 0, 0)), None);
    assert_eq!(far.translate(Vector::new(0, 1, 0)), Some(GlobalVertex::from_position(Point::new(i32::MAX, 1, 0))));
    let double = Transform { xx: 2, xy: 0, xz: 0, yx: 0, yy: 2, yz: 0, zx: 0, zy: 0, zz: 2, tx: 0, ty: 0, tz: 0 };
    assert_eq!(far.transform(&double), None);
    let edge = Edge::line_segment(Point::new(0, 0, 0), Point::new(i32::MAX, 0, 0)).unwrap();
    assert_eq!(Cycle::new(vec![edge]).transform(&double), None);
}

#[test]
fn round_trip_gives_every_kind_of_object_back() {
    let t = sample_transform();
    assert!(t.is_rigid());
    let back = t.inverse().unwrap();
    assert_eq!(t.then(&back), Some(Transform::identity()));

    let vertex = GlobalVertex::from_position(Point::new(3, 1, 4));
    assert_eq!(vertex.transform(&t).unwrap().transform(&back), Some(vertex));

    let curve = Curve::Circle(Circle { center: Point::new(1, 2, 3), a: Vector::new(5, 0, 0), b: Vector::new(0, 5, 0) });
    assert_eq!(curve.transform(&t).unwrap().transform(&back), Some(curve));
    let line = Curve::Line(Line { origin: Point::new(1, 2, 3), direction: Vector::new(1, 1, 0) });
    assert_eq!(line.transform(&t).unwrap().transform(&back), Some(line));

    let surface = Surface::xy_plane();
    assert_eq!(surface.transform(&t).unwrap().transform(&back), Some(surface));

    let edge = Edge::line_segment(Point::new(0, 0, 0), Point::new(2, 3, 4)).unwrap();
    assert_eq!(TransformObject::transform(TransformObject::transform(edge, &t).unwrap(), &back), Some(edge));

    assert_eq!(square_cycle().transform(&t).unwrap().transform(&back), Some(square_cycle()));
    assert_eq!(square_face().transform(&t).unwrap().transform(&back), Some(square_face()));

    let triangles = Face::Triangles(vec![(Triangle::new([0, 0, 0], [1, 0, 0], [0, 1, 0]), Color::new(1, 2, 3, 4))]);
    let there = triangles.clone().transform(&t).unwrap();
    assert_eq!(there.transform(&back), Some(triangles));

    let sketch = Sketch::from_faces(vec![square_face()]);
    assert_eq!(sketch.clone().transform(&t).unwrap().transform(&back), Some(sketch));
    let solid = Solid::from_faces(vec![square_face(), square_face()]);
    assert_eq!(solid.clone().transform(&t).unwrap().transform(&back), Some(solid));
}

#[test]
fn composed_transform_equals_transforms_in_turn() {
    let first = Transform::rotation(Axis::Y, 3);
    let second = Transform { xx: 2, xy: 1, xz: 0, yx: 0, yy: 1, yz: 0, zx: 1, zy: 0, zz: 3, tx: 4, ty: 5, tz: 6 };
    let both = first.then(&second).unwrap();
    let face = square_face();
    let in_turn = face.clone().transform(&first).unwrap().transform(&second).unwrap();
    assert_eq!(face.transform(&both), Some(in_turn));
    let p = Point::new(7, -8, 9);
    assert_eq!(
        both.transform_point(&p),
        second.transform_point(&first.transform_point(&p).unwrap())
    );
}

#[test]
fn inverse_is_refused_for_a_transform_that_is_not_rigid() {
    let double = Transform { xx: 2, xy: 0, xz: 0, yx: 0, yy: 2, yz: 0, zx: 0, zy: 0, zz: 2, tx: 0, ty: 0, tz: 0 };
    assert!(!double.is_rigid());
    assert_eq!(double.inverse(), None);
    let far = Transform::translation(Vector::new(i32::MIN, 0, 0));
    assert_eq!(far.inverse(), None);
    assert_eq!(
        Transform::translation(Vector::new(1, 2, 3)).inverse(),
        Some(Transform::translation(Vector::new(-1, -2, -3)))
    );
}

#[test]
fn face_transform_keeps_partition_and_color() {
    let hole = Cycle::new(vec![
        Edge::line_segment(Point::new(1, 1, 0), Point::new(1, 2, 0)).unwrap(),
        Edge::line_segment(Point::new(1, 2, 0), Point::new(2, 1, 0)).unwrap(),
        Edge::line_segment(Point::new(2, 1, 0), Point::new(1, 1, 0)).unwrap(),
    ]);
    let color = Color::new(9, 8, 7, 6);
    let face = Face::new(Surface::xy_plane(), vec![square_cycle()], vec![hole.clone()], color);
    let offset = Vector::new(0, 0, 10);
    match face.translate(offset).unwrap() {
        Face::Face(brep) => {
            assert_eq!(brep.color, color);
            assert_eq!(brep.exteriors, vec![square_cycle().translate(offset).unwrap()]);
            assert_eq!(brep.interiors, vec![hole.translate(offset).unwrap()]);
            assert_eq!(brep.surface, Surface::xy_plane().translate(offset).unwrap());
        }
        Face::Triangles(_) => panic!("a face bounded by cycles stays one"),
    }
}

#[test]
fn edge_transform_keeps_coordinates_and_direction() {
    let mut edge = Edge::line_segment(Point::new(1, 0, 0), Point::new(3, 0, 0)).unwrap();
    edge.reverse();
    let turned = Edge::transform(edge, &Transform::rotation(Axis::Z, 1)).unwrap();
    assert!(turned.reverse);
    assert_eq!(turned.curve, Curve::Line(Line { origin: Point::new(0, 1, 0), direction: Vector::new(0, 2, 0) }));
    let vertices = turned.vertices.unwrap();
    assert_eq!(vertices[0], Vertex::new(0, GlobalVertex::from_position(Point::new(0, 1, 0))));
    assert_eq!(vertices[1], Vertex::new(1, GlobalVertex::from_position(Point::new(0, 3, 0))));
    assert_eq!(turned.curve.point_from_curve_coord(1), Some(Point::new(0, 3, 0)));
    assert_eq!(turned.start(), Some(Point::new(0, 3, 0)));
    assert_eq!(turned.end(), Some(Point::new(0, 1, 0)));
}

#[test]
fn edges_transform_reaches_every_edge_of_every_cycle() {
    let edges = Edges::single_cycle(vec![
        Edge::line_segment(Point::new(0, 0, 0), Point::new(1, 0, 0)).unwrap(),
        Edge::circle(2),
    ]);
    assert_eq!(edges.cycles.len(), 1);
    let moved = edges.transform(&Transform::translation(Vector::new(0, 0, 1))).unwrap();
    assert_eq!(moved.cycles.len(), 1);
    assert_eq!(moved.cycles[0].edges.len(), 2);
    assert_eq!(moved.cycles[0].edges[0], Edge::line_segment(Point::new(0, 0, 1), Point::new(1, 0, 1)).unwrap());
    assert_eq!(
        moved.cycles[0].edges[1].curve,
        Curve::Circle(Circle { center: Point::new(0, 0, 1), a: Vector::new(2, 0, 0), b: Vector::new(0, 2, 0) })
    );
    assert_eq!(moved.cycles[0].edges[1].vertices, None);
}

#[test]
fn transform_faces_changes_the_faces_in_place() {
    let mut faces = vec![square_face()];
    assert!(transform_faces(&mut faces, &Transform::translation(Vector::new(1, 1, 1))));
    assert_eq!(faces, vec![square_face().translate(Vector::new(1, 1, 1)).unwrap()]);
    let before = faces.clone();
    assert!(!transform_faces(&mut faces, &Transform::translation(Vector::new(i32::MAX, 0, 0))));
    assert_eq!(faces, before);
}

#[test]
fn edge_new_finds_the_curve_coordinates_of_its_vertices() {
    let curve = Curve::Line(Line { origin: Point::new(1, 1, 1), direction: Vector::new(0, 2, 0) });
    let a = GlobalVertex::from_position(Point::new(1, 5, 1));
    let b = GlobalVertex::from_position(Point::new(1, -3, 1));
    let edge = Edge::new(curve, Some([a, b])).unwrap();
    assert_eq!(edge.curve, curve);
    assert!(!edge.reverse);
    assert_eq!(edge.vertices, Some([Vertex::new(2, a), Vertex::new(-2, b)]));
    let off = GlobalVertex::from_position(Point::new(1, 4, 1));
    assert_eq!(Edge::new(curve, Some([a, off])), None);
    let beside = GlobalVertex::from_position(Point::new(2, 5, 1));
    assert_eq!(Edge::new(curve, Some([beside, b])), None);
    let whole = Edge::new(curve, None).unwrap();
    assert_eq!(whole.vertices, None);
}

#[test]
fn edge_new_on_a_circle_counts_quarter_turns() {
    let circle = Edge::circle(3);
    assert_eq!(
        circle.curve,
        Curve::Circle(Circle { center: Point::origin(), a: Vector::new(3, 0, 0), b: Vector::new(0, 3, 0) })
    );
    assert_eq!(circle.vertices, None);
    assert!(!circle.reverse);
    let top = GlobalVertex::from_position(Point::new(0, 3, 0));
    let left = GlobalVertex::from_position(Point::new(-3, 0, 0));
    let arc = Edge::new(circle.curve, Some([top, left])).unwrap();
    assert_eq!(arc.vertices, Some([Vertex::new(1, top), Vertex::new(2, left)]));
    assert_eq!(circle.curve.point_from_curve_coord(3), Some(Point::new(0, -3, 0)));
    assert_eq!(circle.curve.point_from_curve_coord(-1), Some(Point::new(0, -3, 0)));
    assert_eq!(circle.curve.point_from_curve_coord(4), Some(Point::new(3, 0, 0)));
    assert_eq!(circle.curve.curve_coord_of(&Point::new(1, 1, 0)), None);
}

#[test]
fn reverse_exchanges_start_and_end() {
    let mut edge = Edge::line_segment(Point::new(0, 0, 0), Point::new(1, 2, 3)).unwrap();
    assert_eq!(edge.start(), Some(Point::new(0, 0, 0)));
    assert_eq!(edge.end(), Some(Point::new(1, 2, 3)));
    edge.reverse();
    assert!(edge.reverse);
    assert_eq!(edge.start(), Some(Point::new(1, 2, 3)));
    assert_eq!(edge.end(), Some(Point::new(0, 0, 0)));
    edge.reverse();
    assert_eq!(edge, Edge::line_segment(Point::new(0, 0, 0), Point::new(1, 2, 3)).unwrap());
}

#[test]
fn vertex_on_curve_pairs_coordinate_and_position() {
    let curve = Curve::Line(Line { origin: Point::new(1, 0, 0), direction: Vector::new(2, 0, 1) });
    let vertex = Vertex::on_curve(&curve, 3).unwrap();
    assert_eq!(vertex.position(), 3);
    assert_eq!(vertex.global().position(), Point::new(7, 0, 3));
    assert_eq!(Vertex::on_curve(&curve, i64::MAX), None);
    assert_eq!(Vertex::at_global(&curve, vertex.global()), Some(vertex));
}

#[test]
fn surface_coordinates_name_points() {
    let plane = Surface::plane(Point::new(1, 1, 1), Vector::new(2, 0, 0), Vector::new(0, 0, 3));
    assert_eq!(plane.point_from_surface_coords(2, -1), Some(Point::new(5, 1, -2)));
    assert_eq!(plane.flattening_axis(), Some(Axis::Y));
    assert_eq!(Surface::xy_plane().point_from_surface_coords(4, 5), Some(Point::new(4, 5, 0)));
    assert_eq!(Surface::xy_plane().flattening_axis(), Some(Axis::Z));
    assert_eq!(plane.point_from_surface_coords(i64::MAX, 0), None);
}

#[test]
fn local_pair_keeps_its_coordinate_under_a_transform() {
    let curve = Curve::Line(Line { origin: Point::new(1, 0, 0), direction: Vector::new(0, 3, 0) });
    let pair = Local::on_curve(&curve, 2).unwrap();
    assert_eq!(*pair.local(), 2);
    assert_eq!(pair.global(), Point::new(1, 6, 0));
    let t = Transform::rotation(Axis::Z, 1);
    let turned = pair.transform(&t).unwrap();
    assert_eq!(*turned.local(), 2);
    assert_eq!(turned.global(), Point::new(-6, 1, 0));
    assert_eq!(Some(turned), Local::on_curve(&curve.transform(&t).unwrap(), 2));
    assert_eq!(Local::on_curve(&curve, i64::MAX), None);

    let surface = Surface::xy_plane();
    let on_plane = Local::on_surface(&surface, SurfaceCoords { u: 3, v: -4 }).unwrap();
    assert_eq!(on_plane.global(), Point::new(3, -4, 0));
    let offset = Vector::new(0, 0, 9);
    let moved = on_plane.translate(offset).unwrap();
    assert_eq!(*moved.local(), SurfaceCoords { u: 3, v: -4 });
    assert_eq!(Some(moved), Local::on_surface(&surface.translate(offset).unwrap(), SurfaceCoords { u: 3, v: -4 }));
}

#[test]
fn edge_transform_renews_coordinates_against_the_transformed_curve() {
    let curve = Curve::Line(Line { origin: Point::new(0, 0, 0), direction: Vector::new(1, 0, 0) });
    let misplaced = Edge {
        curve,
        vertices: Some([
            Vertex::new(5, GlobalVertex::from_position(Point::new(2, 0, 0))),
            Vertex::new(7, GlobalVertex::from_position(Point::new(2, 1, 0))),
        ]),
        reverse: false,
    };
    let moved = Edge::transform(misplaced, &Transform::translation(Vector::new(0, 0, 1))).unwrap();
    let vertices = moved.vertices.unwrap();
    assert_eq!(vertices[0], Vertex::new(2, GlobalVertex::from_position(Point::new(2, 0, 1))));
    assert_eq!(vertices[1], Vertex::new(7, GlobalVertex::from_position(Point::new(2, 1, 1))));

    let circle = Edge::circle(3).curve;
    let arc = Edge {
        curve: circle,
        vertices: Some([
            Vertex::new(5, GlobalVertex::from_position(Point::new(0, 3, 0))),
            Vertex::new(-2, GlobalVertex::from_position(Point::new(-3, 0, 0))),
        ]),
        reverse: true,
    };
    let turned = Edge::transform(arc, &Transform::rotation(Axis::Z, 1)).unwrap();
    let vertices = turned.vertices.unwrap();
    assert_eq!(vertices[0], Vertex::new(5, GlobalVertex::from_position(Point::new(-3, 0, 0))));
    assert_eq!(vertices[1], Vertex::new(-2, GlobalVertex::from_position(Point::new(0, -3, 0))));
    assert_eq!(turned.curve.point_from_curve_coord(5), Some(Point::new(-3, 0, 0)));
    assert!(turned.reverse);
}
