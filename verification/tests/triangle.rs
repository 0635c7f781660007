use fj_kernel::math::point::Point;
use fj_kernel::objects::face::Triangle;
use fj_kernel::objects::mesh::{Mesh, Triangles};

type Array = [[i32; 3]; 3];

#[test]
fn triangle_should_support_conversions_to_and_from_arrays() {
    let original = Triangle::new([1, 0, 0], [0, 1, 0], [0, 0, 1]);

    let array: Array = original.into();
    let converted: Triangle = array.into();
    assert_eq!(original, converted);

    let array: Array = (&original).into();
    let converted: Triangle = array.into();
    assert_eq!(original, converted);
}

#[test]
fn test() {
    let triangle = Triangle::new([0, 0, 0], [1, 0, 0], [0, 1, 0]);

    let mesh = triangle.to_mesh();
    let triangles = mesh.triangles();

    assert_eq!(triangles.0, vec![triangle]);
}

#[test]
fn triangle_rows_are_its_corners() {
    let triangle = Triangle::new([1, 2, 3], [4, 5, 6], [7, 8, 9]);
    assert_eq!(triangle.a, Point::new(1, 2, 3));
    assert_eq!(triangle.b, Point::new(4, 5, 6));
    assert_eq!(triangle.c, Point::new(7, 8, 9));
    assert_eq!(triangle.to_array(), [[1, 2, 3], [4, 5, 6], [7, 8, 9]]);
    assert_eq!(Triangle::from_array([[1, 2, 3], [4, 5, 6], [7, 8, 9]]), triangle);
    assert_eq!(Point::new(1, 2, 3).to_array(), [1, 2, 3]);
}

#[test]
fn mesh_keeps_each_corner_once() {
    let mut mesh = Mesh::new();
    let a = mesh.vertex(Point::new(0, 0, 0));
    let b = mesh.vertex(Point::new(1, 0, 0));
    let c = mesh.vertex(Point::new(0, 1, 0));
    let d = mesh.vertex(Point::new(1, 1, 0));
    assert_eq!((a, b, c, d), (0, 1, 2, 3));
    assert_eq!(mesh.vertex(Point::new(1, 0, 0)), 1);
    mesh.triangle(a, b, c);
    mesh.triangle(b, d, c);
    assert_eq!(mesh.vertices().len(), 4);
    assert_eq!(
        mesh.triangles(),
        Triangles(vec![
            Triangle::new([0, 0, 0], [1, 0, 0], [0, 1, 0]),
            Triangle::new([1, 0, 0], [1, 1, 0], [0, 1, 0]),
        ])
    );
    let flat = Triangle::new([2, 2, 2], [2, 2, 2], [3, 3, 3]).to_mesh();
    assert_eq!(flat.vertices(), &vec![Point::new(2, 2, 2), Point::new(3, 3, 3)]);
    assert_eq!(flat.triangles().0, vec![Triangle::new([2, 2, 2], [2, 2, 2], [3, 3, 3])]);
}
