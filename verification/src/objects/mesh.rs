//! Meshes: triangles that share their corners.

use vstd::prelude::*;
use crate::math::point::Point;
use crate::objects::face::Triangle;

verus! {

/// A list of triangles.
#[derive(Debug, PartialEq)]
pub struct Triangles(pub Vec<Triangle>);

/// A mesh of triangles. Each corner is kept once, and each triangle names
/// its corners by their places.
#[derive(Debug)]
pub struct Mesh {
    vertices: Vec<Point>,
    indices: Vec<usize>,
}

/// The triangles that the places name among the corners.
pub open spec fn triangles_of(vertices: Seq<Point>, indices: Seq<usize>) -> Seq<Triangle> {
    Seq::new(
        indices.len() / 3,
        |k: int|
            Triangle {
                a: vertices[indices[3 * k] as int],
                b: vertices[indices[3 * k + 1] as int],
                c: vertices[indices[3 * k + 2] as int],
            },
    )
}

impl Mesh {
    #[verifier::type_invariant]
    spec fn wf(self) -> bool {
        &&& self.indices@.len() % 3 == 0
        &&& forall|i: int| 0 <= i < self.indices@.len() ==> self.indices@[i] < self.vertices@.len()
        &&& forall|i: int, j: int|
            0 <= i < j < self.vertices@.len() ==> self.vertices@[i] != self.vertices@[j]
    }

    /// The corners of the mesh, each once.
    pub closed spec fn spec_vertices(&self) -> Seq<Point> {
        self.vertices@
    }

    /// The triangles of the mesh.
    pub closed spec fn spec_triangles(&self) -> Seq<Triangle> {
        triangles_of(self.vertices@, self.indices@)
    }

    /// The mesh without a triangle.
    pub fn new() -> (r: Self)
        ensures
            r.spec_vertices().len() == 0,
            r.spec_triangles().len() == 0,
    {
        Mesh { vertices: Vec::new(), indices: Vec::new() }
    }

    /// The place of the corner in the mesh. A corner that the mesh does not
    /// have yet is added to it.
    pub fn vertex(&mut self, point: Point) -> (place: usize)
        ensures
            final(self).spec_triangles() == old(self).spec_triangles(),
            place < final(self).spec_vertices().len(),
            final(self).spec_vertices()[place as int] == point,
            final(self).spec_vertices() == if old(self).spec_vertices().contains(point) {
                old(self).spec_vertices()
            } else {
                old(self).spec_vertices().push(point)
            },
    {
        proof {
            use_type_invariant(&*self);
        }
        let mut i: usize = 0;
        while i < self.vertices.len()
            invariant
                i <= self.vertices@.len(),
                forall|j: int| 0 <= j < i ==> self.vertices@[j] != point,
            decreases self.vertices@.len() - i,
        {
            if self.vertices[i] == point {
                return i;
            }
            i += 1;
        }
        let ghost before = *self;
        let mut taken = Mesh::new();
        core::mem::swap(self, &mut taken);
        let mut vertices = taken.vertices;
        let indices = taken.indices;
        let place = vertices.len();
        vertices.push(point);
        proof {
            assert(!before.vertices@.contains(point));
            assert(triangles_of(vertices@, indices@) =~= triangles_of(
                before.vertices@,
                indices@,
            ));
        }
        *self = Mesh { vertices, indices };
        place
    }

    /// Adds the triangle whose corners lie at the three places.
    pub fn triangle(&mut self, i0: usize, i1: usize, i2: usize)
        requires
            i0 < old(self).spec_vertices().len(),
            i1 < old(self).spec_vertices().len(),
            i2 < old(self).spec_vertices().len(),
        ensures
            final(self).spec_vertices() == old(self).spec_vertices(),
            final(self).spec_triangles() == old(self).spec_triangles().push(
                Triangle {
                    a: old(self).spec_vertices()[i0 as int],
                    b: old(self).spec_vertices()[i1 as int],
                    c: old(self).spec_vertices()[i2 as int],
                },
            ),
    {
        proof {
            use_type_invariant(&*self);
        }
        let ghost before = *self;
        let mut taken = Mesh::new();
        core::mem::swap(self, &mut taken);
        let vertices = taken.vertices;
        let mut indices = taken.indices;
        indices.push(i0);
        indices.push(i1);
        indices.push(i2);
        proof {
            let added = Triangle {
                a: vertices@[i0 as int],
                b: vertices@[i1 as int],
                c: vertices@[i2 as int],
            };
            assert(triangles_of(vertices@, indices@) =~= triangles_of(
                vertices@,
                before.indices@,
            ).push(added));
        }
        *self = Mesh { vertices, indices };
    }

    /// The corners of the mesh, each once.
    pub fn vertices(&self) -> (r: &Vec<Point>)
        ensures
            r@ == self.spec_vertices(),
    {
        &self.vertices
    }

    /// The triangles of the mesh.
    pub fn triangles(&self) -> (r: Triangles)
        ensures
            r.0@ == self.spec_triangles(),
    {
        proof {
            use_type_invariant(self);
        }
        let n = self.indices.len();
        let count = n / 3;
        assert(n == 3 * count);
        let mut out: Vec<Triangle> = Vec::new();
        let mut k: usize = 0;
        while k < count
            invariant
                n == self.indices@.len(),
                n == 3 * count,
                forall|i: int|
                    0 <= i < self.indices@.len() ==> self.indices@[i] < self.vertices@.len(),
                k <= count,
                out@.len() == k,
                forall|j: int|
                    0 <= j < k ==> out@[j] == triangles_of(self.vertices@, self.indices@)[j],
            decreases count - k,
        {
            let a = self.vertices[self.indices[3 * k]];
            let b = self.vertices[self.indices[3 * k + 1]];
            let c = self.vertices[self.indices[3 * k + 2]];
            out.push(Triangle { a, b, c });
            k += 1;
        }
        assert(out@ =~= triangles_of(self.vertices@, self.indices@));
        Triangles(out)
    }
}

impl Triangle {
    /// The mesh of this one triangle.
    pub fn to_mesh(&self) -> (r: Mesh)
        ensures
            r.spec_triangles() == seq![*self],
    {
        let mut mesh = Mesh::new();
        let i0 = mesh.vertex(self.a);
        let i1 = mesh.vertex(self.b);
        let i2 = mesh.vertex(self.c);
        mesh.triangle(i0, i1, i2);
        assert(mesh.spec_triangles() =~= seq![*self]);
        mesh
    }
}

} // verus!
