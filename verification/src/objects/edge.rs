//! Edges, and the cycles they form.

use vstd::prelude::*;
use crate::geometry::curve::{Circle, Curve, Line};
use crate::math::point::{Point, Vector};
use crate::objects::vertex::{GlobalVertex, Vertex};

verus! {

/// An edge of a shape: the segment of `curve` between two vertices.
///
/// Without vertices the edge is the whole curve and closes on itself, as a
/// full circle does. `reverse` says that the edge runs against the curve,
/// from its second vertex to its first.
#[derive(Clone, Copy, Debug, PartialEq, Eq)]
pub struct Edge {
    pub curve: Curve,
    pub vertices: Option<[Vertex; 2]>,
    pub reverse: bool,
}

impl Edge {
    /// Whether both vertices lie on the curve where their coordinates say.
    pub open spec fn wf(&self) -> bool {
        match self.vertices {
            Some(vs) => vs[0].lies_on(&self.curve) && vs[1].lies_on(&self.curve),
            None => true,
        }
    }

    /// Where the edge starts, if it has vertices.
    pub open spec fn spec_start(&self) -> Option<Point> {
        match self.vertices {
            Some(vs) => Some(
                if self.reverse {
                    vs[1].global.position
                } else {
                    vs[0].global.position
                },
            ),
            None => None,
        }
    }

    /// Where the edge ends, if it has vertices.
    pub open spec fn spec_end(&self) -> Option<Point> {
        match self.vertices {
            Some(vs) => Some(
                if self.reverse {
                    vs[0].global.position
                } else {
                    vs[1].global.position
                },
            ),
            None => None,
        }
    }

    /// The edge on `curve` between two global vertices, running with the
    /// curve. Each vertex is given the curve coordinate that names it; there
    /// is no edge where one of them is no point of the curve.
    pub fn new(curve: Curve, vertices: Option<[GlobalVertex; 2]>) -> (r: Option<Self>)
        ensures
            match r {
                Some(edge) => {
                    &&& edge.curve == curve
                    &&& !edge.reverse
                    &&& edge.wf()
                    &&& match vertices {
                        Some(given) => {
                            &&& edge.vertices matches Some(vs)
                            &&& vs[0].global == given[0]
                            &&& vs[1].global == given[1]
                            &&& curve.spec_coord_of(given[0].position@) == Some(vs[0].local as int)
                            &&& curve.spec_coord_of(given[1].position@) == Some(vs[1].local as int)
                        },
                        None => edge.vertices is None,
                    }
                },
                None => {
                    &&& vertices matches Some(given)
                    &&& (curve.spec_coord_of(given[0].position@) is None || curve.spec_coord_of(
                        given[1].position@,
                    ) is None)
                },
            },
    {
        match vertices {
            Some(given) => {
                let first = Vertex::at_global(&curve, given[0]);
                let second = Vertex::at_global(&curve, given[1]);
                match (first, second) {
                    (Some(first), Some(second)) => Some(
                        Edge { curve, vertices: Some([first, second]), reverse: false },
                    ),
                    _ => None,
                }
            },
            None => Some(Edge { curve, vertices: None, reverse: false }),
        }
    }

    /// The straight edge from `from` to `to`, at the curve coordinates `0`
    /// and `1` of the line that starts in `from` with their difference as its
    /// direction, if that difference can be stored.
    pub fn line_segment(from: Point, to: Point) -> (r: Option<Self>)
        ensures
            match r {
                Some(edge) => {
                    &&& edge.curve matches Curve::Line(line)
                    &&& line.origin == from
                    &&& line.direction@ == to@.minus(from@)
                    &&& edge.vertices matches Some(vs)
                    &&& vs[0] == (Vertex { local: 0, global: GlobalVertex { position: from } })
                    &&& vs[1] == (Vertex { local: 1, global: GlobalVertex { position: to } })
                    &&& !edge.reverse
                    &&& edge.wf()
                },
                None => !to@.minus(from@).representable(),
            },
    {
        match Line::from_points(&from, &to) {
            Some(line) => {
                let first = Vertex { local: 0, global: GlobalVertex { position: from } };
                let second = Vertex { local: 1, global: GlobalVertex { position: to } };
                proof {
                    let d = line.direction@;
                    assert(d.x * 0 == 0 && d.y * 0 == 0 && d.z * 0 == 0 && d.x * 1 == d.x && d.y * 1
                        == d.y && d.z * 1 == d.z) by (nonlinear_arith);
                }
                Some(Edge { curve: Curve::Line(line), vertices: Some([first, second]), reverse: false })
            },
            None => None,
        }
    }

    /// The full circle of the given radius around the origin, in the plane of
    /// the first two axes.
    pub fn circle(radius: i32) -> (r: Self)
        ensures
            r.curve == Curve::Circle(
                Circle {
                    center: Point { x: 0, y: 0, z: 0 },
                    a: Vector { x: radius, y: 0, z: 0 },
                    b: Vector { x: 0, y: radius, z: 0 },
                },
            ),
            r.vertices is None,
            !r.reverse,
            r.wf(),
    {
        Edge {
            curve: Curve::Circle(
                Circle {
                    center: Point { x: 0, y: 0, z: 0 },
                    a: Vector { x: radius, y: 0, z: 0 },
                    b: Vector { x: 0, y: radius, z: 0 },
                },
            ),
            vertices: None,
            reverse: false,
        }
    }

    /// Turns the edge round: it then runs the other way along its curve.
    pub fn reverse(&mut self)
        ensures
            final(self).reverse == !old(self).reverse,
            final(self).curve == old(self).curve,
            final(self).vertices == old(self).vertices,
    {
        self.reverse = !self.reverse;
    }

    /// Where the edge starts, if it has vertices.
    pub fn start(&self) -> (r: Option<Point>)
        ensures
            r == self.spec_start(),
    {
        match self.vertices {
            Some(vs) => Some(
                if self.reverse {
                    vs[1].global.position
                } else {
                    vs[0].global.position
                },
            ),
            None => None,
        }
    }

    /// Where the edge ends, if it has vertices.
    pub fn end(&self) -> (r: Option<Point>)
        ensures
            r == self.spec_end(),
    {
        match self.vertices {
            Some(vs) => Some(
                if self.reverse {
                    vs[0].global.position
                } else {
                    vs[1].global.position
                },
            ),
            None => None,
        }
    }
}

/// Turning an edge round exchanges its start and its end, and turning it
/// round twice gives the edge back.
pub proof fn lemma_reverse_exchanges_ends(edge: Edge, turned: Edge, back: Edge)
    requires
        turned == (Edge { reverse: !edge.reverse, ..edge }),
        back == (Edge { reverse: !turned.reverse, ..turned }),
    ensures
        turned.spec_start() == edge.spec_end(),
        turned.spec_end() == edge.spec_start(),
        back == edge,
{
}

/// A cycle of connected edges.
///
/// The end of each edge is meant to be the start of the next, and the end of
/// the last the start of the first. A cycle need not be closed to exist:
/// validation checks that it is.
#[derive(Clone, Debug, PartialEq, Eq)]
pub struct Cycle {
    pub edges: Vec<Edge>,
}

impl Cycle {
    /// The cycle of the given edges, in their order.
    pub fn new(edges: Vec<Edge>) -> (r: Self)
        ensures
            r.edges == edges,
    {
        Cycle { edges }
    }

    /// Whether every edge is well-formed.
    pub open spec fn wf(&self) -> bool {
        forall|i: int| 0 <= i < self.edges@.len() ==> (#[trigger] self.edges@[i]).wf()
    }
}

/// The edges of a shape, as the cycles that they form.
///
/// The cycles are meant not to overlap. Nothing here checks that they do not.
#[derive(Clone, Debug, PartialEq, Eq)]
pub struct Edges {
    pub cycles: Vec<Cycle>,
}

impl Edges {
    /// The edges of a shape with a single cycle.
    pub fn single_cycle(edges: Vec<Edge>) -> (r: Self)
        ensures
            r.cycles@.len() == 1,
            r.cycles@[0].edges == edges,
    {
        let mut cycles: Vec<Cycle> = Vec::new();
        cycles.push(Cycle { edges });
        Edges { cycles }
    }
}

} // verus!
