//! Sketches and solids.

use vstd::prelude::*;
use crate::objects::face::Face;

verus! {

/// A sketch: faces that lie side by side in one plane.
#[derive(Clone, Debug, PartialEq, Eq)]
pub struct Sketch {
    pub faces: Vec<Face>,
}

impl Sketch {
    /// The sketch of the given faces.
    pub fn from_faces(faces: Vec<Face>) -> (r: Self)
        ensures
            r.faces == faces,
    {
        Sketch { faces }
    }

    /// The faces of the sketch.
    pub fn into_faces(self) -> (r: Vec<Face>)
        ensures
            r == self.faces,
    {
        self.faces
    }
}

/// A solid: faces that together bound a region of space.
#[derive(Clone, Debug, PartialEq, Eq)]
pub struct Solid {
    pub faces: Vec<Face>,
}

impl Solid {
    /// The solid of the given faces.
    pub fn from_faces(faces: Vec<Face>) -> (r: Self)
        ensures
            r.faces == faces,
    {
        Solid { faces }
    }

    /// The faces of the solid.
    pub fn into_faces(self) -> (r: Vec<Face>)
        ensures
            r == self.faces,
    {
        self.faces
    }
}

} // verus!
