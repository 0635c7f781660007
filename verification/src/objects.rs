//! The topology of a shape: vertices, edges, cycles, faces, sketches and
//! solids.

pub mod vertex;
pub mod edge;
pub mod face;
pub mod shape;
pub mod mesh;
