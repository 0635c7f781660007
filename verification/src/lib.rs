//! A boundary-representation kernel on the integer lattice.
//!
//! Shapes are described by the faces that bound them. Every coordinate is an
//! integer number of lattice units, so that transforms, intersections and
//! validity checks are exact and can be stated and proved without rounding.
//!
//! `math` and `geometry` hold the primitives, `objects` the topology built
//! from them, `algorithms` what transforms, intersects and sweeps it, and
//! `validation` the checks that a shape passes before it is handed on.
//! `operations` builds shapes from descriptions. `host` and `export` hold
//! what is decided at the boundary to the programs that load models and
//! write meshes.

pub mod math;
pub mod geometry;
pub mod local;
pub mod objects;
pub mod algorithms;
pub mod validation;
pub mod operations;
pub mod host;
pub mod export;
