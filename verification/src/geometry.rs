//! Curves and surfaces: value types with their parametrizations.

pub mod curve;
pub mod surface;
