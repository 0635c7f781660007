//! The algorithms of the kernel: transforming, intersecting and sweeping.

pub mod transform;
pub mod intersection;
pub mod sweep;
pub mod bounding;
pub mod sweep_bounds;
