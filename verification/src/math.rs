//! Points, vectors, affine transforms and axis-aligned boxes.

pub mod scalar;
pub mod space;
pub mod point;
pub mod transform;
pub mod aabb;
