//! Intersection algorithms.

pub mod line_segment;
pub mod curve_face;
pub mod surface_surface;

pub use self::curve_face::{CurveFaceIntersection, CurveFaceIntersectionList};
pub use self::line_segment::{line_segment, LineSegmentIntersection};
pub use self::surface_surface::surface_surface;
