//! Operations that build shapes: so far, the sweep of a sketch.

use vstd::prelude::*;
use crate::algorithms::bounding::{bounding_volume, box_with_faces, swept_volume};
use crate::algorithms::sweep::{is_sweep_of, sweep, SweepError};
use crate::algorithms::transform::all_transformable;
use crate::math::aabb::Aabb;
use crate::math::point::Vector;
use crate::math::scalar::{greatest, least, Tolerance};
use crate::math::space::{Affine, Vec3};
use crate::objects::face::{Color, Face};
use crate::objects::shape::{Sketch, Solid};
use crate::validation::{passes, reports, validate, Validated, ValidationConfig, ValidationError};

verus! {

/// The sweep of a sketch along a straight path, in one colour.
pub struct Sweep {
    pub shape: Sketch,
    pub path: Vector,
    pub color: Color,
}

/// Why a shape could not be built.
#[derive(Clone, Copy, Debug, PartialEq, Eq, Structural)]
pub enum BuildError {
    /// The sketch, or the solid swept from it, is not valid.
    Invalid(ValidationError),
    /// The sketch is valid and could not be swept.
    Sweep(SweepError),
}

/// What building the sweep of the faces `source` along `path` comes to.
///
/// The source is validated first and its failure reported. A valid source is
/// swept; a path no longer than the tolerance, or a solid that cannot be
/// stored, is reported. The solid is validated in its turn, and comes back
/// certified or with its failure.
pub open spec fn builds(
    source: Seq<Face>,
    path: Vector,
    color: Color,
    config: ValidationConfig,
    tolerance: Tolerance,
    result: Result<Validated<Solid>, BuildError>,
) -> bool {
    let flat = path@.close_to(Vec3::zero(), tolerance.distance as int);
    let movable = all_transformable(source, Affine::translation(path@));
    match result {
        Ok(validated) => {
            &&& passes(source, config)
            &&& !flat
            &&& is_sweep_of(source, path, color, validated.spec_inner().faces@)
            &&& passes(validated.spec_inner().faces@, config)
            &&& validated.spec_config() == config
        },
        Err(BuildError::Invalid(error)) => {
            ||| reports(source, config, error)
            ||| {
                &&& passes(source, config)
                &&& !flat
                &&& exists|solid: Seq<Face>| #[trigger]
                    is_sweep_of(source, path, color, solid) && reports(solid, config, error)
            }
        },
        Err(BuildError::Sweep(SweepError::DegeneratePath)) => passes(source, config) && flat,
        Err(BuildError::Sweep(SweepError::OutOfRange)) => passes(source, config) && !flat
            && !movable,
    }
}

impl Sweep {
    /// The sweep of `shape` along `path`, in the given colour.
    pub fn new(shape: Sketch, path: Vector, color: Color) -> (r: Self)
        ensures
            r.shape == shape,
            r.path == path,
            r.color == color,
    {
        Sweep { shape, path, color }
    }

    /// Builds the solid: validates the sketch, sweeps it and validates what
    /// was swept.
    pub fn compute_brep(self, config: &ValidationConfig, tolerance: Tolerance) -> (r: Result<
        Validated<Solid>,
        BuildError,
    >)
        ensures
            builds(self.shape.faces@, self.path, self.color, *config, tolerance, r),
    {
        let path = self.path;
        let color = self.color;
        let sketch = match validate(self.shape, config) {
            Ok(sketch) => sketch,
            Err(error) => {
                return Err(BuildError::Invalid(error));
            },
        };
        let solid = match sweep(&sketch, path, tolerance, color) {
            Ok(solid) => solid,
            Err(error) => {
                return Err(BuildError::Sweep(error));
            },
        };
        let ghost swept = solid.faces@;
        match validate(solid, config) {
            Ok(validated) => Ok(validated),
            Err(error) => {
                assert(is_sweep_of(self.shape.faces@, path, color, swept) && reports(
                    swept,
                    *config,
                    error,
                ));
                Err(BuildError::Invalid(error))
            },
        }
    }

    /// The box around the swept solid: the smallest box that holds the box
    /// around the vertices of the sketch and the same box moved along the
    /// path, which is the box around the vertices of the solid that the
    /// sketch is swept into. There is none where the sketch has no vertex, or
    /// where the moved box cannot be stored.
    pub fn bounding_volume(&self) -> (r: Option<Aabb>)
        ensures
            match box_with_faces(None, self.shape.faces@, self.shape.faces@.len()) {
                Some(flat) => match r {
                    Some(swept) => {
                        &&& swept.min.x == least(flat.min.x as int, flat.min.x + self.path.x)
                        &&& swept.min.y == least(flat.min.y as int, flat.min.y + self.path.y)
                        &&& swept.min.z == least(flat.min.z as int, flat.min.z + self.path.z)
                        &&& swept.max.x == greatest(flat.max.x as int, flat.max.x + self.path.x)
                        &&& swept.max.y == greatest(flat.max.y as int, flat.max.y + self.path.y)
                        &&& swept.max.z == greatest(flat.max.z as int, flat.max.z + self.path.z)
                    },
                    None => !(flat.min@.plus(self.path@).representable() && flat.max@.plus(
                        self.path@,
                    ).representable()),
                },
                None => r is None,
            },
    {
        match bounding_volume(&self.shape.faces) {
            Some(flat) => swept_volume(&flat, &self.path),
            None => None,
        }
    }
}

} // verus!
