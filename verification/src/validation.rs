//! Validation: the checks that a shape must pass before it is handed on.

pub mod closure;
pub mod flat;
pub mod overlap;
pub mod join;
pub mod crossing;

use vstd::prelude::*;
use crate::math::scalar::Tolerance;
use crate::objects::face::Face;
use crate::objects::shape::{Sketch, Solid};
use crate::validation::closure::{
    all_closed, first_open_cycle, is_first_open_cycle, lemma_first_open_cycle_unique, CycleId,
};
use crate::validation::crossing::{
    all_simple, first_self_intersection, is_first_self_intersection,
    lemma_first_self_intersection_unique,
};
use crate::validation::join::{
    all_joined, first_inconsistent_join, is_first_inconsistent_join,
    lemma_first_inconsistent_join_unique,
};
use crate::validation::overlap::{
    all_disjoint, first_overlapping_cycles, is_first_overlapping_cycles,
    lemma_first_overlapping_cycles_unique,
};

verus! {

/// What a validation checks, and how closely.
///
/// The tolerance is used for every test of coincidence and of parallelism.
/// Each flag switches one check on.
#[derive(Clone, Copy, Debug, PartialEq, Eq, Structural)]
pub struct ValidationConfig {
    pub tolerance: Tolerance,
    /// Every cycle is closed.
    pub closure: bool,
    /// No two cycles of one face overlap.
    pub overlap: bool,
    /// Faces that share an edge are joined consistently.
    pub join: bool,
    /// No cycle crosses itself.
    pub self_intersection: bool,
}

impl ValidationConfig {
    /// The configuration that runs every check with the given tolerance.
    pub fn new(tolerance: Tolerance) -> (r: Self)
        ensures
            r == (ValidationConfig {
                tolerance,
                closure: true,
                overlap: true,
                join: true,
                self_intersection: true,
            }),
    {
        ValidationConfig {
            tolerance,
            closure: true,
            overlap: true,
            join: true,
            self_intersection: true,
        }
    }

    /// The configuration that runs the chosen checks with the given
    /// tolerance.
    pub fn with_checks(
        tolerance: Tolerance,
        closure: bool,
        overlap: bool,
        join: bool,
        self_intersection: bool,
    ) -> (r: Self)
        ensures
            r == (ValidationConfig { tolerance, closure, overlap, join, self_intersection }),
    {
        ValidationConfig { tolerance, closure, overlap, join, self_intersection }
    }
}

/// Why a shape is not valid: the check that failed, and where.
#[derive(Clone, Copy, Debug, PartialEq, Eq, Structural)]
pub enum ValidationError {
    /// A cycle is not closed: behind the edge `edge` of the cycle `cycle` of
    /// the face `face` there is a gap.
    OpenCycle { face: usize, cycle: CycleId, edge: usize },
    /// The cycles `first_cycle` and `second_cycle` of the face `face`
    /// overlap.
    OverlappingCycles { face: usize, first_cycle: CycleId, second_cycle: CycleId },
    /// The faces `first_face` and `second_face` share an edge and are not
    /// joined consistently along it.
    InconsistentJoin { first_face: usize, second_face: usize },
    /// The edges `first_edge` and `second_edge` of the cycle `cycle` of the
    /// face `face` cross.
    SelfIntersection { face: usize, cycle: CycleId, first_edge: usize, second_edge: usize },
}

/// A shape that is made of faces.
pub trait Shape: Sized {
    /// The faces of the shape.
    spec fn spec_faces(&self) -> Seq<Face>;

    /// The faces of the shape.
    fn faces(&self) -> (r: &Vec<Face>)
        ensures
            r@ == self.spec_faces(),
    ;
}

impl Shape for Sketch {
    open spec fn spec_faces(&self) -> Seq<Face> {
        self.faces@
    }

    fn faces(&self) -> (r: &Vec<Face>) {
        &self.faces
    }
}

impl Shape for Solid {
    open spec fn spec_faces(&self) -> Seq<Face> {
        self.faces@
    }

    fn faces(&self) -> (r: &Vec<Face>) {
        &self.faces
    }
}

/// Whether the faces pass every check that the configuration switches on.
pub open spec fn passes(faces: Seq<Face>, config: ValidationConfig) -> bool {
    let tolerance = config.tolerance.distance as int;
    &&& config.closure ==> all_closed(faces, tolerance)
    &&& config.overlap ==> all_disjoint(faces, tolerance)
    &&& config.join ==> all_joined(faces, tolerance)
    &&& config.self_intersection ==> all_simple(faces, tolerance)
}

/// Whether `error` is what validation reports of the faces: the first
/// failure of the first check that fails. The checks run in the order
/// closure, overlap, join, self-intersection, those that are switched off
/// being left out.
pub open spec fn reports(faces: Seq<Face>, config: ValidationConfig, error: ValidationError) -> bool {
    let tolerance = config.tolerance.distance as int;
    match error {
        ValidationError::OpenCycle { face, cycle, edge } => {
            &&& config.closure
            &&& is_first_open_cycle(faces, tolerance, face, cycle, edge)
        },
        ValidationError::OverlappingCycles { face, first_cycle, second_cycle } => {
            &&& config.closure ==> all_closed(faces, tolerance)
            &&& config.overlap
            &&& is_first_overlapping_cycles(faces, tolerance, face, first_cycle, second_cycle)
        },
        ValidationError::InconsistentJoin { first_face, second_face } => {
            &&& config.closure ==> all_closed(faces, tolerance)
            &&& config.overlap ==> all_disjoint(faces, tolerance)
            &&& config.join
            &&& is_first_inconsistent_join(faces, tolerance, first_face, second_face)
        },
        ValidationError::SelfIntersection { face, cycle, first_edge, second_edge } => {
            &&& config.closure ==> all_closed(faces, tolerance)
            &&& config.overlap ==> all_disjoint(faces, tolerance)
            &&& config.join ==> all_joined(faces, tolerance)
            &&& config.self_intersection
            &&& is_first_self_intersection(faces, tolerance, face, cycle, first_edge, second_edge)
        },
    }
}

/// A shape that has passed validation, with the configuration under which
/// it passed. Only `validate` makes one.
pub struct Validated<T: Shape> {
    shape: T,
    config: ValidationConfig,
}

impl<T: Shape> Validated<T> {
    #[verifier::type_invariant]
    spec fn certified(self) -> bool {
        passes(self.shape.spec_faces(), self.config)
    }

    /// The shape that passed.
    pub closed spec fn spec_inner(&self) -> T {
        self.shape
    }

    /// The configuration under which it passed.
    pub closed spec fn spec_config(&self) -> ValidationConfig {
        self.config
    }

    /// The shape that passed.
    pub fn inner(&self) -> (r: &T)
        ensures
            *r == self.spec_inner(),
            passes(r.spec_faces(), self.spec_config()),
    {
        proof {
            use_type_invariant(self);
        }
        &self.shape
    }

    /// The shape that passed, without its certificate.
    pub fn into_inner(self) -> (r: T)
        ensures
            r == self.spec_inner(),
            passes(r.spec_faces(), self.spec_config()),
    {
        proof {
            use_type_invariant(&self);
        }
        self.shape
    }

    /// The configuration under which the shape passed.
    pub fn config(&self) -> (r: ValidationConfig)
        ensures
            r == self.spec_config(),
    {
        self.config
    }
}

/// Validates a shape. The shape comes back certified where it passes every
/// check that the configuration switches on; else the first failure of the
/// first failing check is reported. Nothing is repaired.
pub fn validate<T: Shape>(shape: T, config: &ValidationConfig) -> (r: Result<
    Validated<T>,
    ValidationError,
>)
    ensures
        match r {
            Ok(validated) => {
                &&& validated.spec_inner() == shape
                &&& validated.spec_config() == *config
                &&& passes(shape.spec_faces(), *config)
            },
            Err(error) => reports(shape.spec_faces(), *config, error),
        },
{
    let tolerance = config.tolerance;
    if config.closure {
        match first_open_cycle(shape.faces(), &tolerance) {
            Some((face, cycle, edge)) => {
                return Err(ValidationError::OpenCycle { face, cycle, edge });
            },
            None => {},
        }
    }
    if config.overlap {
        match first_overlapping_cycles(shape.faces(), &tolerance) {
            Some((face, first_cycle, second_cycle)) => {
                return Err(
                    ValidationError::OverlappingCycles { face, first_cycle, second_cycle },
                );
            },
            None => {},
        }
    }
    if config.join {
        match first_inconsistent_join(shape.faces(), &tolerance) {
            Some((first_face, second_face)) => {
                return Err(ValidationError::InconsistentJoin { first_face, second_face });
            },
            None => {},
        }
    }
    if config.self_intersection {
        match first_self_intersection(shape.faces(), &tolerance) {
            Some((face, cycle, first_edge, second_edge)) => {
                return Err(
                    ValidationError::SelfIntersection { face, cycle, first_edge, second_edge },
                );
            },
            None => {},
        }
    }
    Ok(Validated { shape, config: *config })
}

/// Validation has one outcome: what is reported of a shape is the one thing
/// that can be reported of it, and nothing is reported of a shape that
/// passes.
pub proof fn lemma_one_outcome(
    faces: Seq<Face>,
    config: ValidationConfig,
    error: ValidationError,
    other: ValidationError,
)
    requires
        reports(faces, config, error),
    ensures
        !passes(faces, config),
        reports(faces, config, other) ==> error == other,
{
    let tolerance = config.tolerance.distance as int;
    match error {
        ValidationError::OpenCycle { face, cycle, edge } => {
            match other {
                ValidationError::OpenCycle { face: f, cycle: c, edge: e } => {
                    lemma_first_open_cycle_unique(faces, tolerance, face, cycle, edge, f, c, e);
                },
                _ => {
                    lemma_first_open_cycle_unique(
                        faces,
                        tolerance,
                        face,
                        cycle,
                        edge,
                        face,
                        cycle,
                        edge,
                    );
                },
            }
        },
        ValidationError::OverlappingCycles { face, first_cycle, second_cycle } => {
            match other {
                ValidationError::OpenCycle { face: f, cycle: c, edge: e } => {
                    if reports(faces, config, other) {
                        lemma_first_open_cycle_unique(faces, tolerance, f, c, e, f, c, e);
                    }
                },
                ValidationError::OverlappingCycles {
                    face: f,
                    first_cycle: a,
                    second_cycle: b,
                } => {
                    lemma_first_overlapping_cycles_unique(
                        faces,
                        tolerance,
                        face,
                        first_cycle,
                        second_cycle,
                        f,
                        a,
                        b,
                    );
                },
                _ => {
                    lemma_first_overlapping_cycles_unique(
                        faces,
                        tolerance,
                        face,
                        first_cycle,
                        second_cycle,
                        face,
                        first_cycle,
                        second_cycle,
                    );
                },
            }
        },
        ValidationError::InconsistentJoin { first_face, second_face } => {
            match other {
                ValidationError::OpenCycle { face: f, cycle: c, edge: e } => {
                    if reports(faces, config, other) {
                        lemma_first_open_cycle_unique(faces, tolerance, f, c, e, f, c, e);
                    }
                },
                ValidationError::OverlappingCycles {
                    face: f,
                    first_cycle: a,
                    second_cycle: b,
                } => {
                    if reports(faces, config, other) {
                        lemma_first_overlapping_cycles_unique(faces, tolerance, f, a, b, f, a, b);
                    }
                },
                ValidationError::InconsistentJoin { first_face: a, second_face: b } => {
                    lemma_first_inconsistent_join_unique(
                        faces,
                        tolerance,
                        first_face,
                        second_face,
                        a,
                        b,
                    );
                },
                _ => {
                    lemma_first_inconsistent_join_unique(
                        faces,
                        tolerance,
                        first_face,
                        second_face,
                        first_face,
                        second_face,
                    );
                },
            }
        },
        ValidationError::SelfIntersection { face, cycle, first_edge, second_edge } => {
            lemma_first_self_intersection_unique(
                faces,
                tolerance,
                face,
                cycle,
                first_edge,
                second_edge,
                face,
                cycle,
                first_edge,
                second_edge,
            );
            match other {
                ValidationError::OpenCycle { face: f, cycle: c, edge: e } => {
                    if reports(faces, config, other) {
                        lemma_first_open_cycle_unique(faces, tolerance, f, c, e, f, c, e);
                    }
                },
                ValidationError::OverlappingCycles {
                    face: f,
                    first_cycle: a,
                    second_cycle: b,
                } => {
                    if reports(faces, config, other) {
                        lemma_first_overlapping_cycles_unique(faces, tolerance, f, a, b, f, a, b);
                    }
                },
                ValidationError::InconsistentJoin { first_face: a, second_face: b } => {
                    if reports(faces, config, other) {
                        lemma_first_inconsistent_join_unique(faces, tolerance, a, b, a, b);
                    }
                },
                ValidationError::SelfIntersection {
                    face: f,
                    cycle: c,
                    first_edge: a,
                    second_edge: b,
                } => {
                    lemma_first_self_intersection_unique(
                        faces,
                        tolerance,
                        face,
                        cycle,
                        first_edge,
                        second_edge,
                        f,
                        c,
                        a,
                        b,
                    );
                },
            }
        },
    }
}

} // verus!
