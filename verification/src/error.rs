//! The ways in which a step can fail.

use vstd::prelude::*;

verus! {

/// The operation during which a failure was found.
#[derive(Clone, Copy, Debug, PartialEq, Eq, Structural)]
pub enum Operation {
    /// The sum of two state collections.
    Add,
    /// Staging a snapshot on the entities of a world.
    Evaluate,
}

/// Why a step could not be carried out.
#[derive(Clone, Copy, Debug, PartialEq, Eq, Structural)]
pub enum IntegratorError {
    /// `entity` is a key of one operand of `operation` and not of the other.
    KeyMismatch { entity: u64, operation: Operation },
    /// A solver was selected by a name that is none of the four schemes.
    UnrecognizedSolver,
}

impl IntegratorError {
    /// Whether this is a key mismatch found during `operation`, on an entity
    /// that some of the collections `ms` hold and others do not.
    pub open spec fn blames<S>(self, operation: Operation, ms: Seq<Map<u64, S>>) -> bool {
        self matches IntegratorError::KeyMismatch { entity, operation: found } && found
            == operation && crate::state_map::in_some_only(entity, ms)
    }
}

} // verus!
