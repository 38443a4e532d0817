//! The phases of a stow operation, in the order the engine runs them:
//! context, scan, validate, interpolate, link, cleanup.
//!
//! Each phase decides from the shared context and from what the caller
//! observed on the file system, and answers with what the caller must do.
use vstd::prelude::*;

use crate::context::StowawayContext;
use crate::error::StowawayError;

pub mod cleanup;
pub mod context;
pub mod interpolate;
pub mod link;
pub mod scan;
pub mod validate;

verus! {

/// One phase of a stow operation.
pub trait LifecyclePhase {
    /// What the caller observed on the file system for this phase.
    type Observation;

    /// What the caller must do when the phase succeeds.
    type Outcome;

    /// Whether `observed` is an observation of the state that `context` describes.
    spec fn accepts(&self, context: &StowawayContext, observed: &Self::Observation) -> bool;

    /// Runs the phase on `context`.
    fn execute(&self, context: &mut StowawayContext, observed: Self::Observation) -> Result<Self::Outcome, StowawayError>
        requires
            self.accepts(old(context), &observed),
    ;
}

} // verus!
