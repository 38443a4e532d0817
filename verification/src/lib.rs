//! Stowaway: a dotfile manager that stows a source tree into a target
//! directory through a versioned store, with variable interpolation.
//!
//! The library decides; the caller performs the file-system work. Each
//! operation takes what the caller observed and answers with what to do.
use vstd::prelude::*;

pub mod cli;
pub mod config;
pub mod context;
pub mod engine;
pub mod error;
pub mod file_entry;
pub mod interpolation;
pub mod lifecycle;
pub mod linking;
pub mod logging;
pub mod paths;
pub mod pattern;
pub mod store;
pub mod text;
pub mod utils;
pub mod validation;

pub use error::StowawayError;

use crate::engine::{standard_phases, EngineStep, StowawayEngine, UnstowScope};
use crate::paths::join_spec;
use crate::store::{store_root_of, StoreLocation, no_home_message, session_parse_message, SessionFile};

verus! {

/// The entry point of the library: stows and unstows.
pub struct Stowaway {
    engine: StowawayEngine,
}

impl Stowaway {
    /// The engine that runs the operations.
    pub closed spec fn the_engine(&self) -> StowawayEngine {
        self.engine
    }

    /// A stowaway that runs the standard phases.
    pub fn new() -> (r: Stowaway)
        ensures
            r.the_engine().phase_order() == standard_phases(),
    {
        Stowaway { engine: StowawayEngine::new() }
    }

    /// The engine that runs the operations.
    pub fn engine(&self) -> (r: &StowawayEngine)
        ensures
            *r == self.the_engine(),
    {
        &self.engine
    }

    /// The next step of a stow operation after `completed` phases, the last
    /// of which ended with `outcome`.
    pub fn run(&self, completed: usize, outcome: Result<(), StowawayError>) -> (r: EngineStep)
        ensures
            outcome matches Err(e) ==> r == EngineStep::Finished(Err::<(), StowawayError>(e)),
            outcome is Ok && completed < self.the_engine().phase_order().len() ==> r == EngineStep::Run(
                self.the_engine().phase_order()[completed as int],
            ),
            outcome is Ok && completed >= self.the_engine().phase_order().len() ==> r == EngineStep::Finished(
                Ok::<(), StowawayError>(()),
            ),
    {
        self.engine.execute(completed, outcome)
    }

    /// The scope of an unstow, given the home directory and the session file:
    /// fails when the store's location is unknown, when the session file cannot
    /// be read, or when there is no current version.
    pub fn unstow(&self, store: StoreLocation, session: SessionFile) -> (r: Result<UnstowScope, StowawayError>)
        ensures
            store_root_of(store) is None ==> (r matches Err(StowawayError::Store(m)) && m@ == no_home_message()),
            store_root_of(store) matches Some(root) ==> {
                match session {
                    SessionFile::Missing => r matches Err(StowawayError::Store(m)) && m@ == "No current version exists - nothing to unstow"@,
                    SessionFile::Unreadable(m) => r == Err::<UnstowScope, StowawayError>(StowawayError::Io(m)),
                    SessionFile::Malformed(d) => r matches Err(StowawayError::Store(m)) && m@ == session_parse_message(d@),
                    SessionFile::Parsed(v) => r matches Ok(scope) && {
                        &&& scope.hash == v.hash
                        &&& scope.store_path@ == join_spec(join_spec(root, "store"@), v.hash@)
                        &&& scope.target_dir == v.target_dir
                        &&& scope.session_file@ == join_spec(root, "session.json"@)
                    },
                }
            },
    {
        self.engine.unstow(store, session)
    }
}

impl Default for Stowaway {
    fn default() -> (r: Self)
        ensures
            r.the_engine().phase_order() == standard_phases(),
    {
        Self::new()
    }
}

} // verus!
