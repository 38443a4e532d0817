//! Decisions about creating and removing the links into the store.
use vstd::prelude::*;

use crate::error::StowawayError;
use crate::paths::{paths_equal, same_path};
use crate::text::concat;
use crate::validation::PathState;

verus! {

/// The message of a link that cannot be created because its path is taken.
pub open spec fn target_exists_message(target: Seq<char>) -> Seq<char> {
    "Target already exists: "@ + target
}

/// The message of a removal refused because the path is not a link.
pub open spec fn not_a_symlink_message(target: Seq<char>) -> Seq<char> {
    "Target is not a symlink: "@ + target
}

/// Creates, removes and checks links.
pub trait Linker {
    /// Whether a link from `target` to `source` may be created, given whether
    /// something (a file, a directory or a link) already occupies `target`.
    fn create_symlink(&self, source: &str, target: &str, target_occupied: bool) -> Result<(), StowawayError>;

    /// Whether `target` may be removed as a link.
    fn remove_symlink(&self, target: &str, target_is_symlink: bool) -> Result<(), StowawayError>;

    /// Whether `target` is a link to `expected_source`.
    fn is_symlink_valid(&self, target: &str, expected_source: &str, state: &PathState) -> Result<bool, StowawayError>;
}

/// Links on the local file system.
pub struct FileSystemLinker;

impl Default for FileSystemLinker {
    fn default() -> (r: Self) {
        FileSystemLinker
    }
}

impl Linker for FileSystemLinker {
    /// Refuses exactly when the target is occupied.
    fn create_symlink(&self, source: &str, target: &str, target_occupied: bool) -> (r: Result<(), StowawayError>)
        ensures
            !target_occupied ==> r is Ok,
            target_occupied ==> (r matches Err(StowawayError::Linking(m)) && m@ == target_exists_message(target@)),
    {
        if target_occupied {
            proof {
                reveal_strlit("Target already exists: ");
            }
            return Err(StowawayError::Linking(concat("Target already exists: ", target)));
        }
        Ok(())
    }

    /// Refuses exactly when the target is not a link.
    fn remove_symlink(&self, target: &str, target_is_symlink: bool) -> (r: Result<(), StowawayError>)
        ensures
            target_is_symlink ==> r is Ok,
            !target_is_symlink ==> (r matches Err(StowawayError::Linking(m)) && m@ == not_a_symlink_message(target@)),
    {
        if !target_is_symlink {
            proof {
                reveal_strlit("Target is not a symlink: ");
            }
            return Err(StowawayError::Linking(concat("Target is not a symlink: ", target)));
        }
        Ok(())
    }

    /// Never fails: true exactly when the target is a readable link to
    /// `expected_source`, compared as paths.
    fn is_symlink_valid(&self, target: &str, expected_source: &str, state: &PathState) -> (r: Result<bool, StowawayError>)
        ensures
            r == Ok::<bool, StowawayError>(state.is_symlink && (state.link matches Some(Ok(t)) && same_path(t@, expected_source@))),
    {
        if !state.is_symlink {
            return Ok(false);
        }
        match &state.link {
            Some(Ok(actual)) => Ok(paths_equal(actual.as_str(), expected_source)),
            _ => Ok(false),
        }
    }
}

} // verus!
