//! Classification of what already stands at a target path.
use vstd::prelude::*;

use crate::error::StowawayError;
use crate::text::{contains_seq, contains_str, str_to_string};

verus! {

/// What the file system showed at a path.
pub struct PathState {
    /// The path itself is a symbolic link (broken or not).
    pub is_symlink: bool,
    /// The path exists, following symbolic links.
    pub exists: bool,
    /// The path is a directory, following symbolic links.
    pub is_dir: bool,
    /// The path is a regular file, following symbolic links.
    pub is_file: bool,
    /// For a symbolic link, what reading it gave: its target, or the
    /// operating system's message. `None` when the path is not a link.
    pub link: Option<Result<String, String>>,
}

/// The kind of conflict found at a target path.
#[derive(Debug, Clone, Copy, PartialEq, Eq, Structural)]
pub enum ConflictType {
    NoConflict,
    FileExists,
    DirectoryExists,
    SymlinkExists,
    PermissionDenied,
}

/// The outcome of checking one target path.
pub struct ValidationResult {
    pub path: String,
    pub conflict_type: ConflictType,
    pub is_managed: bool,
}

/// The conflict at a path: a link of any kind comes first, then nothing at
/// all, then a directory, then a regular file.
pub open spec fn conflict_of(st: PathState) -> ConflictType {
    if st.is_symlink {
        ConflictType::SymlinkExists
    } else if !st.exists {
        ConflictType::NoConflict
    } else if st.is_dir {
        ConflictType::DirectoryExists
    } else if st.is_file {
        ConflictType::FileExists
    } else {
        ConflictType::NoConflict
    }
}

/// A path is managed by stowaway when it is a link whose target lies in a store.
pub open spec fn is_managed(st: PathState) -> bool {
    st.is_symlink && (st.link matches Some(Ok(t)) && contains_seq(t@, ".stowaway/store/"@))
}

/// Checks whether a path can receive a link.
pub trait Validator {
    /// What stands at `path`, given the file system's state there.
    fn validate_path(&self, path: &str, state: &PathState) -> Result<ValidationResult, StowawayError>;

    /// Whether `path` is a link into a stowaway store.
    fn is_managed_by_stowaway(&self, path: &str, state: &PathState) -> Result<bool, StowawayError>;
}

/// Validates paths against the local file system.
pub struct FileSystemValidator;

impl Default for FileSystemValidator {
    fn default() -> (r: Self) {
        FileSystemValidator
    }
}

impl Validator for FileSystemValidator {
    /// Never fails; classifies the path by `conflict_of` and `is_managed`.
    fn validate_path(&self, path: &str, state: &PathState) -> (r: Result<ValidationResult, StowawayError>)
        ensures
            r matches Ok(v) && v.path@ == path@ && v.conflict_type == conflict_of(*state)
                && v.is_managed == is_managed(*state),
    {
        let conflict_type = if state.is_symlink {
            ConflictType::SymlinkExists
        } else if !state.exists {
            ConflictType::NoConflict
        } else if state.is_dir {
            ConflictType::DirectoryExists
        } else if state.is_file {
            ConflictType::FileExists
        } else {
            ConflictType::NoConflict
        };
        let is_managed = if state.is_symlink {
            match self.is_managed_by_stowaway(path, state) {
                Ok(b) => b,
                Err(e) => return Err(e),
            }
        } else {
            false
        };
        Ok(ValidationResult { path: str_to_string(path), conflict_type, is_managed })
    }

    /// Never fails: a link whose target contains `.stowaway/store/`; an
    /// unreadable link is not managed.
    fn is_managed_by_stowaway(&self, path: &str, state: &PathState) -> (r: Result<bool, StowawayError>)
        ensures
            r == Ok::<bool, StowawayError>(is_managed(*state)),
    {
        if !state.is_symlink {
            return Ok(false);
        }
        match &state.link {
            Some(Ok(target)) => {
                proof {
                    reveal_strlit(".stowaway/store/");
                }
                Ok(contains_str(target.as_str(), crate::config::STOWAWAY_STORE_PATH))
            },
            _ => Ok(false),
        }
    }
}

} // verus!
