//! The state that the lifecycle phases of a stow operation share.
use vstd::prelude::*;

use crate::config::StowawayConfig;
use crate::engine::ExecutionFlags;
use crate::file_entry::FileEntry;
use crate::store::StoreVersion;

verus! {

/// How the store and the links are brought up to date.
#[derive(Debug, Clone, Copy, PartialEq, Eq, Structural)]
pub enum OperationMode {
    /// Same content as the current version: verify the existing links.
    Verify,
    /// New installation: create everything from scratch.
    Create,
    /// Content changed: replace the existing links with new ones.
    Replace,
}

impl Default for OperationMode {
    /// A new installation.
    fn default() -> (r: Self)
        ensures
            r == OperationMode::Create,
    {
        OperationMode::Create
    }
}

/// What the phases of one stow operation know and decide.
pub struct StowawayContext {
    /// The user-provided configuration.
    pub config: StowawayConfig,
    /// The root of the source tree: the files that are scanned, transformed and placed.
    pub source_dir: String,
    /// Where the links are installed.
    pub target_dir: String,
    /// Whether stowaway should refrain from every change.
    pub dry_run: bool,
    /// The files eligible for processing.
    pub files: Vec<FileEntry>,
    /// The hash of the store version that the links point into.
    pub store_hash: Option<String>,
    /// The hash of the store version to create.
    pub target_hash: Option<String>,
    pub operation_mode: OperationMode,
    pub current_version: Option<StoreVersion>,
}

impl StowawayContext {
    /// A fresh context: no files, no hashes, no current version, and the
    /// mode of a new installation.
    pub fn default(config: StowawayConfig, source: String, target: String, flags: ExecutionFlags) -> (r: Self)
        ensures
            r.config == config,
            r.source_dir == source,
            r.target_dir == target,
            r.dry_run == flags.is_dry_run,
            r.files@.len() == 0,
            r.store_hash is None,
            r.target_hash is None,
            r.operation_mode == OperationMode::Create,
            r.current_version is None,
    {
        StowawayContext {
            config,
            source_dir: source,
            target_dir: target,
            dry_run: flags.is_dry_run,
            files: Vec::new(),
            store_hash: None,
            operation_mode: OperationMode::Create,
            current_version: None,
            target_hash: None,
        }
    }
}

} // verus!
