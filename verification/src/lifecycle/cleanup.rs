//! The cleanup phase: removes old store versions, keeping the newest.
use vstd::prelude::*;

use crate::context::StowawayContext;
use crate::error::StowawayError;
use crate::lifecycle::LifecyclePhase;
use crate::store::{store_root_of, StoreLocation, no_home_message, ordered_newest_first, removed_versions, FileSystemStoreManager, StoreManager, VersionDir};

verus! {

/// What the caller observed for the cleanup phase.
pub struct CleanupObservation {
    /// Where the store lies.
    pub store: StoreLocation,
    /// The entries of the directory of versions.
    pub versions: Vec<VersionDir>,
}

/// The number of versions: the directories among the entries.
pub open spec fn version_count(dirs: Seq<VersionDir>) -> nat
    decreases dirs.len(),
{
    if dirs.len() == 0 {
        0
    } else {
        version_count(dirs.drop_last()) + if dirs.last().is_dir { 1nat } else { 0nat }
    }
}

/// Removes store versions that are no longer current.
pub struct CleanupPhase;

impl LifecyclePhase for CleanupPhase {
    type Observation = CleanupObservation;

    /// The version directories to remove, in order. A removal that fails
    /// stops the cleanup without failing the operation.
    type Outcome = Vec<String>;

    open spec fn accepts(&self, context: &StowawayContext, observed: &CleanupObservation) -> bool {
        true
    }

    /// A dry run removes nothing; fails when the store's location is unknown;
    /// with at most one version nothing is removed; otherwise every version
    /// but the newest is removed.
    fn execute(&self, context: &mut StowawayContext, observed: CleanupObservation) -> (r: Result<Vec<String>, StowawayError>)
        ensures
            *final(context) == *old(context),
            old(context).dry_run ==> (r matches Ok(v) && v@.len() == 0),
            !old(context).dry_run && store_root_of(observed.store) is None ==> (r matches Err(StowawayError::Store(m)) && m@ == no_home_message()),
            !old(context).dry_run && store_root_of(observed.store) is Some && version_count(observed.versions@) <= 1 ==> (
                r matches Ok(v) && v@.len() == 0),
            !old(context).dry_run && store_root_of(observed.store) is Some && version_count(observed.versions@) > 1 ==> (
                r matches Ok(v) && exists|order: Seq<usize>| ordered_newest_first(observed.versions@, order)
                    && v@.map_values(|s: String| s@) == removed_versions(observed.versions@, order, 1)),
    {
        if context.dry_run {
            return Ok(Vec::new());
        }
        let store_manager = match FileSystemStoreManager::new(observed.store) {
            Ok(m) => m,
            Err(e) => return Err(e),
        };
        let mut count: usize = 0;
        let mut i: usize = 0;
        while i < observed.versions.len()
            invariant
                i <= observed.versions.len(),
                count == version_count(observed.versions@.take(i as int)),
                count <= i,
            decreases observed.versions.len() - i,
        {
            assert(observed.versions@.take(i + 1).drop_last() =~= observed.versions@.take(i as int));
            if observed.versions[i].is_dir {
                count = count + 1;
            }
            i = i + 1;
        }
        assert(observed.versions@.take(observed.versions.len() as int) =~= observed.versions@);
        if count <= 1 {
            return Ok(Vec::new());
        }
        Ok(store_manager.cleanup_old_versions(1, &observed.versions))
    }
}

} // verus!
