//! The interpolate phase: lays out the new store version, whose files are the
//! source files with the variables substituted (or copied as they are).
use vstd::prelude::*;

use crate::context::{OperationMode, StowawayContext};
use crate::error::StowawayError;
use crate::file_entry::FileEntry;
use crate::interpolation::{interpolate_all, Interpolator, VariableInterpolator};
use crate::lifecycle::LifecyclePhase;
use crate::paths::{join_path, join_spec};
use crate::store::{store_root_of, StoreLocation, no_home_message, FileSystemStoreManager, StoreManager, StoreVersion};

verus! {

/// What the caller observed for the interpolate phase.
pub struct InterpolateObservation {
    /// Where the store lies.
    pub store: StoreLocation,
    /// The current time, in seconds since the Unix epoch.
    pub now: u64,
}

/// One file of the new store version.
pub struct StoreFile {
    /// The source file it is made from.
    pub source_path: String,
    /// Where it is written in the store.
    pub store_path: String,
    /// Whether its content is interpolated (otherwise it is copied byte for byte).
    pub interpolate: bool,
}

/// The new store version to create and fill, in order.
pub struct StorePlan {
    pub version: StoreVersion,
    /// The directory of the version.
    pub store_path: String,
    pub files: Vec<StoreFile>,
}

/// The store file for `entry` in the version directory `store_path`.
pub open spec fn store_file_for(store_path: Seq<char>, entry: FileEntry) -> (Seq<char>, Seq<char>, bool) {
    (entry.source_path@, join_spec(store_path, entry.relative_path@), entry.should_interpolate)
}

/// The text of a store file.
pub open spec fn store_file_view(f: StoreFile) -> (Seq<char>, Seq<char>, bool) {
    (f.source_path@, f.store_path@, f.interpolate)
}

/// Writes the new store version.
pub struct InterpolatePhase;

impl InterpolatePhase {
    /// The content of a store file made from a source file whose text is
    /// `content`: the text with the context's variables interpolated.
    pub fn render(&self, context: &StowawayContext, content: &str) -> (r: Result<String, StowawayError>)
        ensures
            r matches Ok(s) && s@ == interpolate_all(content@, context.config.variables@),
    {
        let interpolator = VariableInterpolator;
        interpolator.interpolate(content, &context.config.variables)
    }
}

impl LifecyclePhase for InterpolatePhase {
    type Observation = InterpolateObservation;

    type Outcome = Option<StorePlan>;

    open spec fn accepts(&self, context: &StowawayContext, observed: &InterpolateObservation) -> bool {
        true
    }

    /// Fails when the store's location is unknown. Verify mode writes
    /// nothing. Otherwise the target hash becomes the store hash (failing when
    /// there is no target hash); a dry run stops there and writes nothing, and
    /// otherwise a version with that hash is planned, each file of the context
    /// getting a store file at its relative path under the version's directory.
    fn execute(&self, context: &mut StowawayContext, observed: InterpolateObservation) -> (r: Result<Option<StorePlan>, StowawayError>)
        ensures
            store_root_of(observed.store) is None ==> (r matches Err(StowawayError::Store(m)) && m@ == no_home_message() && *final(context) == *old(context)),
            store_root_of(observed.store) matches Some(root) ==> {
                if old(context).operation_mode == OperationMode::Verify {
                    r matches Ok(None) && *final(context) == *old(context)
                } else {
                    match old(context).target_hash {
                        None => (r matches Err(StowawayError::Store(m)) && m@ == "No target hash available"@
                            && *final(context) == *old(context)),
                        Some(th) => {
                            let store_path = join_spec(join_spec(root, "store"@), th@);
                            &&& old(context).dry_run ==> (r matches Ok(None))
                            &&& !old(context).dry_run ==> (r matches Ok(Some(plan)) && {
                                &&& plan.version == StoreVersion {
                                    hash: th,
                                    timestamp: observed.now,
                                    source_dir: old(context).source_dir,
                                    target_dir: old(context).target_dir,
                                }
                                &&& plan.store_path@ == store_path
                                &&& plan.files@.map_values(|f: StoreFile| store_file_view(f))
                                    == old(context).files@.map_values(|e: FileEntry| store_file_for(store_path, e))
                            })
                            &&& final(context).store_hash == Some(th)
                            &&& final(context).config == old(context).config
                            &&& final(context).files == old(context).files
                            &&& final(context).source_dir == old(context).source_dir
                            &&& final(context).target_dir == old(context).target_dir
                            &&& final(context).dry_run == old(context).dry_run
                            &&& final(context).target_hash == old(context).target_hash
                            &&& final(context).operation_mode == old(context).operation_mode
                            &&& final(context).current_version == old(context).current_version
                        },
                    }
                }
            },
    {
        let store_manager = match FileSystemStoreManager::new(observed.store) {
            Ok(m) => m,
            Err(e) => return Err(e),
        };
        if context.operation_mode == OperationMode::Verify {
            return Ok(None);
        }
        let target_hash = match &context.target_hash {
            Some(h) => h.clone(),
            None => {
                proof {
                    reveal_strlit("No target hash available");
                }
                return Err(StowawayError::Store("No target hash available".to_owned()));
            },
        };
        if context.dry_run {
            context.store_hash = Some(target_hash);
            return Ok(None);
        }
        let version = StoreVersion {
            hash: target_hash.clone(),
            timestamp: observed.now,
            source_dir: context.source_dir.clone(),
            target_dir: context.target_dir.clone(),
        };
        let store_path = store_manager.create_version(&version);
        context.store_hash = Some(target_hash);
        let ghost sp = store_path@;
        let mut files: Vec<StoreFile> = Vec::new();
        let mut i: usize = 0;
        while i < context.files.len()
            invariant
                i <= context.files.len(),
                store_path@ == sp,
                files@.map_values(|f: StoreFile| store_file_view(f)) == context.files@.take(i as int).map_values(
                    |e: FileEntry| store_file_for(sp, e),
                ),
            decreases context.files.len() - i,
        {
            let entry = &context.files[i];
            let f = StoreFile {
                source_path: entry.source_path.clone(),
                store_path: join_path(store_path.as_str(), entry.relative_path.as_str()),
                interpolate: entry.should_interpolate,
            };
            let ghost before = files@;
            files.push(f);
            proof {
                assert(files@ == before.push(f));
                assert(store_file_view(f) == store_file_for(sp, *entry));
                assert(files@.map_values(|f: StoreFile| store_file_view(f)) =~= before.map_values(
                    |f: StoreFile| store_file_view(f),
                ).push(store_file_view(f)));
                assert(context.files@.take(i + 1) =~= context.files@.take(i as int).push(*entry));
                assert(files@.map_values(|f: StoreFile| store_file_view(f)) =~= context.files@.take(i + 1).map_values(
                    |e: FileEntry| store_file_for(sp, e),
                ));
            }
            i = i + 1;
        }
        assert(context.files@.take(context.files.len() as int) =~= context.files@);
        proof {
            reveal_strlit("store");
        }
        Ok(Some(StorePlan { version, store_path, files }))
    }
}

} // verus!
