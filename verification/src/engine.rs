//! The engine that sequences the phases of a stow operation, and unstowing.
use vstd::prelude::*;

use crate::config::{strings_view, ConfigFile, ConfigLoader, YamlConfigLoader};
use crate::context::StowawayContext;
use crate::file_entry::FileEntry;
use crate::lifecycle::link::{links_as_created, LinkPlan, LinkTarget};
use crate::error::StowawayError;
use crate::linking::{FileSystemLinker, Linker};
use crate::paths::{join_path, join_spec};
use crate::store::{store_root_of, StoreLocation, no_home_message, session_parse_message, FileSystemStoreManager, SessionFile, StoreManager};
use crate::text::{concat, str_to_string};

verus! {

/// Options of one run.
pub struct ExecutionFlags {
    pub is_dry_run: bool,
}

/// A phase of a stow operation.
#[derive(Debug, Clone, Copy, PartialEq, Eq, Structural)]
pub enum PhaseKind {
    Context,
    Scan,
    Validate,
    Interpolate,
    Link,
    Cleanup,
}

/// What the caller does next.
pub enum EngineStep {
    /// Run this phase, then report its outcome.
    Run(PhaseKind),
    /// The operation is over, with this result.
    Finished(Result<(), StowawayError>),
}

/// The phases of a stow operation, in order.
pub open spec fn standard_phases() -> Seq<PhaseKind> {
    seq![
        PhaseKind::Context,
        PhaseKind::Scan,
        PhaseKind::Validate,
        PhaseKind::Interpolate,
        PhaseKind::Link,
        PhaseKind::Cleanup,
    ]
}

/// Runs the lifecycle of a stow operation and unstows.
pub struct StowawayEngine {
    config_loader: YamlConfigLoader,
    phases: Vec<PhaseKind>,
}

impl Default for StowawayEngine {
    fn default() -> (r: Self)
        ensures
            r.phase_order() == standard_phases(),
    {
        Self::new()
    }
}

/// The scope of an unstow: the current version's store and where it was linked.
pub struct UnstowScope {
    pub hash: String,
    pub store_path: String,
    pub target_dir: String,
    pub session_file: String,
}

/// A regular file of the current version's store.
pub struct StoreEntry {
    /// The path relative to the version's directory.
    pub relative_path: String,
    /// Whether the corresponding path under the target directory is a link.
    pub target_is_symlink: bool,
}

/// What the caller observed for an unstow.
pub struct UnstowObservation {
    /// Whether the version's store directory exists.
    pub store_exists: bool,
    /// The regular files of the store, in the order of the walk.
    pub entries: Vec<StoreEntry>,
    /// The walk's failure, if it stopped early.
    pub walk_error: Option<String>,
}

/// What the caller must do to unstow, in this order: remove the listed
/// links, report the failure if there is one, and otherwise remove the
/// session file (when it exists).
pub struct UnstowPlan {
    pub removals: Vec<String>,
    /// In a dry run: how many links would be removed.
    pub would_remove: usize,
    pub failure: Option<StowawayError>,
    pub clear_session: Option<String>,
}

/// The targets of the store entries that are links, in order.
pub open spec fn linked_targets(target_dir: Seq<char>, entries: Seq<StoreEntry>) -> Seq<Seq<char>>
    decreases entries.len(),
{
    if entries.len() == 0 {
        Seq::empty()
    } else {
        let init = linked_targets(target_dir, entries.drop_last());
        if entries.last().target_is_symlink {
            init.push(join_spec(target_dir, entries.last().relative_path@))
        } else {
            init
        }
    }
}

/// The message of a store version that is missing.
pub open spec fn missing_version_message(hash: Seq<char>) -> Seq<char> {
    "Store version "@ + hash + " does not exist"@
}

impl StowawayEngine {
    /// The phases the engine runs, in order.
    pub closed spec fn phase_order(&self) -> Seq<PhaseKind> {
        self.phases@
    }

    /// An engine that runs the standard phases: context, scan, validate,
    /// interpolate, link, cleanup.
    pub fn new() -> (r: StowawayEngine)
        ensures
            r.phase_order() == standard_phases(),
    {
        let mut phases: Vec<PhaseKind> = Vec::new();
        phases.push(PhaseKind::Context);
        phases.push(PhaseKind::Scan);
        phases.push(PhaseKind::Validate);
        phases.push(PhaseKind::Interpolate);
        phases.push(PhaseKind::Link);
        phases.push(PhaseKind::Cleanup);
        assert(phases@ =~= standard_phases());
        StowawayEngine { config_loader: YamlConfigLoader, phases }
    }

    /// The phases the engine runs, in order.
    pub fn phases(&self) -> (r: &Vec<PhaseKind>)
        ensures
            r@ == self.phase_order(),
    {
        &self.phases
    }

    /// Where the configuration of `source` lies.
    pub fn config_path(&self, source: &str) -> (r: String)
        ensures
            r@ == join_spec(source@, "stowaway.yaml"@),
    {
        self.config_loader.config_path(source)
    }

    /// The context of an operation on `source` and `target`, given what
    /// reading the configuration file gave; fails as loading the configuration does.
    pub fn start(&self, source: &str, target: &str, flags: ExecutionFlags, config_file: ConfigFile) -> (r: Result<StowawayContext, StowawayError>)
        ensures
            config_file matches ConfigFile::Unreadable(m) ==> r == Err::<StowawayContext, StowawayError>(StowawayError::Io(m)),
            config_file matches ConfigFile::Malformed(m) ==> r == Err::<StowawayContext, StowawayError>(StowawayError::Yaml(m)),
            config_file matches ConfigFile::Parsed(c) ==> (r matches Ok(ctx) && ctx.config == c),
            config_file is Missing ==> (r matches Ok(ctx) && ctx.config.variables@.len() == 0
                && strings_view(ctx.config.interpolation.include_patterns@) == seq!["**/*"@]
                && strings_view(ctx.config.interpolation.exclude_patterns@) == seq!["**/stowaway.yaml"@]),
            r matches Ok(ctx) ==> {
                &&& ctx.source_dir@ == source@
                &&& ctx.target_dir@ == target@
                &&& ctx.dry_run == flags.is_dry_run
                &&& ctx.files@.len() == 0
                &&& ctx.store_hash is None
                &&& ctx.target_hash is None
                &&& ctx.operation_mode == crate::context::OperationMode::Create
                &&& ctx.current_version is None
            },
    {
        let config = match self.config_loader.load_config(config_file) {
            Ok(c) => c,
            Err(e) => return Err(e),
        };
        Ok(StowawayContext::default(config, str_to_string(source), str_to_string(target), flags))
    }

    /// The next step of an operation, after `completed` phases of which the
    /// last ended with `outcome` (`Ok` before the first phase): stop at the
    /// first failure, run the next phase, or finish once all have run.
    pub fn execute(&self, completed: usize, outcome: Result<(), StowawayError>) -> (r: EngineStep)
        ensures
            outcome matches Err(e) ==> r == EngineStep::Finished(Err::<(), StowawayError>(e)),
            outcome is Ok && completed < self.phase_order().len() ==> r == EngineStep::Run(self.phase_order()[completed as int]),
            outcome is Ok && completed >= self.phase_order().len() ==> r == EngineStep::Finished(Ok::<(), StowawayError>(())),
    {
        match outcome {
            Err(e) => EngineStep::Finished(Err(e)),
            Ok(()) => {
                if completed < self.phases.len() {
                    EngineStep::Run(self.phases[completed])
                } else {
                    EngineStep::Finished(Ok(()))
                }
            },
        }
    }

    /// The scope of an unstow: fails when the store's location is unknown, when
    /// the session file cannot be read, or when there is no current version.
    pub fn unstow(&self, store: StoreLocation, session: SessionFile) -> (r: Result<UnstowScope, StowawayError>)
        ensures
            store_root_of(store) is None ==> (r matches Err(StowawayError::Store(m)) && m@ == no_home_message()),
            store_root_of(store) matches Some(root) ==> {
                match session {
                    SessionFile::Missing => r matches Err(StowawayError::Store(m)) && m@ == "No current version exists - nothing to unstow"@,
                    SessionFile::Unreadable(m) => r == Err::<UnstowScope, StowawayError>(StowawayError::Io(m)),
                    SessionFile::Malformed(d) => r matches Err(StowawayError::Store(m)) && m@ == session_parse_message(d@),
                    SessionFile::Parsed(v) => r matches Ok(scope) && {
                        &&& scope.hash == v.hash
                        &&& scope.store_path@ == join_spec(join_spec(root, "store"@), v.hash@)
                        &&& scope.target_dir == v.target_dir
                        &&& scope.session_file@ == join_spec(root, "session.json"@)
                    },
                }
            },
    {
        let store_manager = match FileSystemStoreManager::new(store) {
            Ok(m) => m,
            Err(e) => return Err(e),
        };
        let current = match store_manager.get_current_version(session) {
            Ok(c) => c,
            Err(e) => return Err(e),
        };
        match current {
            None => {
                proof {
                    reveal_strlit("No current version exists - nothing to unstow");
                }
                Err(StowawayError::Store("No current version exists - nothing to unstow".to_owned()))
            },
            Some(version) => {
                let store_path = store_manager.get_store_path(version.hash.as_str());
                let session_file = store_manager.session_file_path();
                Ok(UnstowScope { hash: version.hash, store_path, target_dir: version.target_dir, session_file })
            },
        }
    }

    /// The plan of an unstow of `scope`: fails when the version's store is
    /// missing. A dry run counts the links it would remove; otherwise every
    /// link of a store file is removed and then the session is cleared. A walk
    /// that stopped early fails after the links found before it.
    pub fn unstow_plan(&self, scope: &UnstowScope, observed: &UnstowObservation, dry_run: bool) -> (r: Result<UnstowPlan, StowawayError>)
        ensures
            !observed.store_exists ==> (r matches Err(StowawayError::Store(m)) && m@ == missing_version_message(scope.hash@)),
            observed.store_exists && dry_run ==> match observed.walk_error {
                Some(m) => r == Err::<UnstowPlan, StowawayError>(StowawayError::WalkDir(m)),
                None => r matches Ok(p) && p.removals@.len() == 0 && p.failure is None && p.clear_session is None
                    && p.would_remove == linked_targets(scope.target_dir@, observed.entries@).len(),
            },
            observed.store_exists && !dry_run ==> (r matches Ok(p) && {
                &&& p.removals@.map_values(|s: String| s@) == linked_targets(scope.target_dir@, observed.entries@)
                &&& p.would_remove == 0
                &&& match observed.walk_error {
                    Some(m) => p.failure == Some(StowawayError::WalkDir(m)) && p.clear_session is None,
                    None => p.failure is None && p.clear_session == Some(scope.session_file),
                }
            }),
    {
        if !observed.store_exists {
            let mut m = concat("Store version ", scope.hash.as_str());
            m.append(" does not exist");
            proof {
                reveal_strlit("Store version ");
                reveal_strlit(" does not exist");
                assert(m@ =~= missing_version_message(scope.hash@));
            }
            return Err(StowawayError::Store(m));
        }
        if dry_run {
            let targets = self.remove_symlinks_for_store(scope, &observed.entries);
            return match &observed.walk_error {
                Some(m) => Err(StowawayError::WalkDir(m.clone())),
                None => Ok(UnstowPlan { removals: Vec::new(), would_remove: targets.len(), failure: None, clear_session: None }),
            };
        }
        let removals = self.remove_symlinks_for_store(scope, &observed.entries);
        match &observed.walk_error {
            Some(m) => Ok(UnstowPlan { removals, would_remove: 0, failure: Some(StowawayError::WalkDir(m.clone())), clear_session: None }),
            None => Ok(UnstowPlan { removals, would_remove: 0, failure: None, clear_session: Some(scope.session_file.clone()) }),
        }
    }

    /// The links to remove for the store entries: the target of every entry
    /// whose target is a link, in order.
    pub fn remove_symlinks_for_store(&self, scope: &UnstowScope, entries: &Vec<StoreEntry>) -> (r: Vec<String>)
        ensures
            r@.map_values(|s: String| s@) == linked_targets(scope.target_dir@, entries@),
    {
        let linker = FileSystemLinker;
        let mut r: Vec<String> = Vec::new();
        let mut i: usize = 0;
        while i < entries.len()
            invariant
                i <= entries.len(),
                r@.map_values(|s: String| s@) == linked_targets(scope.target_dir@, entries@.take(i as int)),
            decreases entries.len() - i,
        {
            let entry = &entries[i];
            proof {
                assert(entries@.take(i + 1).drop_last() =~= entries@.take(i as int));
                assert(entries@.take(i + 1).last() == entries@[i as int]);
            }
            if entry.target_is_symlink {
                let target = join_path(scope.target_dir.as_str(), entry.relative_path.as_str());
                match linker.remove_symlink(target.as_str(), entry.target_is_symlink) {
                    Ok(()) => {
                        let ghost before = r@;
                        r.push(target);
                        assert(r@.map_values(|s: String| s@) =~= before.map_values(|s: String| s@).push(target@));
                    },
                    Err(_) => {},
                }
            }
            i = i + 1;
        }
        assert(entries@.take(entries.len() as int) =~= entries@);
        r
    }
}

/// Every store entry whose target is a link has its target among the links
/// that unstow removes.
proof fn lemma_linked_targets_contains(target_dir: Seq<char>, entries: Seq<StoreEntry>, k: int)
    requires
        0 <= k < entries.len(),
        entries[k].target_is_symlink,
    ensures
        linked_targets(target_dir, entries).contains(join_spec(target_dir, entries[k].relative_path@)),
    decreases entries.len(),
{
    let init = entries.drop_last();
    let t = join_spec(target_dir, entries[k].relative_path@);
    if k == entries.len() - 1 {
        assert(entries.last() == entries[k]);
        let r = linked_targets(target_dir, entries);
        assert(r[r.len() - 1] == t);
    } else {
        assert(init[k] == entries[k]);
        lemma_linked_targets_contains(target_dir, init, k);
        let ri = linked_targets(target_dir, init);
        let j = choose|j: int| 0 <= j < ri.len() && ri[j] == t;
        let r = linked_targets(target_dir, entries);
        assert(r[j] == ri[j]);
    }
}

/// Unstowing removes every link that stowing created. The link phase makes,
/// for each linked file, a link at `target_dir` joined with the file's
/// relative path (where scanning placed it) into the version's directory;
/// when the walk of that directory finds an entry at each linked file's
/// relative path, and its target is still a link, every created link is
/// among the links that the unstow plan removes.
pub proof fn lemma_unstow_removes_stowed_links(
    target_dir: Seq<char>,
    files: Seq<FileEntry>,
    plan: LinkPlan,
    store_path: Seq<char>,
    targets: Seq<LinkTarget>,
    occupied: Seq<bool>,
    entries: Seq<StoreEntry>,
)
    requires
        links_as_created(plan, store_path, files, targets, occupied),
        forall|j: int| 0 <= j < files.len() ==> (#[trigger] files[j]).target_path@ == join_spec(target_dir, files[j].relative_path@),
        forall|j: int|
            0 <= j < plan.links@.len() ==> exists|k: int|
                0 <= k < entries.len() && (#[trigger] entries[k]).relative_path@ == (#[trigger] files[j]).relative_path@
                    && entries[k].target_is_symlink,
    ensures
        forall|j: int|
            0 <= j < plan.links@.len() ==> linked_targets(target_dir, entries).contains((#[trigger] plan.links@[j]).1@),
{
    assert forall|j: int| 0 <= j < plan.links@.len() implies linked_targets(target_dir, entries).contains(
        (#[trigger] plan.links@[j]).1@,
    ) by {
        assert(plan.links@[j].1@ == files[j].target_path@);
        let k = choose|k: int|
            0 <= k < entries.len() && (#[trigger] entries[k]).relative_path@ == (#[trigger] files[j]).relative_path@
                && entries[k].target_is_symlink;
        lemma_linked_targets_contains(target_dir, entries, k);
    }
}

} // verus!
