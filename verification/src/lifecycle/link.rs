//! The link phase: points each target path at its file in the store.
use vstd::prelude::*;

use crate::context::{OperationMode, StowawayContext};
use crate::error::StowawayError;
use crate::file_entry::FileEntry;
use crate::lifecycle::LifecyclePhase;
use crate::linking::{target_exists_message, FileSystemLinker, Linker};
use crate::paths::{join_path, join_spec, paths_equal, same_path};
use crate::store::{store_root_of, StoreLocation, no_home_message, FileSystemStoreManager, StoreManager, StoreVersion};
use crate::text::concat;
use crate::validation::PathState;

verus! {

/// What the caller observed for one file of the context.
pub struct LinkTarget {
    /// What the file system showed at the file's target path.
    pub state: PathState,
    /// Whether the file's store file exists.
    pub store_file_exists: bool,
}

/// What the caller observed for the link phase.
pub struct LinkObservation {
    /// Where the store lies.
    pub store: StoreLocation,
    /// The current time, in seconds since the Unix epoch.
    pub now: u64,
    /// One observation per file of the context, in order.
    pub targets: Vec<LinkTarget>,
}

/// What the caller must do, in this order: remove the listed paths, create
/// the listed links (creating missing parent directories of each link), then
/// report the failure if there is one, and otherwise record the version as
/// the current one.
pub struct LinkPlan {
    pub removals: Vec<String>,
    /// Pairs of store file and target path: the target becomes a link to the store file.
    pub links: Vec<(String, String)>,
    pub failure: Option<StowawayError>,
    pub session: Option<StoreVersion>,
}

impl LinkPlan {
    /// A plan that does nothing.
    pub fn nothing() -> (r: LinkPlan)
        ensures
            r.removals@.len() == 0,
            r.links@.len() == 0,
            r.failure is None,
            r.session is None,
    {
        LinkPlan { removals: Vec::new(), links: Vec::new(), failure: None, session: None }
    }
}

/// The message of a target that should be a link but is not.
pub open spec fn expected_symlink_message(target: Seq<char>) -> Seq<char> {
    "Expected symlink not found: "@ + target
}

/// The message of a link that points elsewhere than its store file.
pub open spec fn wrong_location_message(target: Seq<char>, current: Seq<char>, expected: Seq<char>) -> Seq<char> {
    "Symlink points to wrong location: "@ + target + " -> "@ + current + " (expected: "@ + expected + ")"@
}

/// The message of a store file that is missing.
pub open spec fn missing_store_file_message(store_file: Seq<char>) -> Seq<char> {
    "Store file does not exist: "@ + store_file
}

/// The directory of the store version with hash `hash` under the store root `root`.
pub open spec fn version_path(root: Seq<char>, hash: Seq<char>) -> Seq<char> {
    join_spec(join_spec(root, "store"@), hash)
}

/// The outcome of verifying the link of a file whose store file is `store_file`:
/// `None` when the target is a link to the same path (compared component by
/// component). A link whose target was not read is not verified.
pub open spec fn verify_failure(entry: FileEntry, store_file: Seq<char>, st: PathState) -> Option<StowawayError> {
    if !st.is_symlink {
        Some(StowawayError::Linking(arbitrary()))
    } else {
        match st.link {
            Some(Ok(t)) => if same_path(t@, store_file) { None } else { Some(StowawayError::Linking(arbitrary())) },
            Some(Err(m)) => Some(StowawayError::Io(m)),
            None => Some(StowawayError::Io(arbitrary())),
        }
    }
}

/// Whether verification fails on a file.
pub open spec fn verify_fails(entry: FileEntry, store_file: Seq<char>, st: PathState) -> bool {
    verify_failure(entry, store_file, st) is Some
}

/// No file before `k` fails verification.
pub open spec fn verified_before(files: Seq<FileEntry>, sp: Seq<char>, targets: Seq<LinkTarget>, k: int) -> bool {
    forall|j: int| 0 <= j < k ==> !verify_fails(files[j], join_spec(sp, files[j].relative_path@), #[trigger] targets[j].state)
}

/// `r` is the error of verifying file `k`, the first that fails.
pub open spec fn fails_verification_at(
    files: Seq<FileEntry>,
    sp: Seq<char>,
    targets: Seq<LinkTarget>,
    k: int,
    r: Result<LinkPlan, StowawayError>,
) -> bool {
    let st = targets[k].state;
    let e = files[k];
    let expected = join_spec(sp, e.relative_path@);
    &&& 0 <= k < targets.len()
    &&& verify_fails(e, expected, st)
    &&& verified_before(files, sp, targets, k)
    &&& !st.is_symlink ==> (r matches Err(StowawayError::Linking(m)) && m@ == expected_symlink_message(e.target_path@))
    &&& st.is_symlink ==> match st.link {
        Some(Err(m)) => r == Err::<LinkPlan, StowawayError>(StowawayError::Io(m)),
        Some(Ok(t)) => r matches Err(StowawayError::Linking(m)) && m@ == wrong_location_message(e.target_path@, t@, expected),
        None => false,
    }
}

/// `r` is the outcome of verifying that the target of every file is a link to
/// its file in the version directory `sp`: a plan that does nothing when all
/// are, and otherwise the error of the first that is not.
pub open spec fn verified_as(
    files: Seq<FileEntry>,
    sp: Seq<char>,
    targets: Seq<LinkTarget>,
    r: Result<LinkPlan, StowawayError>,
) -> bool {
    &&& verified_before(files, sp, targets, targets.len() as int) ==> (r matches Ok(p) && p.removals@.len() == 0
        && p.links@.len() == 0 && p.failure is None && p.session is None)
    &&& r is Err ==> exists|k: int| #[trigger] fails_verification_at(files, sp, targets, k, r)
    &&& r is Ok ==> verified_before(files, sp, targets, targets.len() as int)
}

/// A file's link is verified exactly when its target is a link, read, to the
/// same path as its store file.
pub proof fn lemma_verify_fails(entry: FileEntry, store_file: Seq<char>, st: PathState)
    ensures
        !verify_fails(entry, store_file, st) <==> (st.is_symlink && (st.link matches Some(Ok(t)) && same_path(
            t@,
            store_file,
        ))),
{
}

/// No file before `k` fails verification: every file at an index below `k`
/// has a link, read, to the same path as its store file in `sp`.
pub proof fn lemma_verified_before(files: Seq<FileEntry>, sp: Seq<char>, targets: Seq<LinkTarget>, k: int)
    ensures
        verified_before(files, sp, targets, k) <==> forall|j: int|
            0 <= j < k ==> {
                let st = #[trigger] targets[j].state;
                &&& st.is_symlink
                &&& st.link matches Some(Ok(t)) && same_path(t@, join_spec(sp, files[j].relative_path@))
            },
{
    if verified_before(files, sp, targets, k) {
        assert forall|j: int| 0 <= j < k implies {
            let st = #[trigger] targets[j].state;
            &&& st.is_symlink
            &&& st.link matches Some(Ok(t)) && same_path(t@, join_spec(sp, files[j].relative_path@))
        } by {
            lemma_verify_fails(files[j], join_spec(sp, files[j].relative_path@), targets[j].state);
        }
    }
    if forall|j: int|
        0 <= j < k ==> {
            let st = #[trigger] targets[j].state;
            &&& st.is_symlink
            &&& st.link matches Some(Ok(t)) && same_path(t@, join_spec(sp, files[j].relative_path@))
        } {
        assert forall|j: int| 0 <= j < k implies !verify_fails(files[j], join_spec(sp, files[j].relative_path@), #[trigger] targets[j].state) by {
            lemma_verify_fails(files[j], join_spec(sp, files[j].relative_path@), targets[j].state);
        }
    }
}

/// A target path that something occupies in create mode: anything at all,
/// including a broken link.
pub open spec fn occupied_for_create(st: PathState) -> bool {
    st.exists || st.is_symlink
}

/// A target path that is still occupied after replace mode removed every
/// existing target: only a broken link remains.
pub open spec fn occupied_after_removal(st: PathState) -> bool {
    !st.exists && st.is_symlink
}

/// Creating the link of a file fails: its store file is missing or its target is occupied.
pub open spec fn create_fails(t: LinkTarget, occupied: bool) -> bool {
    !t.store_file_exists || occupied
}

/// The plan's links and failure are those of creating the links of `files` in
/// order into the version directory `store_path`, stopping at the first file
/// that fails.
pub open spec fn links_as_created(
    plan: LinkPlan,
    store_path: Seq<char>,
    files: Seq<FileEntry>,
    targets: Seq<LinkTarget>,
    occupied: Seq<bool>,
) -> bool {
    let k = plan.links@.len();
    &&& k <= files.len()
    &&& forall|j: int|
        0 <= j < k ==> {
            &&& (#[trigger] plan.links@[j]).0@ == join_spec(store_path, files[j].relative_path@)
            &&& plan.links@[j].1@ == files[j].target_path@
            &&& !create_fails(targets[j], occupied[j])
        }
    &&& k < files.len() ==> {
        &&& create_fails(targets[k as int], occupied[k as int])
        &&& !targets[k as int].store_file_exists ==> (plan.failure matches Some(StowawayError::Store(m))
            && m@ == missing_store_file_message(join_spec(store_path, files[k as int].relative_path@)))
        &&& targets[k as int].store_file_exists ==> (plan.failure matches Some(StowawayError::Linking(m))
            && m@ == target_exists_message(files[k as int].target_path@))
        &&& plan.session is None
    }
    &&& k == files.len() ==> plan.failure is None
}

/// Links the context's files into the store.
pub struct LinkPhase;

impl LinkPhase {
    /// Checks that every target is a link to its store file, in order,
    /// failing at the first that is not.
    pub fn verify_symlinks(
        &self,
        context: &StowawayContext,
        linker: &FileSystemLinker,
        store_manager: &FileSystemStoreManager,
        targets: &Vec<LinkTarget>,
    ) -> (r: Result<LinkPlan, StowawayError>)
        requires
            targets.len() == context.files.len(),
            forall|i: int| 0 <= i < targets.len() ==> (#[trigger] targets@[i]).state.is_symlink
                == (targets@[i].state.link is Some),
        ensures
            context.store_hash is None ==> (r matches Err(StowawayError::Store(m)) && m@ == "No store hash available"@),
            context.store_hash matches Some(h) ==> verified_as(
                context.files@,
                version_path(store_manager.root(), h@),
                targets@,
                r,
            ),
            context.store_hash matches Some(h) ==> (r is Ok ==> forall|j: int|
                0 <= j < targets.len() ==> {
                    let st = #[trigger] targets@[j].state;
                    &&& st.is_symlink
                    &&& st.link matches Some(Ok(t)) && same_path(t@, join_spec(
                        version_path(store_manager.root(), h@),
                        context.files@[j].relative_path@,
                    ))
                }),
    {
        let store_hash = match &context.store_hash {
            Some(h) => h,
            None => {
                proof {
                    reveal_strlit("No store hash available");
                }
                return Err(StowawayError::Store("No store hash available".to_owned()));
            },
        };
        let store_path = store_manager.get_store_path(store_hash.as_str());
        proof {
            reveal_strlit("store");
        }
        let ghost sp = store_path@;
        let mut i: usize = 0;
        while i < context.files.len()
            invariant
                i <= context.files.len(),
                targets.len() == context.files.len(),
                store_path@ == sp,
                context.store_hash == Some(*store_hash),
                sp == version_path(store_manager.root(), store_hash@),
                forall|j: int| 0 <= j < targets.len() ==> (#[trigger] targets@[j]).state.is_symlink
                    == (targets@[j].state.link is Some),
                forall|j: int| 0 <= j < i ==> !verify_fails(context.files@[j], join_spec(sp, context.files@[j].relative_path@), #[trigger] targets@[j].state),
            decreases context.files.len() - i,
        {
            let entry = &context.files[i];
            let st = &targets[i].state;
            let store_file = join_path(store_path.as_str(), entry.relative_path.as_str());
            if !st.is_symlink {
                proof {
                    reveal_strlit("Expected symlink not found: ");
                }
                let r = Err(StowawayError::Linking(concat("Expected symlink not found: ", entry.target_path.as_str())));
                assert(fails_verification_at(context.files@, sp, targets@, i as int, r));
                return r;
            }
            match &st.link {
                Some(Ok(current)) => {
                    if !paths_equal(current.as_str(), store_file.as_str()) {
                        let mut m = concat("Symlink points to wrong location: ", entry.target_path.as_str());
                        m.append(" -> ");
                        m.append(current.as_str());
                        m.append(" (expected: ");
                        m.append(store_file.as_str());
                        m.append(")");
                        proof {
                            reveal_strlit("Symlink points to wrong location: ");
                            reveal_strlit(" -> ");
                            reveal_strlit(" (expected: ");
                            reveal_strlit(")");
                            assert(m@ =~= wrong_location_message(entry.target_path@, current@, store_file@));
                        }
                        let r = Err(StowawayError::Linking(m));
                        assert(fails_verification_at(context.files@, sp, targets@, i as int, r));
                        return r;
                    }
                },
                Some(Err(m)) => {
                    let r = Err(StowawayError::Io(m.clone()));
                    assert(fails_verification_at(context.files@, sp, targets@, i as int, r));
                    return r;
                },
                None => {
                    assert(targets@[i as int].state.is_symlink == (targets@[i as int].state.link is Some));
                },
            }
            i = i + 1;
        }
        Ok(LinkPlan::nothing())
    }

    /// Plans the links of every file into the store, in order, and records the
    /// version as current when all succeed. `occupied[i]` tells whether the
    /// target of file `i` will be taken when its link is created.
    pub fn create_symlinks(
        &self,
        context: &StowawayContext,
        linker: &FileSystemLinker,
        store_manager: &FileSystemStoreManager,
        targets: &Vec<LinkTarget>,
        occupied: &Vec<bool>,
        now: u64,
    ) -> (r: Result<LinkPlan, StowawayError>)
        requires
            targets.len() == context.files.len(),
            occupied.len() == context.files.len(),
        ensures
            context.store_hash is None ==> (r matches Err(StowawayError::Store(m)) && m@ == "No store hash available"@),
            context.store_hash matches Some(h) ==> (r matches Ok(plan) && {
                let sp = version_path(store_manager.root(), h@);
                &&& plan.removals@.len() == 0
                &&& links_as_created(plan, sp, context.files@, targets@, occupied@)
                &&& plan.links@.len() == context.files.len() ==> plan.session == Some(StoreVersion {
                    hash: h,
                    timestamp: now,
                    source_dir: context.source_dir,
                    target_dir: context.target_dir,
                })
            }),
    {
        let store_hash = match &context.store_hash {
            Some(h) => h,
            None => {
                proof {
                    reveal_strlit("No store hash available");
                }
                return Err(StowawayError::Store("No store hash available".to_owned()));
            },
        };
        let store_path = store_manager.get_store_path(store_hash.as_str());
        proof {
            reveal_strlit("store");
        }
        let ghost sp = store_path@;
        let mut plan = LinkPlan::nothing();
        let mut i: usize = 0;
        while i < context.files.len()
            invariant
                i <= context.files.len(),
                targets.len() == context.files.len(),
                occupied.len() == context.files.len(),
                store_path@ == sp,
                context.store_hash == Some(*store_hash),
                sp == version_path(store_manager.root(), store_hash@),
                plan.removals@.len() == 0,
                plan.links@.len() == i,
                plan.failure is None,
                plan.session is None,
                forall|j: int|
                    0 <= j < i ==> {
                        &&& (#[trigger] plan.links@[j]).0@ == join_spec(sp, context.files@[j].relative_path@)
                        &&& plan.links@[j].1@ == context.files@[j].target_path@
                        &&& !create_fails(targets@[j], occupied@[j])
                    },
            decreases context.files.len() - i,
        {
            let entry = &context.files[i];
            let store_file = join_path(store_path.as_str(), entry.relative_path.as_str());
            if !targets[i].store_file_exists {
                proof {
                    reveal_strlit("Store file does not exist: ");
                }
                plan.failure = Some(StowawayError::Store(concat("Store file does not exist: ", store_file.as_str())));
                return Ok(plan);
            }
            match linker.create_symlink(store_file.as_str(), entry.target_path.as_str(), occupied[i]) {
                Ok(()) => {},
                Err(e) => {
                    plan.failure = Some(e);
                    return Ok(plan);
                },
            }
            let ghost before = plan.links@;
            plan.links.push((store_file, entry.target_path.clone()));
            proof {
                assert forall|j: int| 0 <= j < i + 1 implies {
                    &&& (#[trigger] plan.links@[j]).0@ == join_spec(sp, context.files@[j].relative_path@)
                    &&& plan.links@[j].1@ == context.files@[j].target_path@
                    &&& !create_fails(targets@[j], occupied@[j])
                } by {
                    if j < i {
                        assert(plan.links@[j] == before[j]);
                    }
                }
            }
            i = i + 1;
        }
        plan.session = Some(StoreVersion {
            hash: store_hash.clone(),
            timestamp: now,
            source_dir: context.source_dir.clone(),
            target_dir: context.target_dir.clone(),
        });
        Ok(plan)
    }

    /// Plans the removal of every target that exists (following links), then
    /// the links of every file as in create mode.
    pub fn replace_symlinks(
        &self,
        context: &StowawayContext,
        linker: &FileSystemLinker,
        store_manager: &FileSystemStoreManager,
        targets: &Vec<LinkTarget>,
        now: u64,
    ) -> (r: Result<LinkPlan, StowawayError>)
        requires
            targets.len() == context.files.len(),
        ensures
            context.store_hash is None ==> (r matches Err(StowawayError::Store(m)) && m@ == "No store hash available"@),
            context.store_hash matches Some(h) ==> (r matches Ok(plan) && {
                let sp = version_path(store_manager.root(), h@);
                let occ = targets@.map_values(|t: LinkTarget| occupied_after_removal(t.state));
                &&& plan.removals@.map_values(|s: String| s@) == removed_targets(context.files@, targets@)
                &&& links_as_created(plan, sp, context.files@, targets@, occ)
                &&& plan.links@.len() == context.files.len() ==> plan.session == Some(StoreVersion {
                    hash: h,
                    timestamp: now,
                    source_dir: context.source_dir,
                    target_dir: context.target_dir,
                })
            }),
    {
        let mut removals: Vec<String> = Vec::new();
        let mut occupied: Vec<bool> = Vec::new();
        let mut i: usize = 0;
        while i < context.files.len()
            invariant
                i <= context.files.len(),
                targets.len() == context.files.len(),
                removals@.map_values(|s: String| s@) == removed_targets(context.files@.take(i as int), targets@.take(i as int)),
                occupied@ == targets@.take(i as int).map_values(|t: LinkTarget| occupied_after_removal(t.state)),
            decreases context.files.len() - i,
        {
            let st = &targets[i].state;
            let ghost before = removals@;
            if st.exists {
                removals.push(context.files[i].target_path.clone());
            }
            occupied.push(!st.exists && st.is_symlink);
            proof {
                let fs = context.files@.take(i + 1);
                let ts = targets@.take(i + 1);
                assert(fs.drop_last() =~= context.files@.take(i as int));
                assert(ts.drop_last() =~= targets@.take(i as int));
                assert(fs.last() == context.files@[i as int]);
                assert(ts.last() == targets@[i as int]);
                if st.exists {
                    assert(removals@.map_values(|s: String| s@) =~= before.map_values(|s: String| s@).push(context.files@[i as int].target_path@));
                } else {
                    assert(removals@ == before);
                }
                assert(occupied@ =~= targets@.take(i + 1).map_values(|t: LinkTarget| occupied_after_removal(t.state)));
            }
            i = i + 1;
        }
        assert(context.files@.take(context.files.len() as int) =~= context.files@);
        assert(targets@.take(context.files.len() as int) =~= targets@);
        match self.create_symlinks(context, linker, store_manager, targets, &occupied, now) {
            Ok(plan) => {
                let mut plan = plan;
                plan.removals = removals;
                Ok(plan)
            },
            Err(e) => Err(e),
        }
    }
}

/// The targets that replace mode removes: those that exist, in file order.
pub open spec fn removed_targets(files: Seq<FileEntry>, targets: Seq<LinkTarget>) -> Seq<Seq<char>>
    decreases files.len(),
{
    if files.len() == 0 || targets.len() == 0 {
        Seq::empty()
    } else {
        let init = removed_targets(files.drop_last(), targets.drop_last());
        if targets.last().state.exists {
            init.push(files.last().target_path@)
        } else {
            init
        }
    }
}

impl LifecyclePhase for LinkPhase {
    type Observation = LinkObservation;

    type Outcome = LinkPlan;

    open spec fn accepts(&self, context: &StowawayContext, observed: &LinkObservation) -> bool {
        &&& observed.targets.len() == context.files.len()
        &&& forall|i: int| 0 <= i < observed.targets.len() ==> (#[trigger] observed.targets@[i]).state.is_symlink
            == (observed.targets@[i].state.link is Some)
    }

    /// Fails when the store's location is unknown. A dry run does nothing.
    /// Otherwise verify mode checks the existing links, create mode creates
    /// them, and replace mode removes the existing targets before creating them.
    fn execute(&self, context: &mut StowawayContext, observed: LinkObservation) -> (r: Result<LinkPlan, StowawayError>)
        ensures
            *final(context) == *old(context),
            store_root_of(observed.store) is None ==> (r matches Err(StowawayError::Store(m)) && m@ == no_home_message()),
            store_root_of(observed.store) is Some && old(context).dry_run ==> (r matches Ok(p) && p.removals@.len() == 0
                && p.links@.len() == 0 && p.failure is None && p.session is None),
            store_root_of(observed.store) matches Some(root) ==> !old(context).dry_run ==> {
                match old(context).store_hash {
                    None => r matches Err(StowawayError::Store(m)) && m@ == "No store hash available"@,
                    Some(h) => {
                        let sp = version_path(root, h@);
                        let files = old(context).files@;
                        let targets = observed.targets@;
                        match old(context).operation_mode {
                            OperationMode::Verify => verified_as(files, sp, targets, r) && (r is Ok ==> forall|j: int|
                                0 <= j < targets.len() ==> {
                                    let st = #[trigger] targets[j].state;
                                    &&& st.is_symlink
                                    &&& st.link matches Some(Ok(t)) && same_path(t@, join_spec(sp, files[j].relative_path@))
                                }),
                            OperationMode::Create => r matches Ok(plan) && {
                                &&& plan.removals@.len() == 0
                                &&& links_as_created(plan, sp, files, targets, targets.map_values(|t: LinkTarget| occupied_for_create(t.state)))
                                &&& plan.links@.len() == files.len() ==> plan.session == Some(StoreVersion {
                                    hash: h, timestamp: observed.now, source_dir: old(context).source_dir, target_dir: old(context).target_dir,
                                })
                            },
                            OperationMode::Replace => r matches Ok(plan) && {
                                &&& plan.removals@.map_values(|s: String| s@) == removed_targets(files, targets)
                                &&& links_as_created(plan, sp, files, targets, targets.map_values(|t: LinkTarget| occupied_after_removal(t.state)))
                                &&& plan.links@.len() == files.len() ==> plan.session == Some(StoreVersion {
                                    hash: h, timestamp: observed.now, source_dir: old(context).source_dir, target_dir: old(context).target_dir,
                                })
                            },
                        }
                    },
                }
            },
    {
        let linker = FileSystemLinker;
        let store_manager = match FileSystemStoreManager::new(observed.store) {
            Ok(m) => m,
            Err(e) => return Err(e),
        };
        if context.dry_run {
            return Ok(LinkPlan::nothing());
        }
        match context.operation_mode {
            OperationMode::Verify => self.verify_symlinks(context, &linker, &store_manager, &observed.targets),
            OperationMode::Create => {
                let mut occupied: Vec<bool> = Vec::new();
                let mut i: usize = 0;
                while i < observed.targets.len()
                    invariant
                        i <= observed.targets.len(),
                        occupied@ == observed.targets@.take(i as int).map_values(|t: LinkTarget| occupied_for_create(t.state)),
                    decreases observed.targets.len() - i,
                {
                    let st = &observed.targets[i].state;
                    occupied.push(st.exists || st.is_symlink);
                    assert(occupied@ =~= observed.targets@.take(i + 1).map_values(|t: LinkTarget| occupied_for_create(t.state)));
                    i = i + 1;
                }
                assert(observed.targets@.take(observed.targets.len() as int) =~= observed.targets@);
                self.create_symlinks(context, &linker, &store_manager, &observed.targets, &occupied, observed.now)
            },
            OperationMode::Replace => self.replace_symlinks(context, &linker, &store_manager, &observed.targets, observed.now),
        }
    }
}

} // verus!
