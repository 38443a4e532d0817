//! The context phase: computes the content hash of the source tree and
//! decides, against the current version, how the store and links are updated.
use vstd::prelude::*;

use crate::context::{OperationMode, StowawayContext};
use crate::error::StowawayError;
use crate::lifecycle::LifecyclePhase;
use crate::store::{store_root_of, StoreLocation, calculate_content_hash, content_hash, no_home_message, session_parse_message, FileSystemStoreManager, SessionFile,
    StoreVersion,};
use crate::text::str_eq;
use crate::utils::{is_member, member_of};

verus! {

/// A regular file found under the source root, with what reading it as text gave.
pub struct SourceRead {
    /// The path relative to the source root.
    pub relative_path: String,
    /// The content, or the operating system's message.
    pub content: Result<String, String>,
}

/// What the caller observed for the context phase.
pub struct ContextObservation {
    /// Where the store lies.
    pub store: StoreLocation,
    /// What reading `stowaway.yaml` at the source root gave; `None` when there is no such file.
    pub config_content: Option<Result<String, String>>,
    /// The regular files under the source root, in the order of the walk.
    pub walked: Vec<SourceRead>,
    /// The walk's failure, if it stopped early.
    pub walk_error: Option<String>,
    /// What reading the session file gave.
    pub session: SessionFile,
}

/// Whether the file at `rel` contributes to the content hash: every file but
/// the configuration file that the include patterns admit (all files when
/// there are none) and no exclude pattern matches.
pub open spec fn hash_selected(inclusions: Seq<Seq<char>>, exclusions: Seq<Seq<char>>, rel: Seq<char>) -> bool {
    &&& rel != "stowaway.yaml"@
    &&& inclusions.len() == 0 || member_of(inclusions, rel)
    &&& !member_of(exclusions, rel)
}

/// The contents of the selected files concatenated in walk order, or the
/// message of the first selected file that could not be read.
pub open spec fn gathered(inclusions: Seq<Seq<char>>, exclusions: Seq<Seq<char>>, walked: Seq<SourceRead>) -> Result<Seq<char>, String>
    decreases walked.len(),
{
    if walked.len() == 0 {
        Ok(Seq::empty())
    } else {
        match gathered(inclusions, exclusions, walked.drop_last()) {
            Err(m) => Err(m),
            Ok(t) => if hash_selected(inclusions, exclusions, walked.last().relative_path@) {
                match walked.last().content {
                    Ok(c) => Ok(t + c@),
                    Err(m) => Err(m),
                }
            } else {
                Ok(t)
            },
        }
    }
}

/// The text whose hash identifies the source tree, or why it cannot be had:
/// the configuration file first (when there is one), then the selected files.
pub open spec fn hashed_text(
    inclusions: Seq<Seq<char>>,
    exclusions: Seq<Seq<char>>,
    config_content: Option<Result<String, String>>,
    walked: Seq<SourceRead>,
    walk_error: Option<String>,
) -> Result<Seq<char>, StowawayError> {
    match config_content {
        Some(Err(m)) => Err(StowawayError::Io(m)),
        _ => {
            let config_text = match config_content {
                Some(Ok(c)) => c@,
                _ => Seq::empty(),
            };
            match gathered(inclusions, exclusions, walked) {
                Err(m) => Err(StowawayError::Io(m)),
                Ok(t) => match walk_error {
                    Some(m) => Err(StowawayError::WalkDir(m)),
                    None => Ok(config_text + t),
                },
            }
        },
    }
}

/// Determines the operation mode.
pub struct ContextPhase;

impl ContextPhase {
    /// The include patterns of the context, as text.
    pub open spec fn inclusions(context: &StowawayContext) -> Seq<Seq<char>> {
        context.config.interpolation.include_patterns@.map_values(|s: String| s@)
    }

    /// The exclude patterns of the context, as text.
    pub open spec fn exclusions(context: &StowawayContext) -> Seq<Seq<char>> {
        context.config.interpolation.exclude_patterns@.map_values(|s: String| s@)
    }

    /// The content hash of the source tree: the hash of `hashed_text`.
    /// Patterns that do not compile select nothing.
    pub fn calculate_source_hash(
        &self,
        context: &StowawayContext,
        config_content: &Option<Result<String, String>>,
        walked: &Vec<SourceRead>,
        walk_error: &Option<String>,
    ) -> (r: Result<String, StowawayError>)
        ensures
            match hashed_text(
                ContextPhase::inclusions(context),
                ContextPhase::exclusions(context),
                *config_content,
                walked@,
                *walk_error,
            ) {
                Ok(t) => r matches Ok(h) && h@ == content_hash(t),
                Err(e) => r == Err::<String, StowawayError>(e),
            },
    {
        let ghost inc = ContextPhase::inclusions(context);
        let ghost exc = ContextPhase::exclusions(context);
        let mut all_content = String::new();
        match config_content {
            Some(Err(m)) => return Err(StowawayError::Io(m.clone())),
            Some(Ok(c)) => all_content.append(c.as_str()),
            None => {},
        }
        let ghost config_text = all_content@;
        let mut i: usize = 0;
        while i < walked.len()
            invariant
                i <= walked.len(),
                inc == ContextPhase::inclusions(context),
                exc == ContextPhase::exclusions(context),
                !(*config_content matches Some(Err(_))),
                gathered(inc, exc, walked@.take(i as int)) matches Ok(t) && all_content@ == config_text + t,
            decreases walked.len() - i,
        {
            let entry = &walked[i];
            proof {
                reveal_strlit("stowaway.yaml");
                let t = walked@.take(i + 1);
                assert(t.drop_last() =~= walked@.take(i as int));
                assert(t.last() == walked@[i as int]);
            }
            let is_config = str_eq(entry.relative_path.as_str(), crate::config::STOWAWAY_CONFIG);
            if !is_config {
                let should_include = if context.config.interpolation.include_patterns.len() == 0 {
                    true
                } else {
                    is_member(&context.config.interpolation.include_patterns, entry.relative_path.as_str())
                };
                let should_exclude = is_member(&context.config.interpolation.exclude_patterns, entry.relative_path.as_str());
                if should_include && !should_exclude {
                    match &entry.content {
                        Ok(c) => {
                            let ghost before = all_content@;
                            all_content.append(c.as_str());
                            assert(all_content@ =~= before + c@);
                        },
                        Err(m) => {
                            assert(gathered(inc, exc, walked@.take(i + 1)) == Err::<Seq<char>, String>(*m));
                            proof {
                                lemma_gathered_err_persists(inc, exc, walked@, (i + 1) as int);
                                assert(!(*config_content matches Some(Err(_))));
                                assert(gathered(inc, exc, walked@) == Err::<Seq<char>, String>(*m));
                                assert(hashed_text(inc, exc, *config_content, walked@, *walk_error)
                                    == Err::<Seq<char>, StowawayError>(StowawayError::Io(*m)));
                            }
                            let mc = m.clone();
                            return Err(StowawayError::Io(mc));
                        },
                    }
                }
            }
            i = i + 1;
        }
        assert(walked@.take(walked.len() as int) =~= walked@);
        match walk_error {
            Some(m) => Err(StowawayError::WalkDir(m.clone())),
            None => Ok(calculate_content_hash(all_content.as_str())),
        }
    }
}

/// Once gathering fails on a prefix of the walk, it fails the same way on the whole walk.
proof fn lemma_gathered_err_persists(inclusions: Seq<Seq<char>>, exclusions: Seq<Seq<char>>, walked: Seq<SourceRead>, n: int)
    requires
        0 <= n <= walked.len(),
        gathered(inclusions, exclusions, walked.take(n)) is Err,
    ensures
        gathered(inclusions, exclusions, walked) == gathered(inclusions, exclusions, walked.take(n)),
    decreases walked.len() - n,
{
    if n < walked.len() {
        assert(walked.take(n + 1).drop_last() =~= walked.take(n));
        lemma_gathered_err_persists(inclusions, exclusions, walked, n + 1);
    } else {
        assert(walked.take(n) =~= walked);
    }
}

/// The configuration file always counts, whatever the patterns say: the
/// hashed text starts with its content, and a file named `stowaway.yaml` in
/// the walk is never counted a second time.
pub proof fn lemma_config_always_hashed_first(
    inclusions: Seq<Seq<char>>,
    exclusions: Seq<Seq<char>>,
    config: String,
    walked: Seq<SourceRead>,
    walk_error: Option<String>,
)
    ensures
        hashed_text(inclusions, exclusions, Some(Ok(config)), walked, walk_error) matches Ok(t)
            ==> config@.is_prefix_of(t),
        !hash_selected(inclusions, exclusions, "stowaway.yaml"@),
{
    if let Ok(t) = hashed_text(inclusions, exclusions, Some(Ok(config)), walked, walk_error) {
        if let Ok(g) = gathered(inclusions, exclusions, walked) {
            assert(t == config@ + g);
            assert(t.subrange(0, config@.len() as int) =~= config@);
        }
    }
}

/// A change of the configuration file changes the hashed text, whatever the
/// patterns and the other files: the two texts are both had or both not, and
/// differ when had.
pub proof fn lemma_config_change_changes_hashed_text(
    inclusions: Seq<Seq<char>>,
    exclusions: Seq<Seq<char>>,
    config1: String,
    config2: String,
    walked: Seq<SourceRead>,
    walk_error: Option<String>,
)
    requires
        config1@ != config2@,
    ensures
        hashed_text(inclusions, exclusions, Some(Ok(config1)), walked, walk_error) is Ok
            <==> hashed_text(inclusions, exclusions, Some(Ok(config2)), walked, walk_error) is Ok,
        hashed_text(inclusions, exclusions, Some(Ok(config1)), walked, walk_error) matches Ok(t1)
            ==> (hashed_text(inclusions, exclusions, Some(Ok(config2)), walked, walk_error) matches Ok(t2)
            && t1 != t2),
{
    let h1 = hashed_text(inclusions, exclusions, Some(Ok(config1)), walked, walk_error);
    let h2 = hashed_text(inclusions, exclusions, Some(Ok(config2)), walked, walk_error);
    if let Ok(t1) = h1 {
        if let Ok(g) = gathered(inclusions, exclusions, walked) {
            let t2 = config2@ + g;
            assert(t1 == config1@ + g);
            assert(h2 == Ok::<Seq<char>, StowawayError>(t2));
            if t1 == t2 {
                assert(config1@.len() == config2@.len());
                assert(t1.subrange(0, config1@.len() as int) =~= config1@);
                assert(t2.subrange(0, config2@.len() as int) =~= config2@);
            }
        }
    }
}

/// Files that the patterns leave out do not count: two walks that list the
/// same paths in the same order, and read the same wherever a path is
/// selected, give the same hashed text.
pub proof fn lemma_hash_ignores_unselected_files(
    inclusions: Seq<Seq<char>>,
    exclusions: Seq<Seq<char>>,
    config_content: Option<Result<String, String>>,
    walked1: Seq<SourceRead>,
    walked2: Seq<SourceRead>,
    walk_error: Option<String>,
)
    requires
        walked1.len() == walked2.len(),
        forall|i: int| 0 <= i < walked1.len() ==> (#[trigger] walked1[i]).relative_path@ == walked2[i].relative_path@,
        forall|i: int|
            0 <= i < walked1.len() && hash_selected(inclusions, exclusions, (#[trigger] walked1[i]).relative_path@)
                ==> walked1[i].content == walked2[i].content,
    ensures
        hashed_text(inclusions, exclusions, config_content, walked1, walk_error) == hashed_text(
            inclusions,
            exclusions,
            config_content,
            walked2,
            walk_error,
        ),
{
    lemma_gathered_ignores_unselected(inclusions, exclusions, walked1, walked2);
}

/// Gathering reads only the selected files.
proof fn lemma_gathered_ignores_unselected(
    inclusions: Seq<Seq<char>>,
    exclusions: Seq<Seq<char>>,
    walked1: Seq<SourceRead>,
    walked2: Seq<SourceRead>,
)
    requires
        walked1.len() == walked2.len(),
        forall|i: int| 0 <= i < walked1.len() ==> (#[trigger] walked1[i]).relative_path@ == walked2[i].relative_path@,
        forall|i: int|
            0 <= i < walked1.len() && hash_selected(inclusions, exclusions, (#[trigger] walked1[i]).relative_path@)
                ==> walked1[i].content == walked2[i].content,
    ensures
        gathered(inclusions, exclusions, walked1) == gathered(inclusions, exclusions, walked2),
    decreases walked1.len(),
{
    if walked1.len() > 0 {
        let i1 = walked1.drop_last();
        let i2 = walked2.drop_last();
        assert forall|i: int| 0 <= i < i1.len() implies (#[trigger] i1[i]).relative_path@ == i2[i].relative_path@ by {
            assert(i1[i] == walked1[i] && i2[i] == walked2[i]);
        }
        assert forall|i: int|
            0 <= i < i1.len() && hash_selected(inclusions, exclusions, (#[trigger] i1[i]).relative_path@)
                implies i1[i].content == i2[i].content by {
            assert(i1[i] == walked1[i] && i2[i] == walked2[i]);
        }
        lemma_gathered_ignores_unselected(inclusions, exclusions, i1, i2);
        let n = walked1.len() - 1;
        assert(walked1.last() == walked1[n] && walked2.last() == walked2[n]);
    }
}

/// Which files count toward the content hash: never the configuration file
/// (it is hashed first, on its own) nor a file that an exclude pattern
/// matches; with no include patterns every other file counts, and with some,
/// exactly the other files that one of them matches.
pub proof fn lemma_hash_selection(inclusions: Seq<Seq<char>>, exclusions: Seq<Seq<char>>, rel: Seq<char>)
    ensures
        rel == "stowaway.yaml"@ ==> !hash_selected(inclusions, exclusions, rel),
        member_of(exclusions, rel) ==> !hash_selected(inclusions, exclusions, rel),
        inclusions.len() == 0 && rel != "stowaway.yaml"@ && !member_of(exclusions, rel) ==> hash_selected(
            inclusions,
            exclusions,
            rel,
        ),
        inclusions.len() > 0 ==> (hash_selected(inclusions, exclusions, rel) <==> (rel != "stowaway.yaml"@
            && member_of(inclusions, rel) && !member_of(exclusions, rel))),
{
}

/// The hashed files are read in walk order: a further file that counts and
/// reads adds its content at the end, one that does not count adds nothing,
/// and one that counts but cannot be read makes gathering fail with its message.
pub proof fn lemma_gathered_step(
    inclusions: Seq<Seq<char>>,
    exclusions: Seq<Seq<char>>,
    walked: Seq<SourceRead>,
    f: SourceRead,
)
    ensures
        gathered(inclusions, exclusions, walked) matches Ok(t) ==> {
            let next = gathered(inclusions, exclusions, walked.push(f));
            &&& !hash_selected(inclusions, exclusions, f.relative_path@) ==> next == Ok::<Seq<char>, String>(t)
            &&& hash_selected(inclusions, exclusions, f.relative_path@) ==> match f.content {
                Ok(c) => next == Ok::<Seq<char>, String>(t + c@),
                Err(m) => next == Err::<Seq<char>, String>(m),
            }
        },
        gathered(inclusions, exclusions, walked) is Err ==> gathered(inclusions, exclusions, walked.push(f))
            == gathered(inclusions, exclusions, walked),
{
    assert(walked.push(f).drop_last() =~= walked);
    assert(walked.push(f).last() == f);
}

/// The mode that the comparison of the content hash with the current version gives.
pub open spec fn decided_mode(hash: Seq<char>, current: Option<StoreVersion>) -> OperationMode {
    match current {
        None => OperationMode::Create,
        Some(v) => if v.hash@ == hash { OperationMode::Verify } else { OperationMode::Replace },
    }
}

impl LifecyclePhase for ContextPhase {
    type Observation = ContextObservation;

    type Outcome = ();

    open spec fn accepts(&self, context: &StowawayContext, observed: &ContextObservation) -> bool {
        true
    }

    /// Fails when the store's location is unknown, when the content hash cannot
    /// be computed, or when the session file cannot be read. Otherwise the
    /// mode is `decided_mode`: unchanged content keeps the current version
    /// (its hash becomes the store hash), changed content or a new
    /// installation gets the content hash as the hash of the version to create.
    fn execute(&self, context: &mut StowawayContext, observed: ContextObservation) -> (r: Result<(), StowawayError>)
        ensures
            final(context).config == old(context).config,
            final(context).source_dir == old(context).source_dir,
            final(context).target_dir == old(context).target_dir,
            final(context).dry_run == old(context).dry_run,
            final(context).files == old(context).files,
            store_root_of(observed.store) is None ==> (r matches Err(StowawayError::Store(m)) && m@ == no_home_message() && *final(context) == *old(context)),
            store_root_of(observed.store) is Some ==> match hashed_text(
                ContextPhase::inclusions(old(context)),
                ContextPhase::exclusions(old(context)),
                observed.config_content,
                observed.walked@,
                observed.walk_error,
            ) {
                Err(e) => r == Err::<(), StowawayError>(e) && *final(context) == *old(context),
                Ok(t) => match observed.session {
                    SessionFile::Unreadable(m) => r == Err::<(), StowawayError>(StowawayError::Io(m)) && *final(context) == *old(context),
                    SessionFile::Malformed(d) => (r matches Err(StowawayError::Store(m)) && m@ == session_parse_message(d@))
                        && *final(context) == *old(context),
                    SessionFile::Missing => {
                        &&& r is Ok
                        &&& final(context).operation_mode == OperationMode::Create
                        &&& final(context).target_hash matches Some(h) && h@ == content_hash(t)
                        &&& final(context).store_hash == old(context).store_hash
                        &&& final(context).current_version == old(context).current_version
                    },
                    SessionFile::Parsed(v) => {
                        &&& r is Ok
                        &&& final(context).operation_mode == decided_mode(content_hash(t), Some(v))
                        &&& final(context).current_version == Some(v)
                        &&& decided_mode(content_hash(t), Some(v)) == OperationMode::Verify ==> (
                            final(context).store_hash matches Some(h) && h@ == content_hash(t)
                            && final(context).target_hash == old(context).target_hash)
                        &&& decided_mode(content_hash(t), Some(v)) == OperationMode::Replace ==> (
                            final(context).target_hash matches Some(h) && h@ == content_hash(t)
                            && final(context).store_hash == old(context).store_hash)
                    },
                },
            },
    {
        let store_manager = match FileSystemStoreManager::new(observed.store) {
            Ok(m) => m,
            Err(e) => return Err(e),
        };
        let content_hash = match self.calculate_source_hash(context, &observed.config_content, &observed.walked, &observed.walk_error) {
            Ok(h) => h,
            Err(e) => return Err(e),
        };
        let current_version = match store_manager.get_current_version(observed.session) {
            Ok(v) => v,
            Err(e) => return Err(e),
        };
        match current_version {
            Some(current) => {
                if str_eq(current.hash.as_str(), content_hash.as_str()) {
                    context.operation_mode = OperationMode::Verify;
                    context.store_hash = Some(content_hash);
                    context.current_version = Some(current);
                } else {
                    context.operation_mode = OperationMode::Replace;
                    context.current_version = Some(current);
                    context.target_hash = Some(content_hash);
                }
            },
            None => {
                context.operation_mode = OperationMode::Create;
                context.target_hash = Some(content_hash);
            },
        }
        Ok(())
    }
}

} // verus!
