//! The scan phase: selects the files of the source tree and decides where
//! each goes and whether it is interpolated.
use vstd::prelude::*;

use crate::context::StowawayContext;
use crate::error::{GlobError, StowawayError};
use crate::file_entry::{entries_view, FileEntry, FileEntryView};
use crate::lifecycle::LifecyclePhase;
use crate::paths::{join_path, join_spec};
use crate::pattern::{glob_compile_error, glob_matches, glob_pattern_valid, GlobPattern};

verus! {

/// The regular files found under the source root, as paths relative to it in
/// the order of the walk, and the walk's failure if it stopped early.
pub struct ScanObservation {
    pub files: Vec<String>,
    pub walk_error: Option<String>,
}

/// Some pattern of `patterns` matches `candidate`.
pub open spec fn any_matches(patterns: Seq<Seq<char>>, candidate: Seq<char>) -> bool {
    exists|i: int| 0 <= i < patterns.len() && glob_matches(#[trigger] patterns[i], candidate)
}

/// A list of patterns matches a candidate exactly when one of its patterns,
/// wherever it stands in the list, matches it.
pub proof fn lemma_any_matches(patterns: Seq<Seq<char>>, candidate: Seq<char>)
    ensures
        forall|i: int| 0 <= i < patterns.len() && glob_matches(#[trigger] patterns[i], candidate) ==> any_matches(
            patterns,
            candidate,
        ),
        !any_matches(patterns, candidate) ==> forall|i: int| 0 <= i < patterns.len() ==> !glob_matches(
            #[trigger] patterns[i],
            candidate,
        ),
        patterns.len() == 0 ==> !any_matches(patterns, candidate),
{
}

/// Adding a pattern to a list adds what it matches to what the list matches.
pub proof fn lemma_any_matches_push(patterns: Seq<Seq<char>>, p: Seq<char>, candidate: Seq<char>)
    ensures
        any_matches(patterns.push(p), candidate) <==> (any_matches(patterns, candidate) || glob_matches(p, candidate)),
{
    let q = patterns.push(p);
    if any_matches(patterns, candidate) {
        let i = choose|i: int| 0 <= i < patterns.len() && glob_matches(#[trigger] patterns[i], candidate);
        assert(q[i] == patterns[i]);
    }
    if glob_matches(p, candidate) {
        assert(q[patterns.len() as int] == p);
    }
    if any_matches(q, candidate) {
        let i = choose|i: int| 0 <= i < q.len() && glob_matches(#[trigger] q[i], candidate);
        if i < patterns.len() {
            assert(q[i] == patterns[i]);
        }
    }
}

/// Every pattern of `patterns` compiles.
pub open spec fn all_valid(patterns: Seq<Seq<char>>) -> bool {
    forall|i: int| 0 <= i < patterns.len() ==> glob_pattern_valid(#[trigger] patterns[i])
}

/// The entry for the file at `rel`.
pub open spec fn scan_entry(
    source_dir: Seq<char>,
    target_dir: Seq<char>,
    inclusions: Seq<Seq<char>>,
    rel: Seq<char>,
) -> FileEntryView {
    FileEntryView {
        source_path: join_spec(source_dir, rel),
        relative_path: rel,
        target_path: join_spec(target_dir, rel),
        should_interpolate: any_matches(inclusions, rel),
    }
}

/// The entries of the files at `rels` that no exclusions pattern matches, in order.
pub open spec fn scanned(
    source_dir: Seq<char>,
    target_dir: Seq<char>,
    inclusions: Seq<Seq<char>>,
    exclusions: Seq<Seq<char>>,
    rels: Seq<Seq<char>>,
) -> Seq<FileEntryView>
    decreases rels.len(),
{
    if rels.len() == 0 {
        Seq::empty()
    } else {
        let init = scanned(source_dir, target_dir, inclusions, exclusions, rels.drop_last());
        if any_matches(exclusions, rels.last()) {
            init
        } else {
            init.push(scan_entry(source_dir, target_dir, inclusions, rels.last()))
        }
    }
}

/// The error of the first pattern of `patterns` that does not compile, if any.
pub open spec fn first_glob_error(patterns: Seq<Seq<char>>) -> Option<(usize, Seq<char>)>
    decreases patterns.len(),
{
    if patterns.len() == 0 {
        None
    } else {
        match first_glob_error(patterns.drop_last()) {
            Some(e) => Some(e),
            None => glob_compile_error(patterns.last()),
        }
    }
}

/// There is a first error exactly when some pattern does not compile.
pub proof fn lemma_first_glob_error(patterns: Seq<Seq<char>>)
    ensures
        first_glob_error(patterns) is None <==> all_valid(patterns),
    decreases patterns.len(),
{
    if patterns.len() > 0 {
        let init = patterns.drop_last();
        lemma_first_glob_error(init);
        if all_valid(patterns) {
            assert forall|i: int| 0 <= i < init.len() implies glob_pattern_valid(#[trigger] init[i]) by {
                assert(init[i] == patterns[i]);
            }
            assert(glob_pattern_valid(patterns[patterns.len() - 1]));
        }
        if first_glob_error(patterns) is None {
            assert forall|i: int| 0 <= i < patterns.len() implies glob_pattern_valid(#[trigger] patterns[i]) by {
                if i < patterns.len() - 1 {
                    assert(init[i] == patterns[i]);
                }
            }
        }
    }
}

/// Once a prefix has an error, the whole list has that same first error.
proof fn lemma_first_glob_error_persists(patterns: Seq<Seq<char>>, n: int)
    requires
        0 <= n <= patterns.len(),
        first_glob_error(patterns.take(n)) is Some,
    ensures
        first_glob_error(patterns) == first_glob_error(patterns.take(n)),
    decreases patterns.len() - n,
{
    if n < patterns.len() {
        assert(patterns.take(n + 1).drop_last() =~= patterns.take(n));
        lemma_first_glob_error_persists(patterns, n + 1);
    } else {
        assert(patterns.take(n) =~= patterns);
    }
}

/// Compiles each pattern, stopping at the first that does not compile.
fn compile_all(patterns: &Vec<String>) -> (r: Result<Vec<GlobPattern>, GlobError>)
    ensures
        r is Ok <==> all_valid(patterns@.map_values(|s: String| s@)),
        r matches Err(e) ==> first_glob_error(patterns@.map_values(|s: String| s@)) == Some((e.pos, e.msg@)),
        r matches Ok(ps) ==> ps@.map_values(|p: GlobPattern| p@) == patterns@.map_values(
            |s: String| s@,
        ),
{
    let ghost pats = patterns@.map_values(|s: String| s@);
    proof {
        lemma_first_glob_error(pats);
    }
    let mut out: Vec<GlobPattern> = Vec::new();
    let mut i: usize = 0;
    while i < patterns.len()
        invariant
            i <= patterns.len(),
            pats == patterns@.map_values(|s: String| s@),
            out@.map_values(|p: GlobPattern| p@) == pats.take(i as int),
            first_glob_error(pats.take(i as int)) is None,
            first_glob_error(pats) is None <==> all_valid(pats),
        decreases patterns.len() - i,
    {
        assert(pats[i as int] == patterns@[i as int]@);
        proof {
            assert(pats.take(i + 1).drop_last() =~= pats.take(i as int));
            assert(pats.take(i + 1).last() == pats[i as int]);
        }
        match GlobPattern::new(patterns[i].as_str()) {
            Ok(p) => {
                let ghost before = out@;
                out.push(p);
                proof {
                    assert(out@ == before.push(p));
                    assert(out@.map_values(|p: GlobPattern| p@) =~= before.map_values(
                        |p: GlobPattern| p@,
                    ).push(p@));
                    assert(pats.take(i + 1) =~= pats.take(i as int).push(pats[i as int]));
                }
            },
            Err(e) => {
                proof {
                    lemma_first_glob_error_persists(pats, i + 1);
                }
                return Err(e);
            },
        }
        i = i + 1;
    }
    assert(pats.take(patterns.len() as int) =~= pats);
    Ok(out)
}

/// Whether some compiled pattern matches `candidate`.
fn any_compiled_matches(patterns: &Vec<GlobPattern>, candidate: &str) -> (r: bool)
    ensures
        r == any_matches(patterns@.map_values(|p: GlobPattern| p@), candidate@),
{
    let ghost pats = patterns@.map_values(|p: GlobPattern| p@);
    let mut i: usize = 0;
    while i < patterns.len()
        invariant
            i <= patterns.len(),
            pats == patterns@.map_values(|p: GlobPattern| p@),
            forall|k: int| 0 <= k < i ==> !glob_matches(#[trigger] pats[k], candidate@),
        decreases patterns.len() - i,
    {
        if patterns[i].matches(candidate) {
            assert(glob_matches(pats[i as int], candidate@));
            return true;
        }
        i = i + 1;
    }
    false
}

/// Collects the files of the source tree.
pub struct ScanPhase;

impl ScanPhase {
    /// The inclusions patterns of the context, as text.
    pub open spec fn includes(context: &StowawayContext) -> Seq<Seq<char>> {
        context.config.interpolation.include_patterns@.map_values(|s: String| s@)
    }

    /// The exclusions patterns of the context, as text.
    pub open spec fn excludes(context: &StowawayContext) -> Seq<Seq<char>> {
        context.config.interpolation.exclude_patterns@.map_values(|s: String| s@)
    }
}

impl LifecyclePhase for ScanPhase {
    type Observation = ScanObservation;

    type Outcome = ();

    open spec fn accepts(&self, context: &StowawayContext, observed: &ScanObservation) -> bool {
        true
    }

    /// Fails on the first pattern that does not compile (include patterns
    /// first, then exclude patterns), before looking at any file. Otherwise appends, for each listed file that no exclusions pattern
    /// matches, its entry (`scan_entry`) to the context's files, and then fails
    /// if the walk stopped early. Exclusion wins over inclusion; a file is
    /// interpolated exactly when some inclusions pattern matches it.
    fn execute(&self, context: &mut StowawayContext, observed: ScanObservation) -> (r: Result<(), StowawayError>)
        ensures
            !all_valid(ScanPhase::includes(old(context))) ==> (r matches Err(StowawayError::Glob(e))
                && first_glob_error(ScanPhase::includes(old(context))) == Some((e.pos, e.msg@))
                && entries_view(final(context).files@) == entries_view(old(context).files@)),
            all_valid(ScanPhase::includes(old(context))) && !all_valid(ScanPhase::excludes(old(context))) ==> (
                r matches Err(StowawayError::Glob(e)) && first_glob_error(ScanPhase::excludes(old(context)))
                == Some((e.pos, e.msg@)) && entries_view(final(context).files@) == entries_view(old(context).files@)),
            all_valid(ScanPhase::includes(old(context))) && all_valid(ScanPhase::excludes(old(context))) ==> {
                &&& entries_view(final(context).files@) == entries_view(old(context).files@) + scanned(
                    old(context).source_dir@,
                    old(context).target_dir@,
                    ScanPhase::includes(old(context)),
                    ScanPhase::excludes(old(context)),
                    observed.files@.map_values(|s: String| s@),
                )
                &&& observed.walk_error matches Some(m) ==> r == Err::<(), StowawayError>(StowawayError::WalkDir(m))
                &&& observed.walk_error is None ==> r is Ok
            },
            final(context).config == old(context).config,
            final(context).source_dir == old(context).source_dir,
            final(context).target_dir == old(context).target_dir,
            final(context).dry_run == old(context).dry_run,
            final(context).store_hash == old(context).store_hash,
            final(context).target_hash == old(context).target_hash,
            final(context).operation_mode == old(context).operation_mode,
            final(context).current_version == old(context).current_version,
    {
        let inclusions = match compile_all(&context.config.interpolation.include_patterns) {
            Ok(ps) => ps,
            Err(e) => return Err(StowawayError::Glob(e)),
        };
        let exclusions = match compile_all(&context.config.interpolation.exclude_patterns) {
            Ok(ps) => ps,
            Err(e) => return Err(StowawayError::Glob(e)),
        };
        let ghost inc = ScanPhase::includes(context);
        let ghost exc = ScanPhase::excludes(context);
        let ghost rels = observed.files@.map_values(|s: String| s@);
        let ghost start = entries_view(context.files@);
        let mut i: usize = 0;
        while i < observed.files.len()
            invariant
                i <= observed.files.len(),
                inclusions@.map_values(|p: GlobPattern| p@) == inc,
                exclusions@.map_values(|p: GlobPattern| p@) == exc,
                rels == observed.files@.map_values(|s: String| s@),
                inc == ScanPhase::includes(context),
                exc == ScanPhase::excludes(context),
                entries_view(context.files@) == start + scanned(
                    context.source_dir@,
                    context.target_dir@,
                    inc,
                    exc,
                    rels.take(i as int),
                ),
                context.config == old(context).config,
                context.source_dir == old(context).source_dir,
                context.target_dir == old(context).target_dir,
                context.dry_run == old(context).dry_run,
                context.store_hash == old(context).store_hash,
                context.target_hash == old(context).target_hash,
                context.operation_mode == old(context).operation_mode,
                context.current_version == old(context).current_version,
            decreases observed.files.len() - i,
        {
            let rel = &observed.files[i];
            proof {
                assert(rels.take(i + 1).drop_last() =~= rels.take(i as int));
                assert(rels.take(i + 1).last() == rel@);
            }
            if !any_compiled_matches(&exclusions, rel.as_str()) {
                let should_interpolate = any_compiled_matches(&inclusions, rel.as_str());
                let entry = FileEntry {
                    source_path: join_path(context.source_dir.as_str(), rel.as_str()),
                    relative_path: rel.clone(),
                    target_path: join_path(context.target_dir.as_str(), rel.as_str()),
                    should_interpolate,
                };
                let ghost before = context.files@;
                let ghost ev = entry@;
                assert(ev == scan_entry(context.source_dir@, context.target_dir@, inc, rel@));
                context.files.push(entry);
                proof {
                    assert(context.files@ == before.push(entry));
                    assert(entries_view(context.files@) =~= entries_view(before).push(ev));
                    assert(scanned(context.source_dir@, context.target_dir@, inc, exc, rels.take(i + 1))
                        == scanned(context.source_dir@, context.target_dir@, inc, exc, rels.take(i as int)).push(ev));
                    assert(entries_view(context.files@) =~= start + scanned(
                        context.source_dir@,
                        context.target_dir@,
                        inc,
                        exc,
                        rels.take(i + 1),
                    ));
                }
            }
            i = i + 1;
        }
        assert(rels.take(observed.files.len() as int) =~= rels);
        match observed.walk_error {
            Some(m) => Err(StowawayError::WalkDir(m)),
            None => Ok(()),
        }
    }
}

/// Exclusion takes precedence: no scanned entry is a file that an exclusions
/// pattern matches, and each entry goes to the target path of its relative path.
pub proof fn lemma_scan_excludes(
    source_dir: Seq<char>,
    target_dir: Seq<char>,
    inclusions: Seq<Seq<char>>,
    exclusions: Seq<Seq<char>>,
    rels: Seq<Seq<char>>,
)
    ensures
        forall|k: int|
            0 <= k < scanned(source_dir, target_dir, inclusions, exclusions, rels).len() ==> {
                let e = #[trigger] scanned(source_dir, target_dir, inclusions, exclusions, rels)[k];
                &&& !any_matches(exclusions, e.relative_path)
                &&& rels.contains(e.relative_path)
                &&& e.target_path == join_spec(target_dir, e.relative_path)
                &&& e.source_path == join_spec(source_dir, e.relative_path)
                &&& e.should_interpolate == any_matches(inclusions, e.relative_path)
            },
        forall|j: int|
            0 <= j < rels.len() && !any_matches(exclusions, #[trigger] rels[j]) ==> exists|k: int|
                0 <= k < scanned(source_dir, target_dir, inclusions, exclusions, rels).len()
                    && scanned(source_dir, target_dir, inclusions, exclusions, rels)[k].relative_path == rels[j],
    decreases rels.len(),
{
    if rels.len() > 0 {
        let init = rels.drop_last();
        lemma_scan_excludes(source_dir, target_dir, inclusions, exclusions, init);
        let s = scanned(source_dir, target_dir, inclusions, exclusions, rels);
        let si = scanned(source_dir, target_dir, inclusions, exclusions, init);
        assert forall|k: int| 0 <= k < s.len() implies {
            let e = #[trigger] s[k];
            &&& !any_matches(exclusions, e.relative_path)
            &&& rels.contains(e.relative_path)
            &&& e.target_path == join_spec(target_dir, e.relative_path)
            &&& e.source_path == join_spec(source_dir, e.relative_path)
            &&& e.should_interpolate == any_matches(inclusions, e.relative_path)
        } by {
            if k < si.len() {
                assert(s[k] == si[k]);
                let j = choose|j: int| 0 <= j < init.len() && init[j] == s[k].relative_path;
                assert(rels[j] == init[j]);
            } else {
                assert(rels[rels.len() - 1] == rels.last());
            }
        }
        assert forall|j: int| 0 <= j < rels.len() && !any_matches(exclusions, #[trigger] rels[j]) implies exists|k: int|
            0 <= k < s.len() && s[k].relative_path == rels[j] by {
            if j < rels.len() - 1 {
                assert(init[j] == rels[j]);
                let k = choose|k: int| 0 <= k < si.len() && si[k].relative_path == init[j];
                assert(s[k] == si[k]);
            } else {
                assert(s[si.len() as int].relative_path == rels[j]);
            }
        }
    }
}

} // verus!
