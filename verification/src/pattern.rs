//! Shell-style glob patterns, compiled and matched by the `glob` crate.
use vstd::prelude::*;

use crate::error::GlobError;

verus! {

/// Declares `glob::Pattern`, a compiled glob pattern.
#[verifier::external_type_specification]
#[verifier::external_body]
pub struct ExPattern(glob::Pattern);

/// What `glob::Pattern::new` gives for `pattern`: nothing when it compiles,
/// and otherwise the position and message of its error.
pub uninterp spec fn glob_compile_error(pattern: Seq<char>) -> Option<(usize, Seq<char>)>;

/// Whether `glob::Pattern::new` accepts `pattern`.
pub open spec fn glob_pattern_valid(pattern: Seq<char>) -> bool {
    glob_compile_error(pattern) is None
}

/// Whether the pattern compiled from `pattern` matches `candidate` under the
/// default match options (`glob::Pattern::matches`).
pub uninterp spec fn glob_matches(pattern: Seq<char>, candidate: Seq<char>) -> bool;

/// Compiles `pattern`.
///
/// Wraps `glob::Pattern::new`; the claim is that its outcome is a function of
/// the text alone, named `glob_compile_error`: success exactly when that gives
/// nothing, and otherwise the error's position and message (the public
/// fields `pos` and `msg` of `glob::PatternError`).
#[verifier::external_body]
fn compile_glob(pattern: &str) -> (r: Result<glob::Pattern, GlobError>)
    ensures
        r is Ok <==> glob_compile_error(pattern@) is None,
        r matches Err(e) ==> glob_compile_error(pattern@) == Some((e.pos, e.msg@)),
{
    match glob::Pattern::new(pattern) {
        Ok(p) => Ok(p),
        Err(e) => Err(GlobError { pos: e.pos, msg: e.msg.to_owned() }),
    }
}

/// A glob pattern together with the text it was compiled from.
///
/// Values are only built by `GlobPattern::new`, so `compiled` is always the
/// compilation of `source`.
pub struct GlobPattern {
    source: String,
    compiled: glob::Pattern,
}

impl View for GlobPattern {
    type V = Seq<char>;

    /// The text of the pattern.
    closed spec fn view(&self) -> Seq<char> {
        self.source@
    }
}

impl GlobPattern {
    /// Compiles `pattern`; fails exactly when the text is not a valid glob pattern.
    pub fn new(pattern: &str) -> (r: Result<GlobPattern, GlobError>)
        ensures
            r is Ok <==> glob_pattern_valid(pattern@),
            r matches Err(e) ==> glob_compile_error(pattern@) == Some((e.pos, e.msg@)),
            r matches Ok(p) ==> p@ == pattern@,
    {
        match compile_glob(pattern) {
            Ok(compiled) => Ok(GlobPattern { source: pattern.to_owned(), compiled }),
            Err(e) => Err(e),
        }
    }

    /// Whether the pattern matches `candidate`.
    ///
    /// Wraps `glob::Pattern::matches` on the compiled pattern; since the
    /// compiled pattern is the compilation of the source text, the claim is
    /// that the result is `glob_matches` of that text and the candidate.
    #[verifier::external_body]
    pub(crate) fn matches(&self, candidate: &str) -> (r: bool)
        ensures
            r == glob_matches(self@, candidate@),
    {
        self.compiled.matches(candidate)
    }
}

} // verus!
