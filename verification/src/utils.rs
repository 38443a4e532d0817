//! Glob membership of paths.
use vstd::prelude::*;

use crate::pattern::{glob_matches, glob_pattern_valid, GlobPattern};

verus! {

/// Some pattern of `patterns` is valid and matches `target`.
pub open spec fn member_of(patterns: Seq<Seq<char>>, target: Seq<char>) -> bool {
    exists|i: int|
        0 <= i < patterns.len() && glob_pattern_valid(#[trigger] patterns[i]) && glob_matches(
            patterns[i],
            target,
        )
}

/// Whether some pattern of `compare_to` matches `target`; patterns that do
/// not compile match nothing.
pub fn is_member(compare_to: &Vec<String>, target: &str) -> (r: bool)
    ensures
        r == member_of(compare_to@.map_values(|s: String| s@), target@),
{
    let ghost pats = compare_to@.map_values(|s: String| s@);
    let mut i: usize = 0;
    while i < compare_to.len()
        invariant
            i <= compare_to.len(),
            pats == compare_to@.map_values(|s: String| s@),
            forall|k: int|
                0 <= k < i ==> !(glob_pattern_valid(#[trigger] pats[k]) && glob_matches(pats[k], target@)),
        decreases compare_to.len() - i,
    {
        match GlobPattern::new(compare_to[i].as_str()) {
            Ok(p) => {
                if p.matches(target) {
                    assert(glob_pattern_valid(pats[i as int]) && glob_matches(pats[i as int], target@));
                    return true;
                }
            },
            Err(_) => {},
        }
        i = i + 1;
    }
    false
}

} // verus!
