//! Replacement of `@name@` placeholders by the values of variables.
use vstd::prelude::*;

use crate::config::VariableMap;
use crate::error::StowawayError;
use crate::text::{chars_of, contains_seq, occurs_at, occurs_at_exec, push_char, push_chars};

verus! {

/// `s` with every occurrence of `pat` replaced by `rep`, scanning left to
/// right and never overlapping (as `str::replace` does for a non-empty pattern).
pub open spec fn replace_all(s: Seq<char>, pat: Seq<char>, rep: Seq<char>) -> Seq<char>
    decreases s.len(),
{
    if s.len() == 0 || pat.len() == 0 {
        s
    } else if occurs_at(s, pat, 0) {
        rep + replace_all(s.skip(pat.len() as int), pat, rep)
    } else {
        seq![s[0]] + replace_all(s.skip(1), pat, rep)
    }
}

/// The placeholder for the variable `name`: `@name@`.
pub open spec fn placeholder(name: Seq<char>) -> Seq<char> {
    seq!['@'] + name + seq!['@']
}

/// `content` with the placeholder of each variable replaced by its value,
/// one variable after the other in the order of `vars`.
pub open spec fn interpolate_all(content: Seq<char>, vars: Seq<(Seq<char>, Seq<char>)>) -> Seq<
    char,
>
    decreases vars.len(),
{
    if vars.len() == 0 {
        content
    } else {
        replace_all(
            interpolate_all(content, vars.drop_last()),
            placeholder(vars.last().0),
            vars.last().1,
        )
    }
}

/// `s` with every occurrence of `pat` replaced by `rep`.
pub fn replace_all_chars(s: &Vec<char>, pat: &Vec<char>, rep: &Vec<char>) -> (r: String)
    requires
        pat.len() > 0,
    ensures
        r@ == replace_all(s@, pat@, rep@),
{
    let mut out = String::new();
    let mut i: usize = 0;
    assert(s@.skip(0) =~= s@);
    assert(out@ + replace_all(s@, pat@, rep@) =~= replace_all(s@, pat@, rep@));
    while i < s.len()
        invariant
            pat.len() > 0,
            i <= s.len(),
            out@ + replace_all(s@.skip(i as int), pat@, rep@) == replace_all(s@, pat@, rep@),
        decreases s.len() - i,
    {
        let ghost rest = s@.skip(i as int);
        if occurs_at_exec(s, pat, i) {
            proof {
                assert(rest.subrange(0, pat@.len() as int) =~= s@.subrange(
                    i as int,
                    i + pat@.len(),
                ));
                assert(occurs_at(rest, pat@, 0));
                assert(rest.skip(pat@.len() as int) =~= s@.skip(i + pat@.len()));
            }
            push_chars(&mut out, rep, 0, rep.len());
            assert(rep@.subrange(0, rep@.len() as int) =~= rep@);
            i = i + pat.len();
        } else {
            proof {
                if occurs_at(rest, pat@, 0) {
                    assert(s@.subrange(i as int, i + pat@.len()) =~= rest.subrange(
                        0,
                        pat@.len() as int,
                    ));
                }
                assert(rest.skip(1) =~= s@.skip(i + 1));
                assert(seq![rest[0]] + replace_all(rest.skip(1), pat@, rep@) == replace_all(
                    rest,
                    pat@,
                    rep@,
                ));
            }
            push_char(&mut out, s[i]);
            i = i + 1;
        }
    }
    assert(s@.skip(i as int) =~= Seq::<char>::empty());
    out
}

/// Substitutes variables into text.
pub trait Interpolator {
    /// `content` with the variables of `variables` substituted.
    fn interpolate(&self, content: &str, variables: &VariableMap) -> Result<String, StowawayError>;
}

/// Replaces each `@name@` by the value of the variable `name`; placeholders of
/// names that have no variable are left as they are.
pub struct VariableInterpolator;

impl Default for VariableInterpolator {
    fn default() -> (r: Self) {
        VariableInterpolator
    }
}

impl Interpolator for VariableInterpolator {
    /// Never fails: the result is `interpolate_all` of the content and the variables.
    fn interpolate(&self, content: &str, variables: &VariableMap) -> (r: Result<
        String,
        StowawayError,
    >)
        ensures
            r matches Ok(s) && s@ == interpolate_all(content@, variables@),
    {
        let entries = variables.entries();
        let mut result = chars_of(content);
        let mut n: usize = 0;
        while n < entries.len()
            invariant
                n <= entries.len(),
                entries@.map_values(|e: (String, String)| (e.0@, e.1@)) == variables@,
                result@ == interpolate_all(content@, variables@.take(n as int)),
            decreases entries.len() - n,
        {
            let key = &entries[n].0;
            let value = &entries[n].1;
            let mut pat: Vec<char> = Vec::new();
            pat.push('@');
            let kv = chars_of(key.as_str());
            let mut j: usize = 0;
            while j < kv.len()
                invariant
                    j <= kv.len(),
                    pat@ == seq!['@'] + kv@.take(j as int),
                decreases kv.len() - j,
            {
                pat.push(kv[j]);
                j = j + 1;
                assert(kv@.take(j as int) =~= kv@.take(j - 1).push(kv@[j - 1]));
            }
            pat.push('@');
            assert(kv@.take(kv@.len() as int) =~= kv@);
            assert(pat@ =~= placeholder(key@));
            let rep = chars_of(value.as_str());
            let replaced = replace_all_chars(&result, &pat, &rep);
            result = chars_of(replaced.as_str());
            proof {
                let vs = variables@;
                assert(vs.take(n + 1).drop_last() =~= vs.take(n as int));
                assert(vs.take(n + 1).last() == vs[n as int]);
                assert(vs[n as int] == (key@, value@));
            }
            n = n + 1;
        }
        assert(variables@.take(entries.len() as int) =~= variables@);
        Ok(crate::text::string_from_chars(&result))
    }
}

/// Replacing a pattern that does not occur leaves the text unchanged.
pub proof fn lemma_replace_absent(s: Seq<char>, pat: Seq<char>, rep: Seq<char>)
    requires
        !contains_seq(s, pat),
    ensures
        replace_all(s, pat, rep) == s,
    decreases s.len(),
{
    if s.len() > 0 && pat.len() > 0 {
        assert(!occurs_at(s, pat, 0));
        let rest = s.skip(1);
        assert forall|i: int| !occurs_at(rest, pat, i) by {
            if occurs_at(rest, pat, i) {
                assert(s.subrange(i + 1, i + 1 + pat.len()) =~= rest.subrange(i, i + pat.len()));
                assert(occurs_at(s, pat, i + 1));
            }
        }
        lemma_replace_absent(rest, pat, rep);
        assert(seq![s[0]] + rest =~= s);
    }
}

/// Text without `@` has no placeholder, so interpolation leaves it unchanged,
/// whatever the variables.
pub proof fn lemma_interpolate_without_marker(
    content: Seq<char>,
    vars: Seq<(Seq<char>, Seq<char>)>,
)
    requires
        !content.contains('@'),
    ensures
        interpolate_all(content, vars) == content,
    decreases vars.len(),
{
    if vars.len() > 0 {
        lemma_interpolate_without_marker(content, vars.drop_last());
        let pat = placeholder(vars.last().0);
        assert forall|i: int| !occurs_at(content, pat, i) by {
            if occurs_at(content, pat, i) {
                assert(content.subrange(i, i + pat.len())[0] == '@');
                assert(content[i] == '@');
            }
        }
        lemma_replace_absent(content, pat, vars.last().1);
    }
}

/// Placeholders of names that are not variables are left in place: text in
/// which no variable's placeholder occurs is unchanged by interpolation.
pub proof fn lemma_interpolate_unknown_names(
    content: Seq<char>,
    vars: Seq<(Seq<char>, Seq<char>)>,
)
    requires
        forall|i: int| 0 <= i < vars.len() ==> !contains_seq(content, placeholder(#[trigger] vars[i].0)),
    ensures
        interpolate_all(content, vars) == content,
    decreases vars.len(),
{
    if vars.len() > 0 {
        let init = vars.drop_last();
        assert forall|i: int| 0 <= i < init.len() implies !contains_seq(
            content,
            placeholder(#[trigger] init[i].0),
        ) by {
            assert(init[i] == vars[i]);
        }
        lemma_interpolate_unknown_names(content, init);
        assert(vars.last() == vars[vars.len() - 1]);
        lemma_replace_absent(content, placeholder(vars.last().0), vars.last().1);
    }
}

/// Every variable is substituted in turn: interpolating with the first
/// `i + 1` variables is interpolating with the first `i` and then replacing
/// every placeholder of variable `i` by its value, for every `i`.
pub proof fn lemma_interpolate_each_variable(
    content: Seq<char>,
    vars: Seq<(Seq<char>, Seq<char>)>,
    i: int,
)
    requires
        0 <= i < vars.len(),
    ensures
        interpolate_all(content, vars.take(i + 1)) == replace_all(
            interpolate_all(content, vars.take(i)),
            placeholder(vars[i].0),
            vars[i].1,
        ),
{
    let t = vars.take(i + 1);
    assert(t.drop_last() =~= vars.take(i));
    assert(t.last() == vars[i]);
}

/// Interpolating with all the variables is interpolating with all but the
/// last and then replacing the last one's placeholders by its value.
pub proof fn lemma_interpolate_last_variable(content: Seq<char>, vars: Seq<(Seq<char>, Seq<char>)>)
    requires
        vars.len() > 0,
    ensures
        interpolate_all(content, vars) == replace_all(
            interpolate_all(content, vars.drop_last()),
            placeholder(vars[vars.len() - 1].0),
            vars[vars.len() - 1].1,
        ),
{
    lemma_interpolate_each_variable(content, vars, vars.len() - 1);
    assert(vars.take(vars.len() as int) =~= vars);
    assert(vars.take(vars.len() - 1) =~= vars.drop_last());
}

/// A placeholder that the text begins with is replaced by the value, and the
/// rest of the text is replaced in the same way.
pub proof fn lemma_replace_at_start(s: Seq<char>, pat: Seq<char>, rep: Seq<char>)
    requires
        pat.len() > 0,
        pat.is_prefix_of(s),
    ensures
        replace_all(s, pat, rep) == rep + replace_all(s.skip(pat.len() as int), pat, rep),
{
    assert(s.subrange(0, pat.len() as int) =~= pat);
}

} // verus!
