//! Paths as text, joined the way `std::path::Path::join` joins them and
//! compared the way `std::path::Path` compares them, on Unix.
use vstd::prelude::*;

use crate::text::{chars_eq, chars_of, push_char, push_chars};

verus! {

/// `base` joined with `rel`: an absolute `rel` replaces `base`; otherwise a
/// separator is put between them unless `base` is empty or already ends in one.
pub open spec fn join_spec(base: Seq<char>, rel: Seq<char>) -> Seq<char> {
    if rel.len() > 0 && rel[0] == '/' {
        rel
    } else if base.len() == 0 || base.last() == '/' {
        base + rel
    } else {
        base + seq!['/'] + rel
    }
}

/// Joins `rel` onto `base`.
pub fn join_path(base: &str, rel: &str) -> (r: String)
    ensures
        r@ == join_spec(base@, rel@),
{
    let bv = chars_of(base);
    let rv = chars_of(rel);
    let mut out = String::new();
    if rv.len() > 0 && rv[0] == '/' {
        push_chars(&mut out, &rv, 0, rv.len());
        assert(rv@.subrange(0, rv@.len() as int) == rv@);
        return out;
    }
    push_chars(&mut out, &bv, 0, bv.len());
    if bv.len() > 0 && bv[bv.len() - 1] != '/' {
        push_char(&mut out, '/');
    }
    push_chars(&mut out, &rv, 0, rv.len());
    assert(bv@.subrange(0, bv@.len() as int) == bv@);
    assert(rv@.subrange(0, rv@.len() as int) == rv@);
    out
}

/// The name segments read so far, and the segment being read, after the
/// characters of `s`.
pub open spec fn segment_state(s: Seq<char>) -> (Seq<Seq<char>>, Seq<char>)
    decreases s.len(),
{
    if s.len() == 0 {
        (Seq::empty(), Seq::empty())
    } else {
        let (segs, cur) = segment_state(s.drop_last());
        if s.last() == '/' {
            (close_segment(segs, cur), Seq::empty())
        } else {
            (segs, cur.push(s.last()))
        }
    }
}

/// Ends the segment `cur`: empty segments and `.` are dropped.
pub open spec fn close_segment(segs: Seq<Seq<char>>, cur: Seq<char>) -> Seq<Seq<char>> {
    if cur.len() == 0 || cur == seq!['.'] {
        segs
    } else {
        segs.push(cur)
    }
}

/// The named components of a path: the segments between separators, without
/// empty ones (repeated or trailing separators) and without `.`.
pub open spec fn path_segments(s: Seq<char>) -> Seq<Seq<char>> {
    close_segment(segment_state(s).0, segment_state(s).1)
}

/// The path starts at the root.
pub open spec fn path_has_root(s: Seq<char>) -> bool {
    s.len() > 0 && s[0] == '/'
}

/// A relative path that starts with a `.` component, which is kept.
pub open spec fn path_leading_cur_dir(s: Seq<char>) -> bool {
    !path_has_root(s) && s.len() > 0 && s[0] == '.' && (s.len() == 1 || s[1] == '/')
}

/// Two paths have the same components, as `std::path::Path` compares them.
pub open spec fn same_path(a: Seq<char>, b: Seq<char>) -> bool {
    &&& path_has_root(a) == path_has_root(b)
    &&& path_leading_cur_dir(a) == path_leading_cur_dir(b)
    &&& path_segments(a) == path_segments(b)
}

/// The named components of `s`.
fn segments_of(s: &Vec<char>) -> (r: Vec<Vec<char>>)
    ensures
        r@.map_values(|v: Vec<char>| v@) == path_segments(s@),
{
    let mut segs: Vec<Vec<char>> = Vec::new();
    let mut cur: Vec<char> = Vec::new();
    let mut i: usize = 0;
    while i < s.len()
        invariant
            i <= s.len(),
            segs@.map_values(|v: Vec<char>| v@) == segment_state(s@.take(i as int)).0,
            cur@ == segment_state(s@.take(i as int)).1,
        decreases s.len() - i,
    {
        proof {
            assert(s@.take(i + 1).drop_last() =~= s@.take(i as int));
            assert(s@.take(i + 1).last() == s@[i as int]);
        }
        if s[i] == '/' {
            let dot = cur.len() == 1 && cur[0] == '.';
            assert(dot == (cur@ == seq!['.'])) by {
                if cur.len() == 1 && cur[0] == '.' {
                    assert(cur@ =~= seq!['.']);
                }
            }
            if cur.len() != 0 && !dot {
                let ghost before = segs@;
                segs.push(cur);
                assert(segs@.map_values(|v: Vec<char>| v@) =~= before.map_values(|v: Vec<char>| v@).push(
                    before.push(cur)[before.len() as int]@,
                ));
            }
            cur = Vec::new();
            assert(cur@ =~= Seq::<char>::empty());
        } else {
            cur.push(s[i]);
        }
        i = i + 1;
    }
    assert(s@.take(s.len() as int) =~= s@);
    let dot = cur.len() == 1 && cur[0] == '.';
    assert(dot == (cur@ == seq!['.'])) by {
        if cur.len() == 1 && cur[0] == '.' {
            assert(cur@ =~= seq!['.']);
        }
    }
    if cur.len() != 0 && !dot {
        let ghost before = segs@;
        segs.push(cur);
        assert(segs@.map_values(|v: Vec<char>| v@) =~= before.map_values(|v: Vec<char>| v@).push(
            before.push(cur)[before.len() as int]@,
        ));
    }
    segs
}

/// Whether `a` and `b` name the same path, component by component.
pub fn paths_equal(a: &str, b: &str) -> (r: bool)
    ensures
        r == same_path(a@, b@),
{
    let av = chars_of(a);
    let bv = chars_of(b);
    let a_root = av.len() > 0 && av[0] == '/';
    let b_root = bv.len() > 0 && bv[0] == '/';
    let a_cur = !a_root && av.len() > 0 && av[0] == '.' && (av.len() == 1 || av[1] == '/');
    let b_cur = !b_root && bv.len() > 0 && bv[0] == '.' && (bv.len() == 1 || bv[1] == '/');
    if a_root != b_root || a_cur != b_cur {
        return false;
    }
    let asegs = segments_of(&av);
    let bsegs = segments_of(&bv);
    let ghost sa = asegs@.map_values(|v: Vec<char>| v@);
    let ghost sb = bsegs@.map_values(|v: Vec<char>| v@);
    if asegs.len() != bsegs.len() {
        assert(sa.len() != sb.len());
        return false;
    }
    let mut i: usize = 0;
    while i < asegs.len()
        invariant
            asegs.len() == bsegs.len(),
            i <= asegs.len(),
            sa == asegs@.map_values(|v: Vec<char>| v@),
            sb == bsegs@.map_values(|v: Vec<char>| v@),
            same_path(a@, b@) <==> sa == sb,
            forall|k: int| 0 <= k < i ==> sa[k] == sb[k],
        decreases asegs.len() - i,
    {
        if !chars_eq(&asegs[i], &bsegs[i]) {
            assert(sa[i as int] != sb[i as int]);
            return false;
        }
        i = i + 1;
    }
    assert(sa =~= sb);
    true
}

} // verus!
