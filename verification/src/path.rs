//! Unix path handling, specified over characters: joining two paths and
//! finding a path's final component, as `std::path` does both.

use vstd::prelude::*;
use crate::text::{chars_of, owned, push_char, push_range, push_str};

verus! {

/// `base.join(rel)`: `rel` alone when it is absolute, otherwise the two with
/// exactly one `/` between them (none added after an empty base or one that
/// already ends in `/`).
pub open spec fn join_path(base: Seq<char>, rel: Seq<char>) -> Seq<char> {
    if rel.len() > 0 && rel[0] == '/' {
        rel
    } else if base.len() == 0 || base.last() == '/' {
        base + rel
    } else {
        base + seq!['/'] + rel
    }
}

/// Exec twin of [`join_path`].
pub fn path_join(base: &str, rel: &str) -> (r: String)
    ensures
        r@ == join_path(base@, rel@),
{
    let b = chars_of(base);
    let r = chars_of(rel);
    if r.len() > 0 && r[0] == '/' {
        return owned(rel);
    }
    let mut out = owned(base);
    if b.len() > 0 && b[b.len() - 1] != '/' {
        push_char(&mut out, '/');
    }
    push_str(&mut out, rel);
    out
}

/// `p` with trailing separators and trailing `/.` components removed: what is
/// left ends in the path's final component, if it has one.
pub open spec fn strip_tail(p: Seq<char>) -> Seq<char>
    decreases p.len(),
{
    if p.len() > 0 && p.last() == '/' {
        strip_tail(p.drop_last())
    } else if p.len() >= 2 && p.last() == '.' && p[p.len() - 2] == '/' {
        strip_tail(p.take(p.len() - 2))
    } else {
        p
    }
}

/// The characters after the last `/` of `q` (all of `q` when it has none).
pub open spec fn last_segment(q: Seq<char>) -> Seq<char>
    decreases q.len(),
{
    if q.len() == 0 {
        q
    } else if q.last() == '/' {
        seq![]
    } else {
        last_segment(q.drop_last()).push(q.last())
    }
}

/// `Path::file_name`: the final component, unless the path ends in `..`,
/// is `.`, or has no component at all.
pub open spec fn file_name(p: Seq<char>) -> Option<Seq<char>> {
    let s = last_segment(strip_tail(p));
    if s.len() == 0 || s == seq!['.'] || s == seq!['.', '.'] {
        None
    } else {
        Some(s)
    }
}

/// The final component of `p`, or `p` itself when it has none.
pub open spec fn basename(p: Seq<char>) -> Seq<char> {
    match file_name(p) {
        Some(s) => s,
        None => p,
    }
}

proof fn lemma_strip_tail_prefix(p: Seq<char>)
    ensures
        strip_tail(p).len() <= p.len(),
        strip_tail(p) == p.take(strip_tail(p).len() as int),
    decreases p.len(),
{
    if p.len() > 0 && p.last() == '/' {
        lemma_strip_tail_prefix(p.drop_last());
        assert(p.drop_last().take(strip_tail(p).len() as int) =~= p.take(strip_tail(p).len() as int));
    } else if p.len() >= 2 && p.last() == '.' && p[p.len() - 2] == '/' {
        lemma_strip_tail_prefix(p.take(p.len() - 2));
        assert(p.take(p.len() - 2).take(strip_tail(p).len() as int) =~= p.take(strip_tail(p).len() as int));
    } else {
        assert(p.take(p.len() as int) =~= p);
    }
}

/// How long `strip_tail(v)` is.
fn strip_tail_len(v: &[char]) -> (n: usize)
    ensures
        n == strip_tail(v@).len(),
        n <= v@.len(),
{
    let mut n = v.len();
    assert(v@.take(n as int) =~= v@);
    while n > 0 && (v[n - 1] == '/' || (n >= 2 && v[n - 1] == '.' && v[n - 2] == '/'))
        invariant
            n <= v@.len(),
            strip_tail(v@.take(n as int)) == strip_tail(v@),
        decreases n,
    {
        let ghost q = v@.take(n as int);
        if v[n - 1] == '/' {
            assert(q.drop_last() =~= v@.take(n - 1));
            n = n - 1;
        } else {
            assert(q.take(q.len() - 2) =~= v@.take(n - 2));
            n = n - 2;
        }
    }
    proof {
        let q = v@.take(n as int);
        assert(strip_tail(q) == q);
    }
    n
}

/// Where the last segment of `v[..n]` starts.
fn last_segment_start(v: &[char], n: usize) -> (s: usize)
    requires
        n <= v@.len(),
    ensures
        s <= n,
        last_segment(v@.take(n as int)) == v@.subrange(s as int, n as int),
{
    let mut s = n;
    while s > 0 && v[s - 1] != '/'
        invariant
            s <= n <= v@.len(),
            forall|k: int| s <= k < n ==> v@[k] != '/',
        decreases s,
    {
        s = s - 1;
    }
    proof {
        lemma_last_segment(v@.take(n as int), s as int);
        assert(v@.take(n as int).skip(s as int) =~= v@.subrange(s as int, n as int));
    }
    s
}

proof fn lemma_last_segment(q: Seq<char>, s: int)
    requires
        0 <= s <= q.len(),
        forall|k: int| s <= k < q.len() ==> q[k] != '/',
        s == 0 || q[s - 1] == '/',
    ensures
        last_segment(q) == q.skip(s),
    decreases q.len(),
{
    if q.len() == 0 {
        assert(q.skip(s) =~= q);
    } else if q.last() == '/' {
        assert(s == q.len());
        assert(q.skip(s) =~= Seq::<char>::empty());
    } else {
        lemma_last_segment(q.drop_last(), s);
        assert(q.drop_last().skip(s).push(q.last()) =~= q.skip(s));
    }
}

/// Exec twin of [`file_name`].
pub fn file_name_of(p: &str) -> (r: Option<String>)
    ensures
        match file_name(p@) {
            Some(s) => r matches Some(x) && x@ == s,
            None => r is None,
        },
{
    let v = chars_of(p);
    let n = strip_tail_len(v.as_slice());
    proof {
        lemma_strip_tail_prefix(v@);
    }
    let s = last_segment_start(v.as_slice(), n);
    let len = n - s;
    let is_dot = len == 1 && v[s] == '.';
    let is_dotdot = len == 2 && v[s] == '.' && v[s + 1] == '.';
    proof {
        let seg = v@.subrange(s as int, n as int);
        if len == 1 && !is_dot {
            assert(seg != seq!['.']) by {
                assert(seg[0] != '.');
            }
        }
        if len == 1 && is_dot {
            assert(seg =~= seq!['.']);
        }
        if len == 2 && is_dotdot {
            assert(seg =~= seq!['.', '.']);
        }
        if len == 2 && !is_dotdot {
            assert(seg != seq!['.', '.']) by {
                if seg[0] == '.' {
                    assert(seg[1] != '.');
                }
            }
        }
        if len != 1 {
            assert(seg.len() != seq!['.'].len());
        }
        if len != 2 {
            assert(seg.len() != seq!['.', '.'].len());
        }
    }
    if len == 0 || is_dot || is_dotdot {
        None
    } else {
        let mut out = String::new();
        push_range(&mut out, v.as_slice(), s, n);
        Some(out)
    }
}

/// Exec twin of [`basename`].
pub fn base_name(p: &str) -> (r: String)
    ensures
        r@ == basename(p@),
{
    match file_name_of(p) {
        Some(s) => s,
        None => owned(p),
    }
}


/// `s` without trailing `/`, except that a run of `/` alone stays `/`.
pub open spec fn trim_separators(s: Seq<char>) -> Seq<char>
    decreases s.len(),
{
    if s.len() > 1 && s.last() == '/' {
        trim_separators(s.drop_last())
    } else {
        s
    }
}

/// `Path::parent`: the path without its final component and the separators
/// before it; `None` for the empty path and a bare root.
pub open spec fn parent_path(p: Seq<char>) -> Option<Seq<char>> {
    let q = strip_tail(p);
    if q.len() == 0 {
        None
    } else {
        let rest = q.take(q.len() - last_segment(q).len());
        Some(trim_separators(rest))
    }
}

proof fn lemma_last_segment_len(q: Seq<char>)
    ensures
        last_segment(q).len() <= q.len(),
    decreases q.len(),
{
    if q.len() > 0 && q.last() != '/' {
        lemma_last_segment_len(q.drop_last());
    }
}

/// Exec twin of [`parent_path`].
pub fn parent_of(p: &str) -> (r: Option<String>)
    ensures
        match parent_path(p@) {
            Some(s) => r matches Some(x) && x@ == s,
            None => r is None,
        },
{
    let v = chars_of(p);
    let n = strip_tail_len(v.as_slice());
    proof {
        lemma_strip_tail_prefix(v@);
    }
    if n == 0 {
        return None;
    }
    let s = last_segment_start(v.as_slice(), n);
    let mut e = s;
    while e > 1 && v[e - 1] == '/'
        invariant
            e <= s <= n <= v@.len(),
            trim_separators(v@.take(e as int)) == trim_separators(v@.take(s as int)),
        decreases e,
    {
        assert(v@.take(e as int).drop_last() =~= v@.take(e - 1));
        e = e - 1;
    }
    proof {
        let q = v@.take(n as int);
        lemma_last_segment_len(q);
        assert(q.take(q.len() - last_segment(q).len()) =~= v@.take(s as int));
        let t = v@.take(e as int);
        assert(trim_separators(t) == t);
    }
    let mut out = String::new();
    push_range(&mut out, v.as_slice(), 0, e);
    assert(v@.subrange(0, e as int) =~= v@.take(e as int));
    Some(out)
}
proof fn lemma_strip_tail_last(p: Seq<char>)
    ensures
        strip_tail(p).len() > 0 ==> strip_tail(p).last() != '/',
    decreases p.len(),
{
    if p.len() > 0 && p.last() == '/' {
        lemma_strip_tail_last(p.drop_last());
    } else if p.len() >= 2 && p.last() == '.' && p[p.len() - 2] == '/' {
        lemma_strip_tail_last(p.take(p.len() - 2));
    }
}

proof fn lemma_trim_separators_len(s: Seq<char>)
    ensures
        trim_separators(s).len() <= s.len(),
    decreases s.len(),
{
    if s.len() > 1 && s.last() == '/' {
        lemma_trim_separators_len(s.drop_last());
    }
}

/// A parent is strictly shorter than the path it is the parent of, so a walk
/// up the ancestors ends.
pub proof fn lemma_parent_shorter(p: Seq<char>)
    ensures
        parent_path(p) matches Some(q) ==> q.len() < p.len(),
{
    let q = strip_tail(p);
    lemma_strip_tail_prefix(p);
    if q.len() > 0 {
        lemma_strip_tail_last(p);
        assert(last_segment(q) == last_segment(q.drop_last()).push(q.last()));
        lemma_last_segment_len(q);
        let rest = q.take(q.len() - last_segment(q).len());
        lemma_trim_separators_len(rest);
    }
}

} // verus!
