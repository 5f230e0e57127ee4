//! Character-level string helpers shared by the whole library, each specified
//! over the `Seq<char>` view of the strings it reads and writes.

use vstd::prelude::*;
use vstd::string::*;

verus! {

broadcast use vstd::string::group_string_axioms;

/// Whether `c` is white space in Unicode's sense, exactly the set that
/// `char::is_whitespace` accepts.
pub open spec fn is_ws(c: char) -> bool {
    ||| c == '\t' || c == '\n' || c == '\u{0B}' || c == '\u{0C}' || c == '\r' || c == ' '
    ||| c == '\u{85}' || c == '\u{A0}' || c == '\u{1680}'
    ||| ('\u{2000}' <= c && c <= '\u{200A}')
    ||| c == '\u{2028}' || c == '\u{2029}' || c == '\u{202F}' || c == '\u{205F}'
    ||| c == '\u{3000}'
}

/// Exec twin of [`is_ws`].
pub fn is_whitespace(c: char) -> (b: bool)
    ensures
        b == is_ws(c),
{
    c == '\t' || c == '\n' || c == '\u{0B}' || c == '\u{0C}' || c == '\r' || c == ' ' || c
        == '\u{85}' || c == '\u{A0}' || c == '\u{1680}' || ('\u{2000}' <= c && c <= '\u{200A}')
        || c == '\u{2028}' || c == '\u{2029}' || c == '\u{202F}' || c == '\u{205F}' || c
        == '\u{3000}'
}

/// Every character of `s` is white space (so `s.trim()` is empty).
pub open spec fn all_ws(s: Seq<char>) -> bool {
    forall|i: int| 0 <= i < s.len() ==> is_ws(#[trigger] s[i])
}

/// Exec twin of [`all_ws`]: `s.trim().is_empty()`.
pub fn is_blank(s: &[char]) -> (b: bool)
    ensures
        b == all_ws(s@),
{
    let mut i: usize = 0;
    while i < s.len()
        invariant
            i <= s@.len(),
            forall|j: int| 0 <= j < i ==> is_ws(#[trigger] s@[j]),
        decreases s@.len() - i,
    {
        if !is_whitespace(s[i]) {
            return false;
        }
        i = i + 1;
    }
    true
}

/// The characters of `s`, in order.
pub fn chars_of(s: &str) -> (v: Vec<char>)
    ensures
        v@ == s@,
{
    let mut v: Vec<char> = Vec::new();
    for c in it: s.chars()
        invariant
            it.seq() == s@,
            v@ == s@.take(it.index()),
    {
        v.push(c);
    }
    assert(v@ =~= s@);
    v
}

/// `String::push` from std: append one character.
#[verifier::external_body]
pub(crate) fn push_char(s: &mut String, c: char)
    ensures
        final(s)@ == old(s)@.push(c),
{
    s.push(c);
}

/// Append the characters of `v[lo..hi]` to `s`.
pub fn push_range(s: &mut String, v: &[char], lo: usize, hi: usize)
    requires
        lo <= hi <= v@.len(),
    ensures
        final(s)@ == old(s)@ + v@.subrange(lo as int, hi as int),
{
    let ghost start = s@;
    let mut i = lo;
    while i < hi
        invariant
            lo <= i <= hi <= v@.len(),
            s@ == start + v@.subrange(lo as int, i as int),
        decreases hi - i,
    {
        push_char(s, v[i]);
        i = i + 1;
        assert(v@.subrange(lo as int, i as int) =~= v@.subrange(lo as int, i - 1).push(v@[i - 1]));
    }
}

/// A `String` holding exactly `v`.
pub fn string_of(v: &[char]) -> (s: String)
    ensures
        s@ == v@,
{
    let mut s = String::new();
    push_range(&mut s, v, 0, v.len());
    assert(v@.subrange(0, v@.len() as int) =~= v@);
    s
}

/// An owned copy of `s`.
pub fn owned(s: &str) -> (r: String)
    ensures
        r@ == s@,
{
    s.to_owned()
}

/// Append `t` to `s`.
pub fn push_str(s: &mut String, t: &str)
    ensures
        final(s)@ == old(s)@ + t@,
{
    s.append(t);
}

/// Whether `s` begins with `p`.
pub open spec fn starts_with(s: Seq<char>, p: Seq<char>) -> bool {
    p.len() <= s.len() && s.take(p.len() as int) == p
}

/// Whether `s` ends with `p`.
pub open spec fn ends_with(s: Seq<char>, p: Seq<char>) -> bool {
    p.len() <= s.len() && s.skip(s.len() - p.len()) == p
}

/// Whether `p` occurs in `s` starting at `i`.
pub open spec fn occurs_at(s: Seq<char>, p: Seq<char>, i: int) -> bool {
    0 <= i && i + p.len() <= s.len() && s.subrange(i, i + p.len()) == p
}

/// Whether `p` occurs anywhere in `s`.
pub open spec fn contains(s: Seq<char>, p: Seq<char>) -> bool {
    exists|i: int| occurs_at(s, p, i)
}

/// Whether `v[at..]` starts with `p`.
pub fn matches_at(v: &[char], p: &[char], at: usize) -> (b: bool)
    ensures
        b == occurs_at(v@, p@, at as int),
{
    if at > v.len() || p.len() > v.len() - at {
        return false;
    }
    let mut k: usize = 0;
    while k < p.len()
        invariant
            at + p@.len() <= v.len(),
            k <= p@.len(),
            forall|j: int| 0 <= j < k ==> v@[at + j] == p@[j],
        decreases p@.len() - k,
    {
        if v[at + k] != p[k] {
            assert(v@.subrange(at as int, at + p@.len())[k as int] != p@[k as int]);
            return false;
        }
        k = k + 1;
    }
    assert(v@.subrange(at as int, at + p@.len()) =~= p@);
    true
}

/// The first index at which `p` occurs in `v`, if any.
pub fn find(v: &[char], p: &[char]) -> (r: Option<usize>)
    ensures
        r matches Some(i) ==> occurs_at(v@, p@, i as int) && forall|j: int|
            0 <= j < i ==> !occurs_at(v@, p@, j),
        r is None ==> !contains(v@, p@),
{
    let mut i: usize = 0;
    loop
        invariant
            i <= v@.len(),
            forall|j: int| 0 <= j < i ==> !occurs_at(v@, p@, j),
        ensures
            forall|j: int| 0 <= j <= v@.len() ==> !occurs_at(v@, p@, j),
        decreases v@.len() - i,
    {
        if matches_at(v, p, i) {
            return Some(i);
        }
        if i == v.len() {
            break;
        }
        i = i + 1;
    }
    None
}

/// Exec twin of [`contains`].
pub fn contains_chars(v: &[char], p: &[char]) -> (b: bool)
    ensures
        b == contains(v@, p@),
{
    match find(v, p) {
        Some(_) => true,
        None => false,
    }
}

/// Exec twin of [`starts_with`].
pub fn starts_with_chars(v: &[char], p: &[char]) -> (b: bool)
    ensures
        b == starts_with(v@, p@),
{
    let b = matches_at(v, p, 0);
    proof {
        if p@.len() <= v@.len() {
            assert(v@.subrange(0, p@.len() as int) =~= v@.take(p@.len() as int));
        }
    }
    b
}

/// Exec twin of [`ends_with`].
pub fn ends_with_chars(v: &[char], p: &[char]) -> (b: bool)
    ensures
        b == ends_with(v@, p@),
{
    if p.len() > v.len() {
        return false;
    }
    let b = matches_at(v, p, v.len() - p.len());
    assert(v@.subrange(v@.len() - p@.len(), v@.len() as int) =~= v@.skip(v@.len() - p@.len()));
    b
}


/// Index of the first `c` in `s`, or `s.len()` when there is none.
pub open spec fn first_idx(s: Seq<char>, c: char) -> int
    decreases s.len(),
{
    if s.len() == 0 {
        0
    } else if s[0] == c {
        0
    } else {
        1 + first_idx(s.drop_first(), c)
    }
}

/// `first_idx` lies within `0..=s.len()`.
pub proof fn lemma_first_idx_bounds(s: Seq<char>, c: char)
    ensures
        0 <= first_idx(s, c) <= s.len(),
    decreases s.len(),
{
    if s.len() > 0 && s[0] != c {
        lemma_first_idx_bounds(s.drop_first(), c);
    }
}

/// `first_idx` is the position of the first occurrence, or the length.
pub proof fn lemma_first_idx(s: Seq<char>, c: char, k: int)
    requires
        0 <= k <= s.len(),
        forall|j: int| 0 <= j < k ==> s[j] != c,
        k == s.len() || s[k] == c,
    ensures
        first_idx(s, c) == k,
    decreases s.len(),
{
    if s.len() > 0 && k > 0 {
        lemma_first_idx(s.drop_first(), c, k - 1);
    }
}

/// A line with one trailing carriage return removed.
pub open spec fn strip_cr(t: Seq<char>) -> Seq<char> {
    if t.len() > 0 && t.last() == '\r' {
        t.drop_last()
    } else {
        t
    }
}

/// The lines of `s` exactly as `str::lines` yields them: split at `\n`, a
/// `\r` before a `\n` dropped, and no empty line after a final `\n`.
pub open spec fn lines(s: Seq<char>) -> Seq<Seq<char>>
    decreases s.len(),
{
    if s.len() == 0 {
        seq![]
    } else {
        let k = first_idx(s, '\n');
        proof {
            lemma_first_idx_bounds(s, '\n');
        }
        if k >= s.len() {
            seq![s]
        } else {
            seq![strip_cr(s.take(k))] + lines(s.skip(k + 1))
        }
    }
}

/// The views of a vector of character vectors.
pub open spec fn views(r: Seq<Vec<char>>) -> Seq<Seq<char>> {
    Seq::new(r.len(), |i: int| r[i]@)
}

/// A copy of `v[lo..hi]`.
pub fn sub_vec(v: &[char], lo: usize, hi: usize) -> (r: Vec<char>)
    requires
        lo <= hi <= v@.len(),
    ensures
        r@ == v@.subrange(lo as int, hi as int),
{
    let mut r: Vec<char> = Vec::new();
    let mut i = lo;
    while i < hi
        invariant
            lo <= i <= hi <= v@.len(),
            r@ == v@.subrange(lo as int, i as int),
        decreases hi - i,
    {
        r.push(v[i]);
        i = i + 1;
        assert(r@ =~= v@.subrange(lo as int, i as int));
    }
    r
}

/// `v[lo..hi]` with one trailing `\r` dropped.
fn line_part(v: &[char], lo: usize, hi: usize) -> (r: Vec<char>)
    requires
        lo <= hi <= v@.len(),
    ensures
        r@ == strip_cr(v@.subrange(lo as int, hi as int)),
{
    if hi > lo && v[hi - 1] == '\r' {
        let r = sub_vec(v, lo, hi - 1);
        assert(r@ =~= v@.subrange(lo as int, hi as int).drop_last());
        r
    } else {
        sub_vec(v, lo, hi)
    }
}

/// The lines of `v`, as `str::lines` produces them.
pub fn lines_of(v: &[char]) -> (r: Vec<Vec<char>>)
    ensures
        views(r@) == lines(v@),
{
    let mut r: Vec<Vec<char>> = Vec::new();
    let mut start: usize = 0;
    let mut i: usize = 0;
    assert(v@.skip(0) =~= v@);
    assert(views(r@) + lines(v@) =~= lines(v@));
    while i < v.len()
        invariant
            start <= i <= v@.len(),
            forall|j: int| start <= j < i ==> v@[j] != '\n',
            views(r@) + lines(v@.skip(start as int)) == lines(v@),
        decreases v@.len() - i,
    {
        if v[i] == '\n' {
            let ghost rest = v@.skip(start as int);
            proof {
                lemma_first_idx(rest, '\n', i - start);
                assert(rest.take(i - start) =~= v@.subrange(start as int, i as int));
                assert(rest.skip(i - start + 1) =~= v@.skip(i + 1));
            }
            let line = line_part(v, start, i);
            let ghost before = views(r@);
            r.push(line);
            assert(views(r@) =~= before.push(line@));
            assert(lines(rest) == seq![line@] + lines(v@.skip(i + 1)));
            assert(views(r@) + lines(v@.skip(i + 1)) =~= before + lines(rest));
            start = i + 1;
        }
        i = i + 1;
    }
    if start < v.len() {
        let ghost rest = v@.skip(start as int);
        proof {
            lemma_first_idx(rest, '\n', rest.len() as int);
            assert(rest =~= v@.subrange(start as int, v@.len() as int));
        }
        let line = sub_vec(v, start, v.len());
        let ghost before = views(r@);
        r.push(line);
        assert(views(r@) =~= before.push(line@));
        assert(lines(rest) == seq![line@]);
        assert(lines(v@.skip(v@.len() as int)) =~= seq![]) by {
            assert(v@.skip(v@.len() as int) =~= Seq::<char>::empty());
        }
        assert(views(r@) + lines(v@.skip(v@.len() as int)) =~= before + lines(rest));
    } else {
        assert(v@.skip(start as int) =~= Seq::<char>::empty());
    }
    assert(views(r@) + lines(v@.skip(v@.len() as int)) == lines(v@));
    assert(lines(v@.skip(v@.len() as int)) =~= seq![]) by {
        assert(v@.skip(v@.len() as int) =~= Seq::<char>::empty());
    }
    assert(views(r@) + Seq::<Seq<char>>::empty() =~= views(r@));
    r
}

/// `parts` joined with `sep` between consecutive elements.
pub open spec fn join(parts: Seq<Seq<char>>, sep: Seq<char>) -> Seq<char>
    decreases parts.len(),
{
    if parts.len() == 0 {
        seq![]
    } else if parts.len() == 1 {
        parts[0]
    } else {
        join(parts.drop_last(), sep) + sep + parts.last()
    }
}

/// `parts[lo..hi]` joined with `sep`, appended to `s`.
pub fn push_joined(s: &mut String, parts: &[Vec<char>], lo: usize, hi: usize, sep: &str)
    requires
        lo <= hi <= parts@.len(),
    ensures
        final(s)@ == old(s)@ + join(views(parts@).subrange(lo as int, hi as int), sep@),
{
    let ghost start = s@;
    let mut i = lo;
    while i < hi
        invariant
            lo <= i <= hi <= parts@.len(),
            s@ == start + join(views(parts@).subrange(lo as int, i as int), sep@),
        decreases hi - i,
    {
        let ghost prev = views(parts@).subrange(lo as int, i as int);
        if i > lo {
            push_str(s, sep);
        }
        let p = &parts[i];
        push_range(s, p.as_slice(), 0, p.len());
        assert(p@.subrange(0, p@.len() as int) =~= p@);
        i = i + 1;
        let ghost next = views(parts@).subrange(lo as int, i as int);
        assert(next.drop_last() =~= prev);
        assert(next.last() == parts@[i - 1]@);
        if i - 1 > lo {
            assert(join(next, sep@) == join(prev, sep@) + sep@ + parts@[i - 1]@);
        } else {
            assert(prev.len() == 0);
            assert(join(next, sep@) == parts@[i - 1]@);
        }
        assert(s@ =~= start + join(next, sep@));
    }
}

/// `parts` joined with `sep`, as a new string.
pub fn join_vecs(parts: &[Vec<char>], sep: &str) -> (s: String)
    ensures
        s@ == join(views(parts@), sep@),
{
    let mut s = String::new();
    push_joined(&mut s, parts, 0, parts.len(), sep);
    assert(views(parts@).subrange(0, parts@.len() as int) =~= views(parts@));
    assert(s@ =~= join(views(parts@), sep@));
    s
}

/// The decimal digit for `d < 10`.
pub open spec fn digit(d: nat) -> char {
    if d == 0 { '0' }
    else if d == 1 { '1' }
    else if d == 2 { '2' }
    else if d == 3 { '3' }
    else if d == 4 { '4' }
    else if d == 5 { '5' }
    else if d == 6 { '6' }
    else if d == 7 { '7' }
    else if d == 8 { '8' }
    else { '9' }
}

/// The decimal rendering of `n`, as `{n}` formats it.
pub open spec fn decimal(n: nat) -> Seq<char>
    decreases n,
{
    if n < 10 {
        seq![digit(n)]
    } else {
        decimal(n / 10).push(digit(n % 10))
    }
}

fn digit_char(d: u64) -> (c: char)
    requires
        d < 10,
    ensures
        c == digit(d as nat),
{
    if d == 0 { '0' }
    else if d == 1 { '1' }
    else if d == 2 { '2' }
    else if d == 3 { '3' }
    else if d == 4 { '4' }
    else if d == 5 { '5' }
    else if d == 6 { '6' }
    else if d == 7 { '7' }
    else if d == 8 { '8' }
    else { '9' }
}

/// Append the decimal rendering of `n` to `s`.
pub fn push_decimal(s: &mut String, n: u64)
    ensures
        final(s)@ == old(s)@ + decimal(n as nat),
    decreases n,
{
    if n < 10 {
        push_char(s, digit_char(n));
        assert(decimal(n as nat) =~= seq![digit(n as nat)]);
    } else {
        push_decimal(s, n / 10);
        push_char(s, digit_char(n % 10));
    }
}

/// The decimal rendering of `n`.
pub fn decimal_string(n: u64) -> (s: String)
    ensures
        s@ == decimal(n as nat),
{
    let mut s = String::new();
    push_decimal(&mut s, n);
    s
}


/// Index of the first white-space character of `s`, or `s.len()`.
pub open spec fn first_ws(s: Seq<char>) -> int
    decreases s.len(),
{
    if s.len() == 0 {
        0
    } else if is_ws(s[0]) {
        0
    } else {
        1 + first_ws(s.drop_first())
    }
}

/// `first_ws` is the position of the first white space, or the length.
pub proof fn lemma_first_ws(s: Seq<char>, k: int)
    requires
        0 <= k <= s.len(),
        forall|j: int| 0 <= j < k ==> !is_ws(#[trigger] s[j]),
        k == s.len() || is_ws(s[k]),
    ensures
        first_ws(s) == k,
    decreases s.len(),
{
    if s.len() > 0 && k > 0 {
        assert forall|j: int| 0 <= j < k - 1 implies !is_ws(#[trigger] s.drop_first()[j]) by {
            assert(s.drop_first()[j] == s[j + 1]);
        }
        lemma_first_ws(s.drop_first(), k - 1);
    }
}

/// `first_ws` lies within `0..=s.len()`.
pub proof fn lemma_first_ws_bounds(s: Seq<char>)
    ensures
        0 <= first_ws(s) <= s.len(),
    decreases s.len(),
{
    if s.len() > 0 && !is_ws(s[0]) {
        lemma_first_ws_bounds(s.drop_first());
    }
}

/// The words of `s` exactly as `str::split_whitespace` yields them: the
/// maximal runs of characters that are not white space, in order.
pub open spec fn words(s: Seq<char>) -> Seq<Seq<char>>
    decreases s.len(),
{
    if s.len() == 0 {
        seq![]
    } else if is_ws(s[0]) {
        words(s.drop_first())
    } else {
        let k = first_ws(s);
        proof {
            lemma_first_ws_bounds(s);
            lemma_first_ws_bounds(s.drop_first());
        }
        seq![s.take(k)] + words(s.skip(k))
    }
}

/// The words of `v`, as `str::split_whitespace` produces them.
pub fn words_of(v: &[char]) -> (r: Vec<Vec<char>>)
    ensures
        views(r@) == words(v@),
{
    let mut r: Vec<Vec<char>> = Vec::new();
    let mut start: usize = 0;
    let mut i: usize = 0;
    assert(v@.skip(0) =~= v@);
    assert(views(r@) + words(v@) =~= words(v@));
    while i < v.len()
        invariant
            start <= i <= v@.len(),
            forall|j: int| start <= j < i ==> !is_ws(#[trigger] v@[j]),
            views(r@) + words(v@.skip(start as int)) == words(v@),
        decreases v@.len() - i,
    {
        if is_whitespace(v[i]) {
            let ghost rest = v@.skip(start as int);
            if i > start {
                proof {
                    assert forall|j: int| 0 <= j < i - start implies !is_ws(#[trigger] rest[j]) by {
                        assert(rest[j] == v@[start + j]);
                    }
                    lemma_first_ws(rest, i - start);
                    assert(rest.take(i - start) =~= v@.subrange(start as int, i as int));
                    assert(rest.skip(i - start) =~= v@.skip(i as int));
                }
                let w = sub_vec(v, start, i);
                let ghost before = views(r@);
                r.push(w);
                assert(views(r@) =~= before.push(w@));
                assert(words(rest) == seq![w@] + words(v@.skip(i as int)));
                assert(views(r@) + words(v@.skip(i as int)) =~= before + words(rest));
            }
            proof {
                let here = v@.skip(i as int);
                assert(here[0] == v@[i as int]);
                assert(here.drop_first() =~= v@.skip(i + 1));
                assert(words(here) == words(v@.skip(i + 1)));
            }
            start = i + 1;
        }
        i = i + 1;
    }
    if start < v.len() {
        let ghost rest = v@.skip(start as int);
        proof {
            assert forall|j: int| 0 <= j < rest.len() implies !is_ws(#[trigger] rest[j]) by {
                assert(rest[j] == v@[start + j]);
            }
            lemma_first_ws(rest, rest.len() as int);
            assert(rest.take(rest.len() as int) =~= rest);
            assert(rest =~= v@.subrange(start as int, v@.len() as int));
            assert(rest.skip(rest.len() as int) =~= Seq::<char>::empty());
            assert(rest[0] == v@[start as int]);
        }
        let w = sub_vec(v, start, v.len());
        let ghost before = views(r@);
        r.push(w);
        assert(views(r@) =~= before.push(w@));
        assert(words(Seq::<char>::empty()) =~= Seq::<Seq<char>>::empty());
        assert(words(rest) == seq![w@] + words(Seq::<char>::empty()));
        assert(views(r@) =~= before + words(rest));
    } else {
        assert(v@.skip(start as int) =~= Seq::<char>::empty());
        assert(words(v@.skip(start as int)) =~= Seq::<Seq<char>>::empty());
        assert(views(r@) =~= views(r@) + words(v@.skip(start as int)));
    }
    r
}


/// The pieces of `s` between occurrences of `c`, as `str::split` yields them:
/// always at least one, empty pieces kept.
pub open spec fn split(s: Seq<char>, c: char) -> Seq<Seq<char>>
    decreases s.len(),
{
    let k = first_idx(s, c);
    if k >= s.len() {
        seq![s]
    } else {
        proof {
            lemma_first_idx_bounds(s, c);
        }
        seq![s.take(k)] + split(s.skip(k + 1), c)
    }
}

/// The pieces of `v` between occurrences of `c`.
pub fn split_chars(v: &[char], c: char) -> (r: Vec<Vec<char>>)
    ensures
        views(r@) == split(v@, c),
{
    let mut r: Vec<Vec<char>> = Vec::new();
    let mut start: usize = 0;
    let mut i: usize = 0;
    assert(v@.skip(0) =~= v@);
    assert(views(r@) + split(v@, c) =~= split(v@, c));
    while i < v.len()
        invariant
            start <= i <= v@.len(),
            forall|j: int| start <= j < i ==> v@[j] != c,
            views(r@) + split(v@.skip(start as int), c) == split(v@, c),
        decreases v@.len() - i,
    {
        if v[i] == c {
            let ghost rest = v@.skip(start as int);
            proof {
                lemma_first_idx(rest, c, i - start);
                assert(rest.take(i - start) =~= v@.subrange(start as int, i as int));
                assert(rest.skip(i - start + 1) =~= v@.skip(i + 1));
            }
            let part = sub_vec(v, start, i);
            let ghost before = views(r@);
            r.push(part);
            assert(views(r@) =~= before.push(part@));
            assert(split(rest, c) == seq![part@] + split(v@.skip(i + 1), c));
            assert(views(r@) + split(v@.skip(i + 1), c) =~= before + split(rest, c));
            start = i + 1;
        }
        i = i + 1;
    }
    let ghost rest = v@.skip(start as int);
    proof {
        lemma_first_idx(rest, c, rest.len() as int);
        assert(rest =~= v@.subrange(start as int, v@.len() as int));
    }
    let part = sub_vec(v, start, v.len());
    let ghost before = views(r@);
    r.push(part);
    assert(views(r@) =~= before.push(part@));
    assert(split(rest, c) == seq![part@]);
    assert(views(r@) =~= before + split(rest, c));
    r
}


/// `s` without trailing white space, as `str::trim_end` leaves it.
pub open spec fn trim_end(s: Seq<char>) -> Seq<char>
    decreases s.len(),
{
    if s.len() > 0 && is_ws(s.last()) {
        trim_end(s.drop_last())
    } else {
        s
    }
}

/// `s` without leading white space, as `str::trim_start` leaves it.
pub open spec fn trim_start(s: Seq<char>) -> Seq<char>
    decreases s.len(),
{
    if s.len() > 0 && is_ws(s[0]) {
        trim_start(s.drop_first())
    } else {
        s
    }
}

/// `s` without white space at either end, as `str::trim` leaves it.
pub open spec fn trim(s: Seq<char>) -> Seq<char> {
    trim_start(trim_end(s))
}

/// `trim_end` keeps the prefix up to the last character that is not white space.
pub proof fn lemma_trim_end(s: Seq<char>, k: int)
    requires
        0 <= k <= s.len(),
        forall|j: int| k <= j < s.len() ==> is_ws(#[trigger] s[j]),
        k == 0 || !is_ws(s[k - 1]),
    ensures
        trim_end(s) == s.take(k),
    decreases s.len(),
{
    if s.len() > k {
        assert(s.drop_last().take(k) =~= s.take(k));
        lemma_trim_end(s.drop_last(), k);
    } else {
        assert(s.take(k) =~= s);
    }
}

/// `trim_start` keeps the suffix from the first character that is not white space.
pub proof fn lemma_trim_start(s: Seq<char>, k: int)
    requires
        0 <= k <= s.len(),
        forall|j: int| 0 <= j < k ==> is_ws(#[trigger] s[j]),
        k == s.len() || !is_ws(s[k]),
    ensures
        trim_start(s) == s.skip(k),
    decreases s.len(),
{
    if k > 0 {
        assert forall|j: int| 0 <= j < k - 1 implies is_ws(#[trigger] s.drop_first()[j]) by {
            assert(s.drop_first()[j] == s[j + 1]);
        }
        lemma_trim_start(s.drop_first(), k - 1);
        assert(s.drop_first().skip(k - 1) =~= s.skip(k));
    } else {
        assert(s.skip(0) =~= s);
    }
}

/// Where the trimmed text of `v` begins and ends.
pub fn trim_bounds(v: &[char]) -> (r: (usize, usize))
    ensures
        r.0 <= r.1 <= v@.len(),
        trim(v@) == v@.subrange(r.0 as int, r.1 as int),
        trim_end(v@) == v@.take(r.1 as int),
{
    let mut e: usize = v.len();
    while e > 0 && is_whitespace(v[e - 1])
        invariant
            e <= v@.len(),
            forall|j: int| e <= j < v@.len() ==> is_ws(#[trigger] v@[j]),
        decreases e,
    {
        e = e - 1;
    }
    proof {
        lemma_trim_end(v@, e as int);
    }
    let mut b: usize = 0;
    while b < e && is_whitespace(v[b])
        invariant
            b <= e <= v@.len(),
            forall|j: int| 0 <= j < b ==> is_ws(#[trigger] v@[j]),
        decreases e - b,
    {
        b = b + 1;
    }
    proof {
        let t = v@.take(e as int);
        assert forall|j: int| 0 <= j < b implies is_ws(#[trigger] t[j]) by {
            assert(t[j] == v@[j]);
        }
        if b < e {
            assert(t[b as int] == v@[b as int]);
        }
        lemma_trim_start(t, b as int);
        assert(t.skip(b as int) =~= v@.subrange(b as int, e as int));
    }
    (b, e)
}

/// `s.trim()` as an owned string.
pub fn trimmed(s: &str) -> (r: String)
    ensures
        r@ == trim(s@),
{
    let v = chars_of(s);
    let (b, e) = trim_bounds(v.as_slice());
    let mut r = String::new();
    push_range(&mut r, v.as_slice(), b, e);
    r
}

/// Whether `a` and `b` hold the same text.
pub fn same_text(a: &str, b: &str) -> (r: bool)
    ensures
        r == (a@ == b@),
{
    let va = chars_of(a);
    let vb = chars_of(b);
    if va.len() != vb.len() {
        return false;
    }
    let r = matches_at(va.as_slice(), vb.as_slice(), 0);
    assert(va@.subrange(0, vb@.len() as int) =~= va@);
    r
}

/// Whether `c` is an ASCII digit.
pub open spec fn is_digit(c: char) -> bool {
    '0' <= c && c <= '9'
}

/// The value of an ASCII digit.
pub open spec fn digit_value(c: char) -> nat {
    if c == '1' { 1 }
    else if c == '2' { 2 }
    else if c == '3' { 3 }
    else if c == '4' { 4 }
    else if c == '5' { 5 }
    else if c == '6' { 6 }
    else if c == '7' { 7 }
    else if c == '8' { 8 }
    else if c == '9' { 9 }
    else { 0 }
}

/// The number a string of decimal digits spells.
pub open spec fn decimal_value(d: Seq<char>) -> nat
    decreases d.len(),
{
    if d.len() == 0 {
        0
    } else {
        decimal_value(d.drop_last()) * 10 + digit_value(d.last())
    }
}

/// The value of an ASCII digit.
pub fn digit_of(c: char) -> (d: u64)
    ensures
        d == digit_value(c),
{
    if c == '1' { 1 }
    else if c == '2' { 2 }
    else if c == '3' { 3 }
    else if c == '4' { 4 }
    else if c == '5' { 5 }
    else if c == '6' { 6 }
    else if c == '7' { 7 }
    else if c == '8' { 8 }
    else if c == '9' { 9 }
    else { 0 }
}


/// `s` without one leading `+`.
pub open spec fn unsigned_part(s: Seq<char>) -> Seq<char> {
    if s.len() > 0 && s[0] == '+' { s.drop_first() } else { s }
}

/// Every character of `d` is an ASCII digit.
pub open spec fn all_digits(d: Seq<char>) -> bool {
    forall|i: int| 0 <= i < d.len() ==> is_digit(#[trigger] d[i])
}

/// What `str::parse::<usize>` gives for `s`: an optional `+` followed by at
/// least one ASCII digit, whose value fits.
pub open spec fn parse_usize_spec(s: Seq<char>) -> Option<usize> {
    let d = unsigned_part(s);
    if d.len() > 0 && all_digits(d) && decimal_value(d) <= usize::MAX {
        Some(decimal_value(d) as usize)
    } else {
        None
    }
}

/// `s.parse::<usize>().ok()`.
pub fn parse_usize(s: &str) -> (r: Option<usize>)
    ensures
        r == parse_usize_spec(s@),
{
    let v = chars_of(s);
    let start: usize = if v.len() > 0 && v[0] == '+' { 1 } else { 0 };
    let ghost d = v@.skip(start as int);
    assert(d =~= unsigned_part(v@));
    if start >= v.len() {
        return None;
    }
    let mut k: usize = start;
    let mut acc: usize = 0;
    while k < v.len()
        invariant
            start <= k <= v@.len(),
            start < v@.len(),
            v@ == s@,
            d == v@.skip(start as int),
            d == unsigned_part(s@),
            forall|j: int| 0 <= j < k - start ==> is_digit(#[trigger] d[j]),
            acc == decimal_value(d.take(k - start)),
        decreases v@.len() - k,
    {
        let c = v[k];
        if !('0' <= c && c <= '9') {
            assert(!is_digit(d[k - start]));
            return None;
        }
        let dg = digit_of(c);
        let ghost prev = d.take(k - start);
        assert(d.take(k - start + 1).drop_last() =~= prev);
        assert(d[k - start] == c);
        if acc > (usize::MAX - dg as usize) / 10 {
            assert(decimal_value(d.take(k - start + 1)) > usize::MAX) by (nonlinear_arith)
                requires
                    decimal_value(d.take(k - start + 1)) == acc * 10 + dg,
                    acc > (usize::MAX - dg) / 10,
                    dg <= 9,
            ;
            proof {
                lemma_decimal_value_prefix(d, k - start + 1);
            }
            return None;
        }
        assert(acc * 10 + dg <= usize::MAX) by (nonlinear_arith)
            requires
                acc <= (usize::MAX - dg) / 10,
                dg <= 9,
        ;
        acc = acc * 10 + dg as usize;
        k = k + 1;
    }
    assert(d.take(d.len() as int) =~= d);
    Some(acc)
}

/// A longer run of digits is worth at least as much as its prefix.
pub proof fn lemma_decimal_value_prefix(d: Seq<char>, n: int)
    requires
        0 <= n <= d.len(),
    ensures
        decimal_value(d.take(n)) <= decimal_value(d),
    decreases d.len(),
{
    if n < d.len() {
        assert(d.drop_last().take(n) =~= d.take(n));
        lemma_decimal_value_prefix(d.drop_last(), n);
        assert(decimal_value(d) >= decimal_value(d.drop_last())) by (nonlinear_arith)
            requires
                decimal_value(d) == decimal_value(d.drop_last()) * 10 + digit_value(d.last()),
        ;
    } else {
        assert(d.take(n) =~= d);
    }
}

/// What `str::parse::<u64>` gives for `s`: an optional `+` followed by at
/// least one ASCII digit, whose value fits.
pub open spec fn parse_u64_spec(s: Seq<char>) -> Option<u64> {
    let d = unsigned_part(s);
    if d.len() > 0 && all_digits(d) && decimal_value(d) <= u64::MAX {
        Some(decimal_value(d) as u64)
    } else {
        None
    }
}

/// `s.parse::<u64>().ok()`.
pub fn parse_u64(s: &str) -> (r: Option<u64>)
    ensures
        r == parse_u64_spec(s@),
{
    let v = chars_of(s);
    let start: usize = if v.len() > 0 && v[0] == '+' { 1 } else { 0 };
    let ghost d = v@.skip(start as int);
    assert(d =~= unsigned_part(v@));
    if start >= v.len() {
        return None;
    }
    let mut k: usize = start;
    let mut acc: u64 = 0;
    while k < v.len()
        invariant
            start <= k <= v@.len(),
            start < v@.len(),
            v@ == s@,
            d == v@.skip(start as int),
            d == unsigned_part(s@),
            forall|j: int| 0 <= j < k - start ==> is_digit(#[trigger] d[j]),
            acc == decimal_value(d.take(k - start)),
        decreases v@.len() - k,
    {
        let c = v[k];
        if !('0' <= c && c <= '9') {
            assert(!is_digit(d[k - start]));
            return None;
        }
        let dg = digit_of(c);
        let ghost prev = d.take(k - start);
        assert(d.take(k - start + 1).drop_last() =~= prev);
        assert(d[k - start] == c);
        if acc > (u64::MAX - dg) / 10 {
            assert(decimal_value(d.take(k - start + 1)) > u64::MAX) by (nonlinear_arith)
                requires
                    decimal_value(d.take(k - start + 1)) == acc * 10 + dg,
                    acc > (u64::MAX - dg) / 10,
                    dg <= 9,
            ;
            proof {
                lemma_decimal_value_prefix(d, k - start + 1);
            }
            return None;
        }
        assert(acc * 10 + dg <= u64::MAX) by (nonlinear_arith)
            requires
                acc <= (u64::MAX - dg) / 10,
                dg <= 9,
        ;
        acc = acc * 10 + dg;
        k = k + 1;
    }
    assert(d.take(d.len() as int) =~= d);
    Some(acc)
}

} // verus!
