//! Whether a published release is newer than the running binary.
//!
//! Versions are compared as numbers, not strings: `0.1.10` is newer than
//! `0.1.9`, which a lexical comparison gets backwards. The answer to "is there
//! an update" is cached and trusted for a day.

use vstd::prelude::*;
use crate::text::{chars_of, decimal_value, digit_of, digit_value, is_digit, owned, split, split_chars, views};

verus! {

/// How long a check is trusted before asking again, in seconds.
pub const CHECK_EVERY_SECS: u64 = 86400;

/// `v` without its leading `v` characters.
pub open spec fn strip_v(v: Seq<char>) -> Seq<char>
    decreases v.len(),
{
    if v.len() > 0 && v[0] == 'v' {
        strip_v(v.drop_first())
    } else {
        v
    }
}

/// The leading ASCII digits of `p`.
pub open spec fn leading_digits(p: Seq<char>) -> Seq<char>
    decreases p.len(),
{
    if p.len() > 0 && is_digit(p[0]) {
        seq![p[0]] + leading_digits(p.drop_first())
    } else {
        seq![]
    }
}

/// One dot-separated part of a version: its leading digits read as a `u64`,
/// or 0 when there are none or they do not fit.
pub open spec fn part_value(p: Seq<char>) -> u64 {
    let d = leading_digits(p);
    if d.len() == 0 || decimal_value(d) > u64::MAX {
        0
    } else {
        decimal_value(d) as u64
    }
}

/// A version string as the numbers it is compared by.
pub open spec fn version_numbers(v: Seq<char>) -> Seq<u64> {
    let parts = split(strip_v(v), '.');
    Seq::new(parts.len(), |i: int| part_value(parts[i]))
}

/// Whether `a` comes after `b` in the lexicographic order of number lists:
/// at the first place they differ `a` is larger, or `b` is a proper prefix of
/// `a`.
pub open spec fn seq_gt(a: Seq<u64>, b: Seq<u64>) -> bool
    decreases a.len(),
{
    if a.len() == 0 {
        false
    } else if b.len() == 0 {
        true
    } else if a[0] != b[0] {
        a[0] > b[0]
    } else {
        seq_gt(a.drop_first(), b.drop_first())
    }
}

/// The latest version, when it is numerically newer than the current one.
pub open spec fn newer_spec(latest: Seq<char>, current: Seq<char>) -> Option<Seq<char>> {
    if seq_gt(version_numbers(latest), version_numbers(current)) {
        Some(latest)
    } else {
        None
    }
}

proof fn lemma_leading_digits(p: Seq<char>, k: int)
    requires
        0 <= k <= p.len(),
        forall|j: int| 0 <= j < k ==> is_digit(#[trigger] p[j]),
        k == p.len() || !is_digit(p[k]),
    ensures
        leading_digits(p) == p.take(k),
    decreases p.len(),
{
    if k > 0 {
        assert forall|j: int| 0 <= j < k - 1 implies is_digit(#[trigger] p.drop_first()[j]) by {
            assert(p.drop_first()[j] == p[j + 1]);
        }
        lemma_leading_digits(p.drop_first(), k - 1);
        assert(seq![p[0]] + p.drop_first().take(k - 1) =~= p.take(k));
    } else {
        assert(p.take(0) =~= Seq::<char>::empty());
    }
}

proof fn lemma_decimal_value_grows(d: Seq<char>, e: Seq<char>)
    requires
        d.len() <= e.len(),
        d == e.take(d.len() as int),
    ensures
        decimal_value(d) <= decimal_value(e),
    decreases e.len(),
{
    if d.len() < e.len() {
        assert(e.drop_last().take(d.len() as int) =~= d);
        lemma_decimal_value_grows(d, e.drop_last());
    } else {
        assert(d =~= e);
    }
}

/// The number one version part is compared by.
fn part_number(p: &[char]) -> (n: u64)
    ensures
        n == part_value(p@),
{
    let mut k: usize = 0;
    let mut acc: u64 = 0;
    let mut overflow = false;
    while k < p.len() && '0' <= p[k] && p[k] <= '9'
        invariant
            k <= p@.len(),
            forall|j: int| 0 <= j < k ==> is_digit(#[trigger] p@[j]),
            !overflow ==> acc == decimal_value(p@.take(k as int)),
            overflow ==> decimal_value(p@.take(k as int)) > u64::MAX,
        decreases p@.len() - k,
    {
        let ghost prev = p@.take(k as int);
        let d = digit_of(p[k]);
        assert(p@.take(k + 1).drop_last() =~= prev);
        if !overflow {
            if acc > (u64::MAX - d) / 10 {
                overflow = true;
                assert(decimal_value(p@.take(k + 1)) > u64::MAX) by (nonlinear_arith)
                    requires
                        decimal_value(p@.take(k + 1)) == acc * 10 + d,
                        acc > (u64::MAX - d) / 10,
                        d <= 9,
                ;
            } else {
                assert(acc * 10 + d <= u64::MAX) by (nonlinear_arith)
                    requires
                        acc <= (u64::MAX - d) / 10,
                        d <= 9,
                ;
                acc = acc * 10 + d;
            }
        } else {
            assert(decimal_value(p@.take(k + 1)) >= decimal_value(prev) * 10) by (nonlinear_arith)
                requires
                    decimal_value(p@.take(k + 1)) == decimal_value(prev) * 10 + digit_value(p@[k as int]),
            ;
        }
        k = k + 1;
    }
    proof {
        lemma_leading_digits(p@, k as int);
    }
    if k == 0 || overflow {
        0
    } else {
        acc
    }
}

/// The numbers of a version string.
fn numbers_of(v: &str) -> (r: Vec<u64>)
    ensures
        r@ == version_numbers(v@),
{
    let cs = chars_of(v);
    let mut s: usize = 0;
    assert(cs@.skip(0) =~= cs@);
    while s < cs.len() && cs[s] == 'v'
        invariant
            s <= cs@.len(),
            strip_v(cs@.skip(s as int)) == strip_v(cs@),
        decreases cs@.len() - s,
    {
        assert(cs@.skip(s as int).drop_first() =~= cs@.skip(s + 1));
        s = s + 1;
    }
    let mut rest: Vec<char> = Vec::new();
    let mut j = s;
    while j < cs.len()
        invariant
            s <= j <= cs@.len(),
            rest@ == cs@.subrange(s as int, j as int),
        decreases cs@.len() - j,
    {
        rest.push(cs[j]);
        j = j + 1;
        assert(rest@ =~= cs@.subrange(s as int, j as int));
    }
    assert(rest@ =~= cs@.skip(s as int));
    assert(strip_v(rest@) == rest@);
    let parts = split_chars(rest.as_slice(), '.');
    let ghost pv = views(parts@);
    let mut r: Vec<u64> = Vec::new();
    let mut i: usize = 0;
    while i < parts.len()
        invariant
            pv == views(parts@),
            pv == split(strip_v(v@), '.'),
            i <= parts@.len(),
            r@.len() == i,
            forall|m: int| 0 <= m < i ==> r@[m] == part_value(#[trigger] pv[m]),
        decreases parts@.len() - i,
    {
        r.push(part_number(parts[i].as_slice()));
        i = i + 1;
    }
    assert(r@ =~= version_numbers(v@));
    r
}

/// Whether `a` is greater than `b` as lists of numbers.
fn greater(a: &Vec<u64>, b: &Vec<u64>) -> (g: bool)
    ensures
        g == seq_gt(a@, b@),
{
    let mut i: usize = 0;
    assert(a@.skip(0) =~= a@);
    assert(b@.skip(0) =~= b@);
    while i < a.len() && i < b.len() && a[i] == b[i]
        invariant
            i <= a@.len(),
            i <= b@.len(),
            seq_gt(a@, b@) == seq_gt(a@.skip(i as int), b@.skip(i as int)),
        decreases a@.len() - i,
    {
        assert(a@.skip(i as int).drop_first() =~= a@.skip(i + 1));
        assert(b@.skip(i as int).drop_first() =~= b@.skip(i + 1));
        i = i + 1;
    }
    if i == a.len() {
        false
    } else if i == b.len() {
        true
    } else {
        a[i] > b[i]
    }
}

/// The newest published version, when it is numerically newer than `current`.
/// Garbage reads as zeros, so it is never taken for a new release.
pub fn newer(latest: &str, current: &str) -> (r: Option<String>)
    ensures
        match newer_spec(latest@, current@) {
            Some(s) => r matches Some(x) && x@ == s,
            None => r is None,
        },
{
    let a = numbers_of(latest);
    let b = numbers_of(current);
    if greater(&a, &b) {
        Some(owned(latest))
    } else {
        None
    }
}

/// Whether a check made at `checked_at` still answers at `now` (both in
/// seconds since the epoch): less than a day has passed. A clock that went
/// backwards counts as no time passing.
pub fn cache_is_fresh(now: u64, checked_at: u64) -> (b: bool)
    ensures
        b == (if now >= checked_at { now - checked_at } else { 0 } < CHECK_EVERY_SECS),
{
    now.saturating_sub(checked_at) < CHECK_EVERY_SECS
}

proof fn lemma_seq_gt_irreflexive(a: Seq<u64>)
    ensures
        !seq_gt(a, a),
    decreases a.len(),
{
    if a.len() > 0 {
        lemma_seq_gt_irreflexive(a.drop_first());
    }
}

proof fn lemma_seq_gt_asymmetric(a: Seq<u64>, b: Seq<u64>)
    ensures
        !(seq_gt(a, b) && seq_gt(b, a)),
    decreases a.len(),
{
    if a.len() > 0 && b.len() > 0 && a[0] == b[0] {
        lemma_seq_gt_asymmetric(a.drop_first(), b.drop_first());
    }
}

proof fn lemma_seq_gt_transitive(a: Seq<u64>, b: Seq<u64>, c: Seq<u64>)
    requires
        seq_gt(a, b),
        seq_gt(b, c),
    ensures
        seq_gt(a, c),
    decreases a.len(),
{
    if a.len() > 0 && b.len() > 0 && c.len() > 0 && a[0] == b[0] && b[0] == c[0] {
        lemma_seq_gt_transitive(a.drop_first(), b.drop_first(), c.drop_first());
    }
}

/// A version is never newer than itself, so the running release is never
/// offered as an update.
pub proof fn law_same_version_is_not_newer(v: Seq<char>)
    ensures
        newer_spec(v, v) is None,
{
    lemma_seq_gt_irreflexive(version_numbers(v));
}

/// Of two versions at most one is newer than the other: an update is never
/// offered in both directions, so it never suggests a downgrade.
pub proof fn law_newer_is_one_way(a: Seq<char>, b: Seq<char>)
    ensures
        !(newer_spec(a, b) is Some && newer_spec(b, a) is Some),
{
    lemma_seq_gt_asymmetric(version_numbers(a), version_numbers(b));
}

/// Newer-than chains: if `a` is newer than `b` and `b` newer than `c`, then `a`
/// is newer than `c`.
pub proof fn law_newer_chains(a: Seq<char>, b: Seq<char>, c: Seq<char>)
    requires
        newer_spec(a, b) is Some,
        newer_spec(b, c) is Some,
    ensures
        newer_spec(a, c) is Some,
{
    lemma_seq_gt_transitive(version_numbers(a), version_numbers(b), version_numbers(c));
}

/// The last check remembered in the cache file's text: when it ran and the
/// newest release it saw, when the text holds both.
pub fn read_cache(raw: &str) -> (r: Option<(u64, String)>)
    ensures
        match (crate::json::json_u64_member(raw@, "checked_at"@), crate::json::json_str_member(raw@, "latest"@)) {
            (Some(at), Some(latest)) => r matches Some(c) && c.0 == at && c.1@ == latest,
            _ => r is None,
        },
{
    let at = crate::json::u64_member(raw, "checked_at");
    let latest = crate::json::str_member(raw, "latest");
    match (at, latest) {
        (Some(at), Some(latest)) => Some((at, latest)),
        _ => None,
    }
}

/// The newest release's tag, from the body of the releases endpoint.
pub fn latest_tag(body: &str) -> (r: Option<String>)
    ensures
        crate::registry::opt_view(r) == crate::json::json_str_member(body@, "tag_name"@),
{
    crate::json::str_member(body, "tag_name")
}

/// What the cache already answers, without asking the network: `Some` of the
/// answer (a newer release, or none) while the last check is fresh (a clock
/// that went backwards counts as no time passing), `None` when it is missing
/// or stale and the network must be asked.
pub fn cached_answer(now: u64, cache: &Option<(u64, String)>, current: &str) -> (r: Option<Option<String>>)
    ensures
        match cache {
            Some(c) => if (if now >= c.0 { now - c.0 } else { 0 }) < CHECK_EVERY_SECS {
                r matches Some(a) && crate::registry::opt_view(a) == newer_spec(c.1@, current@)
            } else {
                r is None
            },
            None => r is None,
        },
{
    match cache {
        Some(c) => {
            if cache_is_fresh(now, c.0) {
                Some(newer(c.1.as_str(), current))
            } else {
                None
            }
        },
        None => None,
    }
}

} // verus!
