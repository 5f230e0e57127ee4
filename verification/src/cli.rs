//! Small decisions the command line makes when it prints: how a commit,
//! a snippet, a title and a project are shown, and which tier a memory
//! scope writes to.

use vstd::prelude::*;
use vstd::utf8::encode_utf8;
use vstd::string::StringSliceAdditionalSpecFns;
use crate::text::{chars_of, owned, push_char, push_range, same_text, split, split_chars, string_of, trim, trim_bounds, views};
use crate::config::Embeddings;
use crate::registry::{facts, find_local, first_with_key, has_key, registry};
use crate::text::{decimal, join, push_decimal, push_str};
use crate::types::VectorMetadata;
use crate::central::ProjectRecord;
use vstd::utf8::decode_utf8;
use crate::rank::{key_less, key_lt, lemma_key_lt_asymmetric, lemma_key_lt_irreflexive, lemma_key_lt_total, lemma_key_lt_transitive};

verus! {

/// Whether byte `i` of the UTF-8 encoding of `s` starts a character (or is
/// its end).
pub open spec fn char_boundary(s: Seq<char>, i: int) -> bool {
    vstd::utf8::is_char_boundary(encode_utf8(s), i)
}

/// A commit as the tables show it: its first eight bytes, `(no commit)` when
/// there is none, and the whole of a shorter one.
pub fn short_commit(commit: &str) -> (r: &str)
    requires
        encode_utf8(commit@).len() <= usize::MAX,
        encode_utf8(commit@).len() >= 8 ==> char_boundary(commit@, 8),
    ensures
        encode_utf8(commit@).len() >= 8 ==> encode_utf8(r@) == encode_utf8(commit@).take(8),
        encode_utf8(commit@).len() < 8 && commit@.len() == 0 ==> r@ == "(no commit)"@,
        encode_utf8(commit@).len() < 8 && commit@.len() > 0 ==> r@ == commit@,
{
    if commit.len() >= 8 {
        let (head, _) = commit.split_at(8);
        assert(head.spec_bytes() == encode_utf8(head@));
        assert(commit.spec_bytes() == encode_utf8(commit@));
        assert(encode_utf8(commit@).subrange(0, 8) =~= encode_utf8(commit@).take(8));
        head
    } else if commit.is_empty() {
        "(no commit)"
    } else {
        commit
    }
}

/// The first line of `text`, trimmed.
pub open spec fn first_line(text: Seq<char>) -> Seq<char> {
    trim(split(text, '\n')[0])
}

/// A one-line snippet of `text`: its first line, trimmed, cut to `max`
/// characters with `…` when it is longer.
pub open spec fn snippet_spec(text: Seq<char>, max: nat) -> Seq<char> {
    let line = first_line(text);
    if line.len() > max {
        line.take(max as int).push('…')
    } else {
        line
    }
}

/// A one-line snippet of `text`, truncated to `max` chars.
pub fn snippet(text: &str, max: usize) -> (r: String)
    ensures
        r@ == snippet_spec(text@, max as nat),
{
    let v = chars_of(text);
    let parts = split_chars(v.as_slice(), '\n');
    assert(split(text@, '\n').len() >= 1);
    let first = &parts[0];
    assert(first@ == split(text@, '\n')[0]);
    let (b, e) = trim_bounds(first.as_slice());
    let mut r = String::new();
    if e - b > max {
        push_range(&mut r, first.as_slice(), b, b + max);
        push_char(&mut r, '…');
        assert(first@.subrange(b as int, b + max) =~= first@.subrange(b as int, e as int).take(max as int));
    } else {
        push_range(&mut r, first.as_slice(), b, e);
    }
    r
}

/// A memory's title as listed, `(untitled)` when it has none.
pub fn title_or_untitled(title: &str) -> (r: String)
    ensures
        r@ == if title@.len() == 0 { "(untitled)"@ } else { title@ },
{
    if title.is_empty() {
        owned("(untitled)")
    } else {
        owned(title)
    }
}

/// The project name memories are scoped by: the configured name, else
/// `default`.
pub fn project_name(cfg: &crate::config::ProjectConfig) -> (r: String)
    ensures
        r@ == if cfg.project.name@.len() > 0 { cfg.project.name@ } else { "default"@ },
{
    if !cfg.project.name.as_str().is_empty() {
        owned(cfg.project.name.as_str())
    } else {
        owned("default")
    }
}

/// Which memories a command works on.
#[derive(Debug, Clone, Copy, PartialEq, Eq, Structural)]
pub enum MemoryScope {
    /// This project only.
    Local,
    /// The repositories of this project's group.
    Group,
    /// The shared central store, visible from every project.
    Global,
    /// Every tier that applies, fused by rank.
    All,
}

/// The tier a memory is written to: `all` is a recall filter, not a place to
/// write, so it writes locally, as the server does with anything it does not
/// recognise.
pub fn scope_name(scope: MemoryScope) -> (s: &'static str)
    ensures
        s@ == match scope {
            MemoryScope::Local => "local"@,
            MemoryScope::Group => "group"@,
            MemoryScope::Global => "global"@,
            MemoryScope::All => "local"@,
        },
{
    match scope {
        MemoryScope::Local => "local",
        MemoryScope::Group => "group",
        MemoryScope::Global => "global",
        MemoryScope::All => "local",
    }
}

/// How many of `names` are `n`.
pub open spec fn occurrences(names: Seq<String>, n: Seq<char>) -> nat
    decreases names.len(),
{
    if names.len() == 0 {
        0
    } else {
        occurrences(names.drop_last(), n) + if names.last()@ == n { 1nat } else { 0nat }
    }
}

/// `a` is listed before `b`: it is used more often, or as often with a name
/// that sorts first.
pub open spec fn used_before(a: (Seq<char>, nat), b: (Seq<char>, nat)) -> bool {
    a.1 > b.1 || (a.1 == b.1 && key_lt(a.0, b.0))
}

/// An entry of a usage table as its name and count.
pub open spec fn entry(e: (String, usize)) -> (Seq<char>, nat) {
    (e.0@, e.1 as nat)
}

/// `r` is the usage table of `names`: every non-empty name once, with how
/// many times it occurs, commonest first and ties by name.
pub open spec fn is_usage_table(names: Seq<String>, r: Seq<(String, usize)>) -> bool {
    &&& forall|i: int| 0 <= i < r.len() ==> (#[trigger] r[i]).0@.len() > 0 && r[i].1 == occurrences(names, r[i].0@)
    &&& forall|k: int| 0 <= k < names.len() && (#[trigger] names[k])@.len() > 0 ==>
            exists|i: int| 0 <= i < r.len() && (#[trigger] r[i]).0@ == names[k]@
    &&& forall|i: int, j: int| 0 <= i < j < r.len() ==> used_before(entry(#[trigger] r[i]), entry(#[trigger] r[j]))
}

proof fn lemma_occurrences_bound(names: Seq<String>, n: Seq<char>)
    ensures
        occurrences(names, n) <= names.len(),
    decreases names.len(),
{
    if names.len() > 0 {
        lemma_occurrences_bound(names.drop_last(), n);
    }
}

/// `used_before` orders entries with distinct names strictly and totally.
proof fn lemma_used_before_order(a: (Seq<char>, nat), b: (Seq<char>, nat), c: (Seq<char>, nat))
    ensures
        !used_before(a, a),
        !(used_before(a, b) && used_before(b, a)),
        used_before(a, b) && used_before(b, c) ==> used_before(a, c),
        a.0 != b.0 ==> used_before(a, b) || used_before(b, a),
{
    lemma_key_lt_irreflexive(a.0);
    lemma_key_lt_asymmetric(a.0, b.0);
    if key_lt(a.0, b.0) && key_lt(b.0, c.0) {
        lemma_key_lt_transitive(a.0, b.0, c.0);
    }
    if a.0 != b.0 {
        lemma_key_lt_total(a.0, b.0);
    }
}

/// Exec twin of [`key_lt`] on strings.
fn text_less(a: &str, b: &str) -> (r: bool)
    ensures
        r == key_lt(a@, b@),
{
    let va = chars_of(a);
    let vb = chars_of(b);
    key_less(va.as_slice(), vb.as_slice())
}

/// The distinct non-empty names, in the order they first appear, each with
/// how many times it occurs.
fn count_uses(names: &Vec<String>) -> (r: (Vec<String>, Vec<usize>))
    ensures
        r.0@.len() == r.1@.len(),
        forall|i: int| 0 <= i < r.0@.len() ==> (#[trigger] r.0@[i])@.len() > 0 && r.1@[i] == occurrences(names@, r.0@[i]@),
        forall|i: int, j: int| 0 <= i < j < r.0@.len() ==> (#[trigger] r.0@[i])@ != (#[trigger] r.0@[j])@,
        forall|k: int| 0 <= k < names@.len() && (#[trigger] names@[k])@.len() > 0 ==>
            exists|i: int| 0 <= i < r.0@.len() && (#[trigger] r.0@[i])@ == names@[k]@,
{
    let mut keys: Vec<String> = Vec::new();
    let mut counts: Vec<usize> = Vec::new();
    let mut k: usize = 0;
    while k < names.len()
        invariant
            k <= names@.len(),
            keys@.len() == counts@.len(),
            forall|i: int| 0 <= i < keys@.len() ==> (#[trigger] keys@[i])@.len() > 0 && counts@[i] == occurrences(names@.take(k as int), keys@[i]@),
            forall|i: int, j: int| 0 <= i < j < keys@.len() ==> (#[trigger] keys@[i])@ != (#[trigger] keys@[j])@,
            forall|m: int| 0 <= m < k && (#[trigger] names@[m])@.len() > 0 ==>
                exists|i: int| 0 <= i < keys@.len() && (#[trigger] keys@[i])@ == names@[m]@,
        decreases names@.len() - k,
    {
        let ghost before = names@.take(k as int);
        let ghost after = names@.take(k + 1);
        assert(after.drop_last() =~= before);
        assert(after.last() == names@[k as int]);
        proof {
            lemma_occurrences_bound(before, names@[k as int]@);
        }
        let name = names[k].as_str();
        if !name.is_empty() {
            let pos = position_of(&keys, name);
            let ghost old_keys = keys@;
            if let Some(x) = pos {
                assert(keys@[x as int]@ == name@);
                proof {
                    lemma_occurrences_bound(before, keys@[x as int]@);
                }
                let c = counts[x];
                counts.set(x, c + 1);
                assert forall|m: int| 0 <= m < k + 1 && (#[trigger] names@[m])@.len() > 0 implies
                    exists|i: int| 0 <= i < keys@.len() && (#[trigger] keys@[i])@ == names@[m]@ by {
                    if m == k {
                        assert(keys@[x as int]@ == names@[m]@);
                    }
                }
            } else {
                keys.push(owned(name));
                counts.push(1);
                proof {
                    let n = keys@.len() - 1;
                    assert forall|m: int| 0 <= m < before.len() implies (#[trigger] before[m])@ != name@ || before[m]@.len() == 0 by {
                        assert(before[m] == names@[m]);
                        if names@[m]@.len() > 0 {
                            let i = choose|i: int| 0 <= i < old_keys.len() && (#[trigger] old_keys[i])@ == names@[m]@;
                            assert(old_keys[i]@ != name@);
                        }
                    }
                    assert(occurrences(before, name@) == 0) by {
                        lemma_absent_occurrences(before, name@);
                    }
                    assert forall|m: int| 0 <= m < k + 1 && (#[trigger] names@[m])@.len() > 0 implies
                        exists|i: int| 0 <= i < keys@.len() && (#[trigger] keys@[i])@ == names@[m]@ by {
                        if m == k {
                            assert(keys@[n]@ == names@[m]@);
                        } else {
                            let i = choose|i: int| 0 <= i < old_keys.len() && (#[trigger] old_keys[i])@ == names@[m]@;
                            assert(keys@[i] == old_keys[i]);
                        }
                    }
                }
            }
        } else {
            assert forall|m: int| 0 <= m < k + 1 && (#[trigger] names@[m])@.len() > 0 implies
                exists|i: int| 0 <= i < keys@.len() && (#[trigger] keys@[i])@ == names@[m]@ by {
                if m < k {
                }
            }
        }
        k = k + 1;
    }
    assert(names@.take(names@.len() as int) =~= names@);
    (keys, counts)
}

/// Where `name` is among `keys`, if it is there.
fn position_of(keys: &Vec<String>, name: &str) -> (r: Option<usize>)
    ensures
        r matches Some(x) ==> x < keys@.len() && keys@[x as int]@ == name@,
        r is None ==> forall|y: int| 0 <= y < keys@.len() ==> (#[trigger] keys@[y])@ != name@,
{
    let mut x: usize = 0;
    while x < keys.len()
        invariant
            x <= keys@.len(),
            forall|y: int| 0 <= y < x ==> (#[trigger] keys@[y])@ != name@,
        decreases keys@.len() - x,
    {
        if same_text(keys[x].as_str(), name) {
            return Some(x);
        }
        x = x + 1;
    }
    None
}

/// A name that none of the listed names equals occurs nowhere among them.
proof fn lemma_absent_occurrences(names: Seq<String>, n: Seq<char>)
    requires
        forall|m: int| 0 <= m < names.len() ==> (#[trigger] names[m])@ != n || names[m]@.len() == 0,
        n.len() > 0,
    ensures
        occurrences(names, n) == 0,
    decreases names.len(),
{
    if names.len() > 0 {
        let rest = names.drop_last();
        assert forall|m: int| 0 <= m < rest.len() implies (#[trigger] rest[m])@ != n || rest[m]@.len() == 0 by {
            assert(rest[m] == names[m]);
        }
        lemma_absent_occurrences(rest, n);
    }
}

/// Some entry of `from` is `a`.
spec fn placed(from: Seq<int>, a: int) -> bool {
    exists|q: int| 0 <= q < from.len() && #[trigger] from[q] == a
}

/// The usage table of `names` (see [`is_usage_table`]).
fn usage_table(names: &Vec<String>) -> (r: Vec<(String, usize)>)
    ensures
        is_usage_table(names@, r@),
{
    let (keys, counts) = count_uses(names);
    let mut out: Vec<(String, usize)> = Vec::new();
    let ghost mut from: Seq<int> = seq![];
    let mut i: usize = 0;
    while i < keys.len()
        invariant
            i <= keys@.len(),
            keys@.len() == counts@.len(),
            forall|a: int| 0 <= a < keys@.len() ==> (#[trigger] keys@[a])@.len() > 0 && counts@[a] == occurrences(names@, keys@[a]@),
            forall|a: int, b: int| 0 <= a < b < keys@.len() ==> (#[trigger] keys@[a])@ != (#[trigger] keys@[b])@,
            out@.len() == from.len(),
            forall|q: int| 0 <= q < out@.len() ==> 0 <= #[trigger] from[q] < i
                && out@[q].0@ == keys@[from[q]]@ && out@[q].1 == counts@[from[q]],
            forall|a: int| 0 <= a < i ==> #[trigger] placed(from, a),
            forall|p: int, q: int| 0 <= p < q < out@.len() ==> used_before(entry(#[trigger] out@[p]), entry(#[trigger] out@[q])),
        decreases keys@.len() - i,
    {
        let key = keys[i].as_str();
        let count = counts[i];
        let ghost e = (key@, count as nat);
        let mut p: usize = 0;
        while p < out.len()
            invariant
                p <= out@.len(),
                i < keys@.len(),
                keys@.len() == counts@.len(),
                key@ == keys@[i as int]@,
                count == counts@[i as int],
                e == (keys@[i as int]@, counts@[i as int] as nat),
                forall|q: int| 0 <= q < p ==> !used_before(e, entry(#[trigger] out@[q])),
            ensures
                p <= out@.len(),
                forall|q: int| 0 <= q < p ==> !used_before(e, entry(#[trigger] out@[q])),
                p < out@.len() ==> used_before(e, entry(out@[p as int])),
            decreases out@.len() - p,
        {
            let other = out[p].0.as_str();
            let less = text_less(key, other);
            let before = count > out[p].1 || (count == out[p].1 && less);
            assert(before == used_before(e, entry(out@[p as int])));
            if before {
                break;
            }
            p = p + 1;
        }
        let ghost old_out = out@;
        let ghost old_from = from;
        out.insert(p, (owned(key), count));
        proof {
            from = old_from.insert(p as int, i as int);
            assert forall|q: int| 0 <= q < out@.len() implies 0 <= #[trigger] from[q] < i + 1
                && out@[q].0@ == keys@[from[q]]@ && out@[q].1 == counts@[from[q]] by {
                if q < p {
                    assert(out@[q] == old_out[q]);
                    assert(from[q] == old_from[q]);
                } else if q > p {
                    assert(out@[q] == old_out[q - 1]);
                    assert(from[q] == old_from[q - 1]);
                }
            }
            assert forall|a: int| 0 <= a < i + 1 implies #[trigger] placed(from, a) by {
                if a == i {
                    assert(from[p as int] == a);
                } else {
                    assert(placed(old_from, a));
                    let q0 = choose|q: int| 0 <= q < old_from.len() && #[trigger] old_from[q] == a;
                    if q0 < p {
                        assert(from[q0] == a);
                    } else {
                        assert(from[q0 + 1] == a);
                    }
                }
            }
            assert forall|a: int, b: int| 0 <= a < b < out@.len() implies used_before(entry(#[trigger] out@[a]), entry(#[trigger] out@[b])) by {
                let ea = entry(out@[a]);
                let eb = entry(out@[b]);
                if a < p && b < p {
                    assert(out@[a] == old_out[a] && out@[b] == old_out[b]);
                } else if a > p && b > p {
                    assert(out@[a] == old_out[a - 1] && out@[b] == old_out[b - 1]);
                } else if a < p && b > p {
                    assert(out@[a] == old_out[a] && out@[b] == old_out[b - 1]);
                } else if a == p {
                    // the new entry precedes what was at p, hence all after it
                    assert(ea == e);
                    assert(out@[b] == old_out[b - 1]);
                    assert(used_before(e, entry(old_out[p as int])));
                    if b - 1 > p {
                        assert(used_before(entry(old_out[p as int]), entry(old_out[b - 1])));
                        lemma_used_before_order(e, entry(old_out[p as int]), entry(old_out[b - 1]));
                    }
                } else {
                    // b == p: everything before the new entry does not follow it
                    assert(eb == e);
                    assert(out@[a] == old_out[a]);
                    assert(!used_before(e, entry(old_out[a])));
                    assert(old_from[a] != i);
                    assert(keys@[old_from[a]]@ != keys@[i as int]@);
                    lemma_used_before_order(entry(old_out[a]), e, e);
                }
            }
        }
        i = i + 1;
    }
    proof {
        assert forall|q: int| 0 <= q < out@.len() implies (#[trigger] out@[q]).0@.len() > 0 && out@[q].1 == occurrences(names@, out@[q].0@) by {
            assert(0 <= from[q] < keys@.len());
        }
        assert forall|k: int| 0 <= k < names@.len() && (#[trigger] names@[k])@.len() > 0 implies
            exists|q: int| 0 <= q < out@.len() && (#[trigger] out@[q]).0@ == names@[k]@ by {
            let a = choose|a: int| 0 <= a < keys@.len() && (#[trigger] keys@[a])@ == names@[k]@;
            assert(placed(from, a));
            let q = choose|q: int| 0 <= q < from.len() && #[trigger] from[q] == a;
            assert(out@[q].0@ == names@[k]@);
        }
    }
    out
}

/// How many registered projects use each embedding model, commonest first
/// (ties by name), given each project's model; projects with no model
/// recorded are not counted.
pub fn models_in_use(models: &Vec<String>) -> (r: Vec<(String, usize)>)
    ensures
        is_usage_table(models@, r@),
{
    usage_table(models)
}

/// The groups already in use, with how many repositories each holds,
/// commonest first (ties by name), given each project's group; a project in
/// no group is not counted.
pub fn groups_in_use(groups: &Vec<String>) -> (r: Vec<(String, usize)>)
    ensures
        is_usage_table(groups@, r@),
{
    usage_table(groups)
}

/// The first registered project named `name`, as its name and path.
pub open spec fn lookup(registered: Seq<(String, String)>, name: Seq<char>) -> Option<(Seq<char>, Seq<char>)>
    decreases registered.len(),
{
    if registered.len() == 0 {
        None
    } else {
        match lookup(registered.drop_last(), name) {
            Some(t) => Some(t),
            None => if registered.last().0@ == name {
                Some((registered.last().0@, registered.last().1@))
            } else {
                None
            },
        }
    }
}

/// The refusal for a name nothing is registered under.
pub open spec fn unregistered_message(name: Seq<char>) -> Seq<char> {
    "no registered project named `"@ + name + "`"@
}

/// The projects `names` pick from the registry, in the order named; the
/// first name nothing is registered under is refused.
pub open spec fn named_targets(names: Seq<String>, registered: Seq<(String, String)>) -> Result<Seq<(Seq<char>, Seq<char>)>, Seq<char>>
    decreases names.len(),
{
    if names.len() == 0 {
        Ok(seq![])
    } else {
        match named_targets(names.drop_last(), registered) {
            Err(e) => Err(e),
            Ok(v) => match lookup(registered, names.last()@) {
                Some(t) => Ok(v.push(t)),
                None => Err(unregistered_message(names.last()@)),
            },
        }
    }
}

/// Name and path of each pair.
pub open spec fn pair_views(v: Seq<(String, String)>) -> Seq<(Seq<char>, Seq<char>)> {
    v.map_values(|p: (String, String)| (p.0@, p.1@))
}

proof fn lemma_lookup_prefix(registered: Seq<(String, String)>, j: int, name: Seq<char>)
    requires
        0 <= j <= registered.len(),
        lookup(registered.take(j), name) is Some,
    ensures
        lookup(registered, name) == lookup(registered.take(j), name),
    decreases registered.len() - j,
{
    if j < registered.len() {
        assert(registered.take(j + 1).drop_last() =~= registered.take(j));
        lemma_lookup_prefix(registered, j + 1, name);
    } else {
        assert(registered.take(j) =~= registered);
    }
}

fn find_registered(registered: &Vec<(String, String)>, name: &str) -> (r: Option<(String, String)>)
    ensures
        match lookup(registered@, name@) {
            Some(t) => r matches Some(x) && x.0@ == t.0 && x.1@ == t.1,
            None => r is None,
        },
{
    let mut x: usize = 0;
    while x < registered.len()
        invariant
            x <= registered@.len(),
            lookup(registered@.take(x as int), name@) is None,
        decreases registered@.len() - x,
    {
        assert(registered@.take(x + 1).drop_last() =~= registered@.take(x as int));
        if same_text(registered[x].0.as_str(), name) {
            proof {
                lemma_lookup_prefix(registered@, x + 1, name@);
            }
            return Some((owned(registered[x].0.as_str()), owned(registered[x].1.as_str())));
        }
        x = x + 1;
    }
    assert(registered@.take(x as int) =~= registered@);
    None
}

proof fn lemma_named_targets_prefix_err(names: Seq<String>, registered: Seq<(String, String)>, j: int)
    requires
        0 <= j <= names.len(),
        named_targets(names.take(j), registered) is Err,
    ensures
        named_targets(names, registered) == named_targets(names.take(j), registered),
    decreases names.len() - j,
{
    if j < names.len() {
        assert(names.take(j + 1).drop_last() =~= names.take(j));
        lemma_named_targets_prefix_err(names, registered, j + 1);
    } else {
        assert(names.take(j) =~= names);
    }
}

/// The registered projects a re-index across the registry works on: every
/// one with `all`, else those `names` picks (see [`named_targets`]). Naming
/// none without `all` means the current project, which is the caller's to
/// resolve; this then picks nothing.
pub fn registered_targets(all: bool, names: &Vec<String>, registered: &Vec<(String, String)>) -> (r: Result<Vec<(String, String)>, String>)
    ensures
        all ==> (r matches Ok(v) && pair_views(v@) == pair_views(registered@)),
        !all ==> match named_targets(names@, registered@) {
            Ok(t) => r matches Ok(v) && pair_views(v@) == t,
            Err(e) => r matches Err(m) && m@ == e,
        },
{
    let mut out: Vec<(String, String)> = Vec::new();
    if all {
        let mut i: usize = 0;
        while i < registered.len()
            invariant
                i <= registered@.len(),
                out@.len() == i,
                pair_views(out@) == pair_views(registered@.take(i as int)),
            decreases registered@.len() - i,
        {
            let ghost prev = out@;
            out.push((owned(registered[i].0.as_str()), owned(registered[i].1.as_str())));
            assert forall|j: int| 0 <= j < i + 1 implies #[trigger] pair_views(out@)[j] == pair_views(registered@.take(i + 1))[j] by {
                if j < i {
                    assert(out@[j] == prev[j]);
                    assert(pair_views(prev)[j] == pair_views(registered@.take(i as int))[j]);
                }
            }
            assert(pair_views(out@) =~= pair_views(registered@.take(i + 1)));
            i = i + 1;
        }
        assert(registered@.take(i as int) =~= registered@);
        return Ok(out);
    }
    let mut k: usize = 0;
    assert(names@.take(0) =~= seq![]);
    assert(pair_views(out@) =~= seq![]);
    while k < names.len()
        invariant
            k <= names@.len(),
            !all,
            named_targets(names@.take(k as int), registered@) == Ok::<Seq<(Seq<char>, Seq<char>)>, Seq<char>>(pair_views(out@)),
        decreases names@.len() - k,
    {
        assert(names@.take(k + 1).drop_last() =~= names@.take(k as int));
        match find_registered(registered, names[k].as_str()) {
            Some(t) => {
                let ghost prev = out@;
                out.push(t);
                assert(pair_views(out@) =~= pair_views(prev).push((t.0@, t.1@)));
            },
            None => {
                let mut m = owned("no registered project named `");
                push_str(&mut m, names[k].as_str());
                push_str(&mut m, "`");
                proof {
                    lemma_named_targets_prefix_err(names@, registered@, k + 1);
                }
                return Err(m);
            },
        }
        k = k + 1;
    }
    assert(names@.take(k as int) =~= names@);
    Ok(out)
}

/// The registry entry a model key names (the first with that key).
pub open spec fn model_entry(key: Seq<char>) -> crate::registry::ModelFacts {
    registry()[choose|i: int| first_with_key(key, i)]
}

/// The refusal for a key the registry does not know.
pub open spec fn unknown_model_message(key: Seq<char>) -> Seq<char> {
    "unknown model `"@ + key + "`; run `devctx models` to see what there is"@
}

/// The refusal for a user-defined model whose files are not downloaded.
pub open spec fn missing_files_message(key: Seq<char>) -> Seq<char> {
    "`"@ + key + "` is a user-defined ONNX model and its files are not on this machine yet. Run `devctx models download "@
        + key + "` first."@
}

/// `e` is `base` switched to the local model `key` loaded from `dir`.
pub open spec fn switched_to(e: Embeddings, base: Embeddings, key: Seq<char>, dir: Seq<char>) -> bool {
    e.provider@ == "local"@ && e.model@ == key && e.model_dir@ == dir && e.offline == base.offline
}

/// Resolve `--model` into an embeddings section, refusing what cannot work:
/// a key the registry does not know, and a user-defined ONNX model whose files
/// are not downloaded (`local_dir` is where they were found, if they were).
/// A built-in model needs no directory.
pub fn choose_model(key: &str, base: &Embeddings, local_dir: Option<&str>) -> (r: Result<Embeddings, String>)
    ensures
        !has_key(key@) ==> (r matches Err(m) && m@ == unknown_model_message(key@)),
        has_key(key@) && model_entry(key@).builtin is Some ==> (r matches Ok(e) && switched_to(e, *base, key@, seq![])),
        has_key(key@) && model_entry(key@).builtin is None ==> match local_dir {
            Some(d) => r matches Ok(e) && switched_to(e, *base, key@, d@),
            None => r matches Err(m) && m@ == missing_files_message(key@),
        },
{
    match find_local(key) {
        None => {
            let mut m = owned("unknown model `");
            push_str(&mut m, key);
            push_str(&mut m, "`; run `devctx models` to see what there is");
            Err(m)
        },
        Some(spec) => {
            proof {
                let i = choose|i: int| first_with_key(key@, i) && facts(spec) == #[trigger] registry()[i];
                let j = choose|j: int| first_with_key(key@, j);
                assert(registry()[j].key == key@);
                assert(i == j) by {
                    if i < j {
                        assert(registry()[i].key != key@);
                    } else if j < i {
                        assert(registry()[j].key != key@);
                    }
                }
            }
            let dir = match spec.builtin {
                Some(_) => String::new(),
                None => match local_dir {
                    Some(d) => owned(d),
                    None => {
                        let mut m = owned("`");
                        push_str(&mut m, key);
                        push_str(&mut m, "` is a user-defined ONNX model and its files are not on this machine yet. Run `devctx models download ");
                        push_str(&mut m, key);
                        push_str(&mut m, "` first.");
                        return Err(m);
                    },
                },
            };
            Ok(Embeddings { provider: owned("local"), model: owned(key), model_dir: dir, offline: base.offline })
        },
    }
}

/// The branch `devctx index` works on: an explicit `--branch` wins;
/// otherwise the project's declared default; otherwise none, meaning
/// whatever is checked out.
pub fn branch_to_index(explicit: Option<String>, cfg: &crate::config::ProjectConfig) -> (b: Option<String>)
    ensures
        match explicit {
            Some(e) => b == Some(e),
            None => if cfg.indexing.branches@.len() > 0 {
                b matches Some(x) && x@ == cfg.indexing.branches@[0]@
            } else {
                b is None
            },
        },
{
    match explicit {
        Some(e) => Some(e),
        None => match cfg.indexing.default_branch() {
            Some(d) => Some(owned(d)),
            None => None,
        },
    }
}

/// The line summarising what a run did to the files.
pub open spec fn run_line_spec(r: crate::pipeline::IndexResult) -> Seq<char> {
    "  "@ + (if r.full_reindex { "full reindex"@ } else { "incremental"@ }) + " ("@ + decimal(r.files_indexed as nat)
        + " files, "@ + decimal(r.files_skipped as nat) + " skipped, "@ + decimal(r.files_deleted as nat)
        + " deleted, "@ + decimal(r.files_pruned as nat) + " pruned, "@ + decimal(r.files_renamed as nat) + " renamed)"@
}

/// What a run did to the files, as `devctx index` prints it.
pub fn run_line(r: &crate::pipeline::IndexResult) -> (s: String)
    ensures
        s@ == run_line_spec(*r),
{
    let mut s = owned("  ");
    push_str(&mut s, if r.full_reindex { "full reindex" } else { "incremental" });
    push_str(&mut s, " (");
    push_decimal(&mut s, r.files_indexed as u64);
    push_str(&mut s, " files, ");
    push_decimal(&mut s, r.files_skipped as u64);
    push_str(&mut s, " skipped, ");
    push_decimal(&mut s, r.files_deleted as u64);
    push_str(&mut s, " deleted, ");
    push_decimal(&mut s, r.files_pruned as u64);
    push_str(&mut s, " pruned, ");
    push_decimal(&mut s, r.files_renamed as u64);
    push_str(&mut s, " renamed)");
    s
}

/// A line number as `{}` prints an `i32`.
pub open spec fn signed_decimal(n: i32) -> Seq<char> {
    if n < 0 {
        seq!['-'] + decimal((-(n as int)) as nat)
    } else {
        decimal(n as nat)
    }
}

fn push_signed(s: &mut String, n: i32)
    ensures
        final(s)@ == old(s)@ + signed_decimal(n),
{
    if n < 0 {
        push_char(s, '-');
        let m: u64 = (-(n as i64)) as u64;
        push_decimal(s, m);
        assert(old(s)@.push('-') + decimal(m as nat) =~= old(s)@ + (seq!['-'] + decimal(m as nat)));
    } else {
        push_decimal(s, n as u64);
    }
}

/// One row of the search table: the score as it was printed (three places),
/// then `file:start-end`, the symbol (`-` when there is none) and the chunk
/// level in brackets.
pub open spec fn hit_line(score: Seq<char>, m: VectorMetadata) -> Seq<char> {
    score + seq![' ', ' '] + m.file@ + seq![':'] + signed_decimal(m.start_line) + seq!['-']
        + signed_decimal(m.end_line) + seq![' ', ' ']
        + (if m.symbol@.len() == 0 { seq!['-'] } else { m.symbol@ })
        + seq![' ', '['] + m.chunk_level@ + seq![']']
}

/// The rows of a table of hits.
pub open spec fn hit_lines(hits: Seq<(String, VectorMetadata)>) -> Seq<Seq<char>> {
    Seq::new(hits.len(), |i: int| hit_line(hits[i].0@, hits[i].1))
}

fn push_hit_line(s: &mut String, score: &str, m: &VectorMetadata)
    ensures
        final(s)@ == old(s)@ + hit_line(score@, *m),
{
    push_str(s, score);
    push_char(s, ' ');
    push_char(s, ' ');
    push_str(s, m.file.as_str());
    push_char(s, ':');
    push_signed(s, m.start_line);
    push_char(s, '-');
    push_signed(s, m.end_line);
    push_char(s, ' ');
    push_char(s, ' ');
    if m.symbol.as_str().is_empty() {
        push_char(s, '-');
    } else {
        push_str(s, m.symbol.as_str());
    }
    push_char(s, ' ');
    push_char(s, '[');
    push_str(s, m.chunk_level.as_str());
    push_char(s, ']');
    assert(final(s)@ =~= old(s)@ + hit_line(score@, *m));
}

/// Search hits as a table, one row per hit in the order given, or
/// `No results.` when there are none. Each hit is its score, already printed
/// to three places, and the metadata of the chunk it found.
pub fn render_table(hits: &[(String, VectorMetadata)]) -> (t: String)
    ensures
        hits@.len() == 0 ==> t@ == "No results."@,
        hits@.len() > 0 ==> t@ == join(hit_lines(hits@), seq!['\n']),
{
    if hits.len() == 0 {
        return owned("No results.");
    }
    let mut s = String::new();
    let mut i: usize = 0;
    while i < hits.len()
        invariant
            i <= hits@.len(),
            s@ == join(hit_lines(hits@).take(i as int), seq!['\n']),
        decreases hits@.len() - i,
    {
        let ghost before = hit_lines(hits@).take(i as int);
        if i > 0 {
            push_char(&mut s, '\n');
        }
        push_hit_line(&mut s, hits[i].0.as_str(), &hits[i].1);
        i = i + 1;
        proof {
            let after = hit_lines(hits@).take(i as int);
            assert(after.drop_last() =~= before);
            assert(after.last() == hit_line(hits@[i - 1].0@, hits@[i - 1].1));
            if i > 1 {
                assert(join(after, seq!['\n']) == join(before, seq!['\n']) + seq!['\n'] + after.last());
                assert(s@ =~= join(after, seq!['\n']));
            } else {
                assert(before.len() == 0);
                assert(join(after, seq!['\n']) == after[0]);
                assert(s@ =~= join(after, seq!['\n']));
            }
        }
    }
    assert(hit_lines(hits@).take(hits@.len() as int) =~= hit_lines(hits@));
    s
}

/// Which store holds the memories of a scope, and under which tier.
#[derive(Debug, Clone, PartialEq, Eq)]
pub enum ScopeStore {
    /// This project's own store, under the project's name.
    Project(String),
    /// The central store, under the project's group.
    Group(String),
    /// The central store, in the tier every project shares.
    Global,
}

impl ScopeStore {
    /// Whether the tier lives in the central store rather than the project's.
    pub fn is_central(&self) -> (b: bool)
        ensures
            b == !(self is Project),
    {
        match self {
            ScopeStore::Project(_) => false,
            _ => true,
        }
    }
}

/// What refusing a scope name says.
pub open spec fn unknown_scope_message(scope: Seq<char>) -> Seq<char> {
    "unknown scope `"@ + scope + "`; expected local, group or global"@
}

/// The tier a scope name names, for a project with this configuration:
/// `local` is the project's own store, `group` its group in the central store
/// (refused when the project declares no group) and `global` the shared tier.
pub fn scope_store(cfg: &crate::config::ProjectConfig, scope: &str) -> (r: Result<ScopeStore, String>)
    ensures
        scope@ == "local"@ ==> (r matches Ok(ScopeStore::Project(n))
            && n@ == (if cfg.project.name@.len() > 0 { cfg.project.name@ } else { "default"@ })),
        scope@ == "global"@ ==> r == Ok::<ScopeStore, String>(ScopeStore::Global),
        scope@ == "group"@ && cfg.project.group@.len() > 0 ==>
            (r matches Ok(ScopeStore::Group(g)) && g@ == cfg.project.group@),
        scope@ == "group"@ && cfg.project.group@.len() == 0 ==> (r matches Err(m)
            && m@ == "this project declares no group; set `project.group` in its config, or use --scope local or --scope global"@),
        scope@ != "local"@ && scope@ != "global"@ && scope@ != "group"@ ==>
            (r matches Err(m) && m@ == unknown_scope_message(scope@)),
{
    proof {
        reveal_strlit("local");
        reveal_strlit("global");
        reveal_strlit("group");
        assert("local"@ != "global"@ && "local"@ != "group"@ && "global"@ != "group"@) by {
            assert("local"@.len() == 5 && "global"@.len() == 6 && "group"@.len() == 5);
            assert("local"@[0] == 'l' && "group"@[0] == 'g');
        }
    }
    if same_text(scope, "local") {
        Ok(ScopeStore::Project(project_name(cfg)))
    } else if same_text(scope, "global") {
        Ok(ScopeStore::Global)
    } else if same_text(scope, "group") {
        if cfg.project.group.as_str().is_empty() {
            Err(owned("this project declares no group; set `project.group` in its config, or use --scope local or --scope global"))
        } else {
            Ok(ScopeStore::Group(owned(cfg.project.group.as_str())))
        }
    } else {
        let mut m = owned("unknown scope `");
        push_str(&mut m, scope);
        push_str(&mut m, "`; expected local, group or global");
        assert(m@ =~= unknown_scope_message(scope@));
        Err(m)
    }
}

/// A commit as [`short_commit`] shows it.
pub open spec fn short_commit_text(c: Seq<char>) -> Seq<char> {
    if encode_utf8(c).len() >= 8 {
        decode_utf8(encode_utf8(c).take(8))
    } else if c.len() == 0 {
        "(no commit)"@
    } else {
        c
    }
}

/// What [`short_commit`] needs of a commit: its byte length fits, and a
/// commit of eight bytes or more has a character boundary at the eighth.
pub open spec fn short_commit_ok(c: Seq<char>) -> bool {
    &&& encode_utf8(c).len() <= usize::MAX
    &&& encode_utf8(c).len() >= 8 ==> char_boundary(c, 8)
}

/// [`short_commit`], as an owned string.
fn short_commit_string(commit: &str) -> (r: String)
    requires
        short_commit_ok(commit@),
    ensures
        r@ == short_commit_text(commit@),
{
    let s = short_commit(commit);
    proof {
        if encode_utf8(commit@).len() >= 8 {
            vstd::utf8::encode_utf8_decode_utf8(s@);
        }
    }
    owned(s)
}

/// A whole number as `{}` prints it.
pub open spec fn int_text(n: int) -> Seq<char> {
    if n < 0 {
        seq!['-'] + decimal((-n) as nat)
    } else {
        decimal(n as nat)
    }
}

fn push_int(s: &mut String, n: i64)
    ensures
        final(s)@ == old(s)@ + int_text(n as int),
{
    if n < 0 {
        push_char(s, '-');
        let m: u64 = if n == i64::MIN { 9223372036854775808u64 } else { (-n) as u64 };
        push_decimal(s, m);
        assert(old(s)@.push('-') + decimal(m as nat) =~= old(s)@ + (seq!['-'] + decimal(m as nat)));
    } else {
        push_decimal(s, n as u64);
    }
}

/// `s` padded with spaces to `w` characters, as `{:w$}` and `{:<w}` pad it.
pub open spec fn pad(s: Seq<char>, w: nat) -> Seq<char> {
    if s.len() < w {
        s + Seq::new((w - s.len()) as nat, |i: int| ' ')
    } else {
        s
    }
}

fn push_padded(s: &mut String, t: &str, w: usize)
    ensures
        final(s)@ == old(s)@ + pad(t@, w as nat),
{
    push_str(s, t);
    let n = chars_of(t).len();
    if n < w {
        let mut k: usize = n;
        while k < w
            invariant
                n <= k <= w,
                n == t@.len(),
                s@ == old(s)@ + t@ + Seq::new((k - n) as nat, |i: int| ' '),
            decreases w - k,
        {
            push_char(s, ' ');
            k = k + 1;
            assert(s@ =~= old(s)@ + t@ + Seq::new((k - n) as nat, |i: int| ' '));
        }
        assert(s@ =~= old(s)@ + pad(t@, w as nat));
    } else {
        assert(s@ =~= old(s)@ + pad(t@, w as nat));
    }
}

/// The widest name, in bytes, of the rows.
pub open spec fn name_width(rows: Seq<ProjectRecord>) -> nat
    decreases rows.len(),
{
    if rows.len() == 0 {
        0
    } else {
        let w = name_width(rows.drop_last());
        let b = encode_utf8(rows.last().name@).len();
        if b > w { b } else { w }
    }
}

/// How far a project is indexed, as the list shows it.
pub open spec fn indexed_text(p: ProjectRecord) -> Seq<char> {
    if p.last_indexed_at@.len() == 0 {
        "never indexed"@
    } else {
        int_text(p.file_count as int) + " files @ "@ + short_commit_text(p.last_commit@)
    }
}

/// One row of `devctx projects list`: `-` for a deactivated project, then its
/// name padded to the widest, its model, how far it is indexed, its path.
pub open spec fn list_line(p: ProjectRecord, width: nat) -> Seq<char> {
    (if p.active { " "@ } else { "-"@ }) + " "@ + pad(p.name@, width) + "  "@ + pad(p.embed_model@, 12)
        + " "@ + pad(indexed_text(p), 22) + " "@ + p.path@
}

/// What every indexed row needs for its commit to be shown.
pub open spec fn rows_showable(rows: Seq<ProjectRecord>) -> bool {
    forall|i: int| 0 <= i < rows.len() && (#[trigger] rows[i]).last_indexed_at@.len() > 0
        ==> short_commit_ok(rows[i].last_commit@)
}

fn indexed_string(p: &ProjectRecord) -> (r: String)
    requires
        p.last_indexed_at@.len() > 0 ==> short_commit_ok(p.last_commit@),
    ensures
        r@ == indexed_text(*p),
{
    if p.last_indexed_at.as_str().is_empty() {
        owned("never indexed")
    } else {
        let mut r = String::new();
        push_int(&mut r, p.file_count);
        push_str(&mut r, " files @ ");
        let c = short_commit_string(p.last_commit.as_str());
        push_str(&mut r, c.as_str());
        assert(r@ =~= indexed_text(*p));
        r
    }
}

/// The rows of `devctx projects list`, one per project in the order given,
/// names padded to the widest; when there are none, the one line that says
/// so.
pub fn project_list_lines(rows: &Vec<ProjectRecord>) -> (l: Vec<String>)
    requires
        rows_showable(rows@),
        name_width(rows@) <= usize::MAX,
    ensures
        rows@.len() == 0 ==> l@.len() == 1 && l@[0]@ == "No projects registered (run `devctx projects add`)."@,
        rows@.len() > 0 ==> l@.len() == rows@.len()
            && forall|i: int| 0 <= i < rows@.len() ==> (#[trigger] l@[i])@ == list_line(rows@[i], name_width(rows@)),
{
    let mut l: Vec<String> = Vec::new();
    if rows.len() == 0 {
        l.push(owned("No projects registered (run `devctx projects add`)."));
        return l;
    }
    let mut width: usize = 0;
    let mut i: usize = 0;
    while i < rows.len()
        invariant
            i <= rows@.len(),
            name_width(rows@) <= usize::MAX,
            width == name_width(rows@.take(i as int)),
        decreases rows@.len() - i,
    {
        proof {
            lemma_name_width_prefix(rows@, i as int + 1);
            assert(rows@.take(i + 1).drop_last() =~= rows@.take(i as int));
        }
        let b = rows[i].name.as_str().len();
        if b > width {
            width = b;
        }
        i = i + 1;
    }
    assert(rows@.take(rows@.len() as int) =~= rows@);
    let mut k: usize = 0;
    while k < rows.len()
        invariant
            k <= rows@.len(),
            rows_showable(rows@),
            width == name_width(rows@),
            l@.len() == k,
            forall|j: int| 0 <= j < k ==> (#[trigger] l@[j])@ == list_line(rows@[j], name_width(rows@)),
        decreases rows@.len() - k,
    {
        let p = &rows[k];
        assert(p.last_indexed_at@.len() > 0 ==> short_commit_ok(p.last_commit@));
        let mut line = String::new();
        if p.active {
            push_str(&mut line, " ");
        } else {
            push_str(&mut line, "-");
        }
        push_str(&mut line, " ");
        push_padded(&mut line, p.name.as_str(), width);
        push_str(&mut line, "  ");
        push_padded(&mut line, p.embed_model.as_str(), 12);
        push_str(&mut line, " ");
        let ix = indexed_string(p);
        push_padded(&mut line, ix.as_str(), 22);
        push_str(&mut line, " ");
        push_str(&mut line, p.path.as_str());
        assert(line@ =~= list_line(*p, name_width(rows@)));
        l.push(line);
        k = k + 1;
    }
    l
}

/// The widest name of a prefix never exceeds the widest of the whole.
proof fn lemma_name_width_prefix(rows: Seq<ProjectRecord>, n: int)
    requires
        0 <= n <= rows.len(),
    ensures
        name_width(rows.take(n)) <= name_width(rows),
    decreases rows.len(),
{
    if n < rows.len() {
        assert(rows.drop_last().take(n) =~= rows.take(n));
        lemma_name_width_prefix(rows.drop_last(), n);
    } else {
        assert(rows.take(n) =~= rows);
    }
}

/// What `devctx projects show` prints for a project, line by line: its name,
/// where it lives and is stored, its model, its description and tags when it
/// has them, how far it is indexed, and whether it is active.
pub open spec fn show_lines(p: ProjectRecord) -> Seq<Seq<char>> {
    seq![
        p.name@,
        "  Path:        "@ + p.path@,
        "  Config:      "@ + p.config_path@,
        "  Store:       "@ + p.db_path@,
        "  Model:       "@ + p.embed_model@ + " ("@ + p.embed_provider@ + ", "@ + int_text(p.embed_dim as int) + "d)"@,
    ]
        + (if p.description@.len() > 0 { seq!["  Description: "@ + p.description@] } else { seq![] })
        + (if p.tags@.len() > 0 { seq!["  Tags:        "@ + p.tags@] } else { seq![] })
        + (if p.last_indexed_at@.len() == 0 {
            seq!["  Index:       never indexed"@]
        } else {
            seq![
                "  Index:       "@ + int_text(p.file_count as int) + " files, "@ + int_text(p.symbol_count as int)
                    + " symbols, "@ + int_text(p.chunk_count as int) + " chunks"@,
                "  Last:        "@ + short_commit_text(p.last_commit@) + " on "@ + p.last_branch@,
            ]
        })
        + seq!["  Active:      "@ + (if p.active { "true"@ } else { "false"@ })]
}

/// The lines of `devctx projects show` for one project.
pub fn project_show_lines(p: &ProjectRecord) -> (l: Vec<String>)
    requires
        p.last_indexed_at@.len() > 0 ==> short_commit_ok(p.last_commit@),
    ensures
        l@.len() == show_lines(*p).len(),
        forall|i: int| 0 <= i < l@.len() ==> (#[trigger] l@[i])@ == show_lines(*p)[i],
{
    let mut l: Vec<String> = Vec::new();
    let ghost mut want: Seq<Seq<char>> = Seq::empty();
    l.push(owned(p.name.as_str()));
    let mut a = owned("  Path:        ");
    push_str(&mut a, p.path.as_str());
    l.push(a);
    let mut a = owned("  Config:      ");
    push_str(&mut a, p.config_path.as_str());
    l.push(a);
    let mut a = owned("  Store:       ");
    push_str(&mut a, p.db_path.as_str());
    l.push(a);
    let mut a = owned("  Model:       ");
    push_str(&mut a, p.embed_model.as_str());
    push_str(&mut a, " (");
    push_str(&mut a, p.embed_provider.as_str());
    push_str(&mut a, ", ");
    push_int(&mut a, p.embed_dim);
    push_str(&mut a, "d)");
    l.push(a);
    proof {
        want = seq![
            p.name@,
            "  Path:        "@ + p.path@,
            "  Config:      "@ + p.config_path@,
            "  Store:       "@ + p.db_path@,
            "  Model:       "@ + p.embed_model@ + " ("@ + p.embed_provider@ + ", "@ + int_text(p.embed_dim as int) + "d)"@,
        ];
        assert(views_of(l@) =~= want);
    }
    if !p.description.as_str().is_empty() {
        let mut a = owned("  Description: ");
        push_str(&mut a, p.description.as_str());
        l.push(a);
        proof {
            want = want + seq!["  Description: "@ + p.description@];
        }
    }
    assert(views_of(l@) =~= want);
    if !p.tags.as_str().is_empty() {
        let mut a = owned("  Tags:        ");
        push_str(&mut a, p.tags.as_str());
        l.push(a);
        proof {
            want = want + seq!["  Tags:        "@ + p.tags@];
        }
    }
    assert(views_of(l@) =~= want);
    if p.last_indexed_at.as_str().is_empty() {
        l.push(owned("  Index:       never indexed"));
        proof {
            want = want + seq!["  Index:       never indexed"@];
        }
    } else {
        let mut a = owned("  Index:       ");
        push_int(&mut a, p.file_count);
        push_str(&mut a, " files, ");
        push_int(&mut a, p.symbol_count);
        push_str(&mut a, " symbols, ");
        push_int(&mut a, p.chunk_count);
        push_str(&mut a, " chunks");
        l.push(a);
        let mut b = owned("  Last:        ");
        let c = short_commit_string(p.last_commit.as_str());
        push_str(&mut b, c.as_str());
        push_str(&mut b, " on ");
        push_str(&mut b, p.last_branch.as_str());
        l.push(b);
        proof {
            want = want + seq![
                "  Index:       "@ + int_text(p.file_count as int) + " files, "@ + int_text(p.symbol_count as int)
                    + " symbols, "@ + int_text(p.chunk_count as int) + " chunks"@,
                "  Last:        "@ + short_commit_text(p.last_commit@) + " on "@ + p.last_branch@,
            ];
        }
    }
    assert(views_of(l@) =~= want);
    let mut a = owned("  Active:      ");
    if p.active {
        push_str(&mut a, "true");
    } else {
        push_str(&mut a, "false");
    }
    l.push(a);
    proof {
        want = want + seq!["  Active:      "@ + (if p.active { "true"@ } else { "false"@ })];
        assert(views_of(l@) =~= want);
        assert(want =~= show_lines(*p));
        assert forall|i: int| 0 <= i < l@.len() implies (#[trigger] l@[i])@ == show_lines(*p)[i] by {
            assert(views_of(l@)[i] == l@[i]@);
        }
    }
    l
}

/// The text of each string.
pub open spec fn views_of(v: Seq<String>) -> Seq<Seq<char>> {
    Seq::new(v.len(), |i: int| v[i]@)
}

/// The group a memory written from the command line goes to: the project's
/// group for the group scope, refused when the project declares none; no
/// group for any other scope.
pub fn remember_group(scope: MemoryScope, cfg: &crate::config::ProjectConfig) -> (r: Result<String, String>)
    ensures
        scope == MemoryScope::Group && cfg.project.group@.len() == 0 ==> (r matches Err(m)
            && m@ == "this project declares no group; set `project.group` in "@ + cfg.project.name@
                + " or use `--scope global`"@),
        scope == MemoryScope::Group && cfg.project.group@.len() > 0 ==> (r matches Ok(g) && g@ == cfg.project.group@),
        scope != MemoryScope::Group ==> (r matches Ok(g) && g@.len() == 0),
{
    match scope {
        MemoryScope::Group => {
            if cfg.project.group.as_str().is_empty() {
                let mut m = owned("this project declares no group; set `project.group` in ");
                push_str(&mut m, cfg.project.name.as_str());
                push_str(&mut m, " or use `--scope global`");
                Err(m)
            } else {
                Ok(owned(cfg.project.group.as_str()))
            }
        },
        _ => Ok(String::new()),
    }
}

/// The tier a shared memory was written to, as the command line names it:
/// `global`, or `group:` and the group's name.
pub fn tier_label(group: &str) -> (t: String)
    ensures
        t@ == if group@.len() == 0 { "global"@ } else { "group:"@ + group@ },
{
    if group.is_empty() {
        owned("global")
    } else {
        let mut t = owned("group:");
        push_str(&mut t, group);
        t
    }
}

} // verus!
