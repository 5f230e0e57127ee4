//! What an MCP server started outside any repository binds to, by looking
//! down into the directory it was started in: the one registered project
//! there, or the group every project there shares — never a guess between
//! projects that disagree.

use vstd::prelude::*;
use crate::rank::{key_less, key_lt};
use crate::text::{chars_of, decimal, join, join_vecs, owned, push_decimal, push_str, same_text, views};
use crate::watch::{strip_root, strip_root_of};

verus! {

/// A registered project as the descent sees it.
pub struct RegisteredProject {
    /// Its registered name.
    pub name: String,
    /// Its root directory, absolute.
    pub path: String,
    /// The group its config declares, or empty.
    pub group: String,
    /// When it was last indexed (an RFC 3339 stamp, so text order is time
    /// order), or empty when never.
    pub last_indexed_at: String,
}

/// `path` lies strictly inside `dir`, component by component: `/x/ws` is
/// not a parent of `/x/ws-other`.
pub open spec fn is_under(path: Seq<char>, dir: Seq<char>) -> bool {
    match strip_root(dir, path) {
        Some(rel) => rel.len() > 0,
        None => false,
    }
}

/// The positions, in registry order, of the projects inside `dir`.
pub open spec fn under_spec(projects: Seq<RegisteredProject>, dir: Seq<char>) -> Seq<int>
    decreases projects.len(),
{
    if projects.len() == 0 {
        seq![]
    } else {
        let rest = under_spec(projects.drop_last(), dir);
        if is_under(projects.last().path@, dir) {
            rest.push(projects.len() - 1)
        } else {
            rest
        }
    }
}

/// Every project at the positions `m` declares the same, non-empty group.
pub open spec fn shares_group(projects: Seq<RegisteredProject>, m: Seq<int>) -> bool {
    m.len() > 0 && projects[m[0]].group@.len() > 0
        && forall|k: int| 0 <= k < m.len() ==> (#[trigger] projects[m[k]]).group@ == projects[m[0]].group@
}

/// `d` is the most recently indexed of the projects at `m`, the first of
/// them on a tie.
pub open spec fn is_latest(projects: Seq<RegisteredProject>, m: Seq<int>, d: int) -> bool {
    exists|q: int| 0 <= q < m.len() && m[q] == d
        && (forall|k: int| 0 <= k < m.len() ==> !key_lt(projects[d].last_indexed_at@, (#[trigger] projects[m[k]]).last_indexed_at@))
        && (forall|k: int| 0 <= k < q ==> key_lt((#[trigger] projects[m[k]]).last_indexed_at@, projects[d].last_indexed_at@))
}

/// What the descent found.
pub enum Descent {
    /// No registered project below: stay unbound.
    Nothing,
    /// Exactly one: bind it (its position in the registry).
    Project(usize),
    /// Several, all in one group: bind the group. `default` is the member the
    /// code tools fall back to — the most recently indexed, on the reasoning
    /// that it is the repository being worked on.
    Group { group: String, members: Vec<usize>, default: usize },
    /// Several that do not share a group: stay unbound and name them, rather
    /// than land every memory in a repository nobody chose.
    Mixed(Vec<usize>),
}

/// Positions as integers.
pub open spec fn ints(v: Seq<usize>) -> Seq<int> {
    v.map_values(|x: usize| x as int)
}

/// The descent's answer for `projects` seen from `dir`.
pub open spec fn descent_spec(projects: Seq<RegisteredProject>, dir: Seq<char>, d: Descent) -> bool {
    let m = under_spec(projects, dir);
    if m.len() == 0 {
        d is Nothing
    } else if m.len() == 1 {
        d == Descent::Project(m[0] as usize)
    } else if shares_group(projects, m) {
        d matches Descent::Group { group, members, default } && group@ == projects[m[0]].group@
            && ints(members@) == m && is_latest(projects, m, default as int)
    } else {
        d matches Descent::Mixed(members) && ints(members@) == m
    }
}

proof fn lemma_under_bounds(projects: Seq<RegisteredProject>, dir: Seq<char>)
    ensures
        under_spec(projects, dir).len() <= projects.len(),
        forall|k: int| 0 <= k < under_spec(projects, dir).len() ==> 0 <= #[trigger] under_spec(projects, dir)[k] < projects.len(),
        forall|a: int, b: int| 0 <= a < b < under_spec(projects, dir).len() ==> under_spec(projects, dir)[a] < under_spec(projects, dir)[b],
    decreases projects.len(),
{
    if projects.len() > 0 {
        lemma_under_bounds(projects.drop_last(), dir);
    }
}

/// Look down from `dir` into the registry (see [`descent_spec`]).
pub fn descend(dir: &str, projects: &Vec<RegisteredProject>) -> (d: Descent)
    ensures
        descent_spec(projects@, dir@, d),
{
    let mut members: Vec<usize> = Vec::new();
    let mut i: usize = 0;
    while i < projects.len()
        invariant
            i <= projects@.len(),
            ints(members@) == under_spec(projects@.take(i as int), dir@),
        decreases projects@.len() - i,
    {
        assert(projects@.take(i + 1).drop_last() =~= projects@.take(i as int));
        let ghost prev = members@;
        let inside = match strip_root_of(dir, projects[i].path.as_str()) {
            Some(rel) => !rel.as_str().is_empty(),
            None => false,
        };
        if inside {
            members.push(i);
            assert(ints(members@) =~= ints(prev).push(i as int));
        }
        i = i + 1;
    }
    assert(projects@.take(i as int) =~= projects@);
    let ghost m = under_spec(projects@, dir@);
    proof {
        lemma_under_bounds(projects@, dir@);
        assert(members@.len() == m.len());
        assert forall|k: int| 0 <= k < members@.len() implies (#[trigger] members@[k]) as int == m[k] by {
            assert(ints(members@)[k] == m[k]);
        }
    }
    if members.len() == 0 {
        return Descent::Nothing;
    }
    if members.len() == 1 {
        return Descent::Project(members[0]);
    }
    let first = members[0];
    let group = projects[first].group.as_str();
    let mut shared = !group.is_empty();
    let mut k: usize = 1;
    while k < members.len() && shared
        invariant
            1 <= k <= members@.len(),
            members@.len() == m.len(),
            forall|j: int| 0 <= j < members@.len() ==> (#[trigger] members@[j]) as int == m[j],
            forall|j: int| 0 <= j < m.len() ==> 0 <= #[trigger] m[j] < projects@.len(),
            first as int == m[0],
            group@ == projects@[m[0]].group@,
            shared ==> group@.len() > 0 && forall|j: int| 0 <= j < k ==> (#[trigger] projects@[m[j]]).group@ == group@,
            !shared ==> !shares_group(projects@, m),
        decreases members@.len() - k,
    {
        let idx = members[k];
        if !same_text(projects[idx].group.as_str(), group) {
            assert(projects@[m[k as int]].group@ != projects@[m[0]].group@);
            shared = false;
        }
        k = k + 1;
    }
    if !shared {
        return Descent::Mixed(members);
    }
    // The most recently indexed member, the first on a tie.
    proof {
        crate::rank::lemma_key_lt_irreflexive(projects@[m[0]].last_indexed_at@);
    }
    let mut best: usize = 0;
    let mut q: usize = 1;
    while q < members.len()
        invariant
            best < q <= members@.len(),
            members@.len() == m.len(),
            forall|j: int| 0 <= j < members@.len() ==> (#[trigger] members@[j]) as int == m[j],
            forall|j: int| 0 <= j < m.len() ==> 0 <= #[trigger] m[j] < projects@.len(),
            forall|j: int| 0 <= j < q ==> !key_lt(projects@[m[best as int]].last_indexed_at@, (#[trigger] projects@[m[j]]).last_indexed_at@),
            forall|j: int| 0 <= j < best ==> key_lt((#[trigger] projects@[m[j]]).last_indexed_at@, projects@[m[best as int]].last_indexed_at@),
        decreases members@.len() - q,
    {
        let cur = chars_of(projects[members[best]].last_indexed_at.as_str());
        let cand = chars_of(projects[members[q]].last_indexed_at.as_str());
        if key_less(cur.as_slice(), cand.as_slice()) {
            proof {
                let b = projects@[m[best as int]].last_indexed_at@;
                let c = projects@[m[q as int]].last_indexed_at@;
                assert forall|j: int| 0 <= j < q implies key_lt((#[trigger] projects@[m[j]]).last_indexed_at@, c) by {
                    let a = projects@[m[j]].last_indexed_at@;
                    if a != b {
                        crate::rank::lemma_key_lt_total(a, b);
                    }
                    if a == b {
                    } else if key_lt(a, b) {
                        crate::rank::lemma_key_lt_transitive(a, b, c);
                    }
                }
                assert forall|j: int| 0 <= j < q + 1 implies !key_lt(c, (#[trigger] projects@[m[j]]).last_indexed_at@) by {
                    let a = projects@[m[j]].last_indexed_at@;
                    if j < q {
                        crate::rank::lemma_key_lt_asymmetric(a, c);
                    } else {
                        crate::rank::lemma_key_lt_irreflexive(c);
                    }
                }
            }
            best = q;
        }
        q = q + 1;
    }
    let default = members[best];
    assert(is_latest(projects@, m, default as int)) by {
        assert(m[best as int] == default as int);
    }
    Descent::Group { group: owned(group), members, default }
}

/// The line a server started with nothing bound prints.
pub open spec fn unbound_line() -> Seq<char> {
    "Starting DevCtxEngine MCP server (stdio): no project bound here; use the use_project tool to bind one."@
}

/// The names of the projects at `m`.
pub open spec fn names_at(projects: Seq<RegisteredProject>, m: Seq<int>) -> Seq<Seq<char>> {
    m.map_values(|i: int| projects[i].name@)
}

/// What the server says about the binding it came up with.
pub open spec fn descent_message_spec(projects: Seq<RegisteredProject>, dir: Seq<char>, d: Descent) -> Seq<char> {
    match d {
        Descent::Nothing => unbound_line(),
        Descent::Project(i) => "Bound to project "@ + projects[i as int].name@ + " ("@ + projects[i as int].path@ + ")"@,
        Descent::Group { group, members, default } => "Bound to group "@ + group@ + ": "@ + decimal(members@.len())
            + " projects under "@ + dir + "; code tools default to "@ + projects[default as int].name@,
        Descent::Mixed(members) => "Not bound: the projects under "@ + dir + " ("@
            + join(names_at(projects, ints(members@)), ", "@) + ") do not share a group; use the use_project tool to pick one."@,
    }
}

/// The line the server prints for the binding the descent found.
pub fn descent_message(dir: &str, projects: &Vec<RegisteredProject>, d: &Descent) -> (s: String)
    requires
        match d {
            Descent::Nothing => true,
            Descent::Project(i) => i < projects@.len(),
            Descent::Group { default, .. } => default < projects@.len(),
            Descent::Mixed(members) => forall|k: int| 0 <= k < members@.len() ==> (#[trigger] members@[k]) < projects@.len(),
        },
    ensures
        s@ == descent_message_spec(projects@, dir@, *d),
{
    match d {
        Descent::Nothing => owned("Starting DevCtxEngine MCP server (stdio): no project bound here; use the use_project tool to bind one."),
        Descent::Project(i) => {
            let mut s = owned("Bound to project ");
            push_str(&mut s, projects[*i].name.as_str());
            push_str(&mut s, " (");
            push_str(&mut s, projects[*i].path.as_str());
            push_str(&mut s, ")");
            s
        },
        Descent::Group { group, members, default } => {
            let mut s = owned("Bound to group ");
            push_str(&mut s, group.as_str());
            push_str(&mut s, ": ");
            push_decimal(&mut s, members.len() as u64);
            push_str(&mut s, " projects under ");
            push_str(&mut s, dir);
            push_str(&mut s, "; code tools default to ");
            push_str(&mut s, projects[*default].name.as_str());
            s
        },
        Descent::Mixed(members) => {
            let mut names: Vec<Vec<char>> = Vec::new();
            let mut k: usize = 0;
            while k < members.len()
                invariant
                    k <= members@.len(),
                    forall|j: int| 0 <= j < members@.len() ==> (#[trigger] members@[j]) < projects@.len(),
                    views(names@) == names_at(projects@, ints(members@)).take(k as int),
                decreases members@.len() - k,
            {
                let ghost prev = names@;
                let c = chars_of(projects[members[k]].name.as_str());
                names.push(c);
                proof {
                    let all = names_at(projects@, ints(members@));
                    assert(ints(members@)[k as int] == members@[k as int] as int);
                    assert(all[k as int] == projects@[members@[k as int] as int].name@);
                    assert(views(names@) =~= views(prev).push(c@));
                    assert(all.take(k + 1) =~= all.take(k as int).push(all[k as int]));
                }
                k = k + 1;
            }
            assert(names_at(projects@, ints(members@)).take(k as int) =~= names_at(projects@, ints(members@)));
            let mut s = owned("Not bound: the projects under ");
            push_str(&mut s, dir);
            push_str(&mut s, " (");
            let joined = join_vecs(names.as_slice(), ", ");
            push_str(&mut s, joined.as_str());
            push_str(&mut s, ") do not share a group; use the use_project tool to pick one.");
            s
        },
    }
}

/// A directory is no parent of a sibling that merely extends its name:
/// `/x/ws` does not contain `/x/ws-other/…`, though one is a string prefix
/// of the other.
pub proof fn law_name_prefix_is_not_a_parent(dir: Seq<char>, tail: Seq<char>)
    requires
        dir.len() > 0,
        dir.last() != '/',
        tail.len() > 0,
        tail[0] != '/',
    ensures
        !is_under(dir + tail, dir),
{
    let p = dir + tail;
    assert(p.skip(dir.len() as int) =~= tail);
}

} // verus!
