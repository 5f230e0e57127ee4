//! What an import does with each incoming memory.
//!
//! Import never overwrites and never deletes: its input comes from somewhere
//! else, so nothing already here may be lost by running it — including running
//! it with the wrong file.

use vstd::prelude::*;
use crate::text::{owned, same_text};
use crate::rank::{key_less, key_lt, lemma_key_lt_total, lemma_key_lt_transitive};

verus! {

/// A stored memory, as far as an import reads it.
#[derive(Debug, Clone, Default)]
pub struct Memory {
    /// Its id.
    pub id: String,
    /// Its title.
    pub title: String,
    /// Its text.
    pub content: String,
    /// The topic it revises, or empty for none.
    pub topic_key: String,
    /// Hash of its normalised content: what makes two memories the same.
    pub normalized_hash: String,
    /// The project key it belongs to.
    pub project: String,
}

/// What an import decided about one incoming memory.
#[derive(Debug, Clone, Copy, PartialEq, Eq, Structural)]
pub enum Outcome {
    /// Not here; stored as-is.
    Added,
    /// The same content is already here; skipped.
    AlreadyPresent,
    /// Its topic key belongs to a different memory here. Stored anyway,
    /// without the key, so neither text is lost.
    TopicCollision,
}

/// Some memory in `existing` has the content hash `h`.
pub open spec fn has_hash(existing: Seq<Memory>, h: Seq<char>) -> bool {
    exists|i: int| 0 <= i < existing.len() && (#[trigger] existing[i]).normalized_hash@ == h
}

/// Some memory in `existing` has the topic key `t`.
pub open spec fn has_topic(existing: Seq<Memory>, t: Seq<char>) -> bool {
    exists|i: int| 0 <= i < existing.len() && (#[trigger] existing[i]).topic_key@ == t
}

/// The decision: the same content already here is skipped (content identity,
/// not id); a topic key already held by another memory is a collision (an
/// empty key is no claim at all); anything else is added.
pub open spec fn decide_spec(incoming: Memory, existing: Seq<Memory>) -> Outcome {
    if has_hash(existing, incoming.normalized_hash@) {
        Outcome::AlreadyPresent
    } else if incoming.topic_key@.len() > 0 && has_topic(existing, incoming.topic_key@) {
        Outcome::TopicCollision
    } else {
        Outcome::Added
    }
}

/// Decide what to do with `incoming`, given everything already in the target
/// scope — before writing, so no conflict is discovered half-way through.
pub fn decide(incoming: &Memory, existing: &[Memory]) -> (o: Outcome)
    ensures
        o == decide_spec(*incoming, existing@),
{
    let mut i: usize = 0;
    while i < existing.len()
        invariant
            i <= existing@.len(),
            forall|j: int| 0 <= j < i ==> (#[trigger] existing@[j]).normalized_hash@ != incoming.normalized_hash@,
        decreases existing@.len() - i,
    {
        if same_text(existing[i].normalized_hash.as_str(), incoming.normalized_hash.as_str()) {
            assert(has_hash(existing@, incoming.normalized_hash@));
            return Outcome::AlreadyPresent;
        }
        i = i + 1;
    }
    if incoming.topic_key.as_str().is_empty() {
        return Outcome::Added;
    }
    let mut k: usize = 0;
    while k < existing.len()
        invariant
            k <= existing@.len(),
            !has_hash(existing@, incoming.normalized_hash@),
            incoming.topic_key@.len() > 0,
            forall|j: int| 0 <= j < k ==> (#[trigger] existing@[j]).topic_key@ != incoming.topic_key@,
        decreases existing@.len() - k,
    {
        if same_text(existing[k].topic_key.as_str(), incoming.topic_key.as_str()) {
            assert(has_topic(existing@, incoming.topic_key@));
            return Outcome::TopicCollision;
        }
        k = k + 1;
    }
    Outcome::Added
}

/// The row to store, given the decision: the incoming memory as it is, except
/// that a colliding one gives up its topic key, so the local memory stays the
/// one that topic revises.
pub fn prepare(incoming: &Memory, outcome: Outcome) -> (m: Memory)
    ensures
        m.id@ == incoming.id@,
        m.title@ == incoming.title@,
        m.content@ == incoming.content@,
        m.normalized_hash@ == incoming.normalized_hash@,
        m.project@ == incoming.project@,
        m.topic_key@ == if outcome == Outcome::TopicCollision { Seq::<char>::empty() } else { incoming.topic_key@ },
{
    Memory {
        id: owned(incoming.id.as_str()),
        title: owned(incoming.title.as_str()),
        content: owned(incoming.content.as_str()),
        topic_key: if outcome == Outcome::TopicCollision { String::new() } else { owned(incoming.topic_key.as_str()) },
        normalized_hash: owned(incoming.normalized_hash.as_str()),
        project: owned(incoming.project.as_str()),
    }
}

/// What an import did, for the summary it prints.
#[derive(Debug, Default)]
pub struct ImportReport {
    pub added: usize,
    pub already: usize,
    /// Titles (or ids, for untitled ones) of the memories kept alongside an
    /// existing topic owner — worth reading rather than resolving.
    pub collisions: Vec<String>,
}

impl ImportReport {
    /// Count one decision: a collision is stored too, and named in the list.
    pub fn record(&mut self, m: &Memory, outcome: Outcome)
        requires
            old(self).added < usize::MAX,
            old(self).already < usize::MAX,
        ensures
            final(self).added == old(self).added + if outcome == Outcome::AlreadyPresent { 0int } else { 1int },
            final(self).already == old(self).already + if outcome == Outcome::AlreadyPresent { 1int } else { 0int },
            outcome == Outcome::TopicCollision ==> final(self).collisions@.len() == old(self).collisions@.len() + 1
                && final(self).collisions@.take(old(self).collisions@.len() as int) == old(self).collisions@
                && final(self).collisions@.last()@ == if m.title@.len() == 0 { m.id@ } else { m.title@ },
            outcome != Outcome::TopicCollision ==> final(self).collisions@ == old(self).collisions@,
    {
        match outcome {
            Outcome::Added => {
                self.added = self.added + 1;
            },
            Outcome::AlreadyPresent => {
                self.already = self.already + 1;
            },
            Outcome::TopicCollision => {
                self.added = self.added + 1;
                let name = if m.title.as_str().is_empty() { owned(m.id.as_str()) } else { owned(m.title.as_str()) };
                let ghost before = self.collisions@;
                self.collisions.push(name);
                assert(self.collisions@.take(before.len() as int) =~= before);
            },
        }
    }
}

/// Importing is idempotent: once a memory has been stored as decided, the
/// same memory arriving again is recognised as already present, so importing
/// a file twice never doubles it.
pub proof fn law_import_twice_adds_nothing(incoming: Memory, existing: Seq<Memory>, stored: Memory)
    requires
        stored.normalized_hash@ == incoming.normalized_hash@,
    ensures
        decide_spec(incoming, existing.push(stored)) == Outcome::AlreadyPresent,
{
    let all = existing.push(stored);
    assert(all[existing.len() as int] == stored);
}

/// Whether an embedding carried in an import file is reused rather than
/// computed again: only when it was made by exactly the configured model at
/// exactly the configured width. The same model name across two
/// implementations gives vectors far enough apart to rank everything wrong.
pub fn reuses_embedding(carried_model: &str, carried_dim: usize, model: &str, dim: usize) -> (b: bool)
    ensures
        b == (carried_model@ == model@ && carried_dim == dim),
{
    carried_dim == dim && same_text(carried_model, model)
}

/// Whether a memory key names a tier of the central store (group and global
/// keys begin with `@`) rather than one project's own store.
pub fn is_central_key(key: &str) -> (b: bool)
    ensures
        b == (key@.len() > 0 && key@[0] == '@'),
{
    let v = crate::text::chars_of(key);
    v.len() > 0 && v[0] == '@'
}

/// The project a migrated memory is filed under: its own, when asked to keep
/// it and it has one; otherwise the current project, so it is found at once.
pub fn migrated_project(keep_project: bool, own: &str, current: &str) -> (r: String)
    ensures
        r@ == if keep_project && own@.len() > 0 { own@ } else { current@ },
{
    if keep_project && !own.is_empty() {
        owned(own)
    } else {
        owned(current)
    }
}

/// The repository a migrated memory is attributed to: its own, or, where the
/// old store left it empty, the project it came from — otherwise a global
/// memory would be stranded by a recall that filters on the repository.
pub fn migrated_repo(repo: &str, project: &str) -> (r: String)
    ensures
        r@ == if repo@.len() == 0 { project@ } else { repo@ },
{
    if repo.is_empty() {
        owned(project)
    } else {
        owned(repo)
    }
}

/// Where a migrated memory's scope sends it.
#[derive(Debug, Clone, PartialEq, Eq)]
pub enum MigratedScope {
    /// The product's group tier.
    Group,
    /// The tier every project shares.
    Global,
    /// The scope it had, unchanged.
    Kept(String),
}

/// The scope a migrated memory gets. Old stores had two scopes and used the
/// shared one by default, so a shared memory is really shared with this
/// product's repositories: it goes to the group when the project declares
/// one, and to the global tier otherwise. Any other scope is kept.
pub fn migrated_scope(was_shared: bool, scope: &str, group: &str) -> (r: MigratedScope)
    ensures
        was_shared && group@.len() > 0 ==> r == MigratedScope::Group,
        was_shared && group@.len() == 0 ==> r == MigratedScope::Global,
        !was_shared ==> (r matches MigratedScope::Kept(s) && s@ == scope@),
{
    if was_shared {
        if group.is_empty() {
            MigratedScope::Global
        } else {
            MigratedScope::Group
        }
    } else {
        MigratedScope::Kept(owned(scope))
    }
}

/// The groups run in increasing key order, so no key has two groups.
pub open spec fn groups_sorted(g: Seq<(String, Vec<usize>)>) -> bool {
    forall|a: int, b: int| 0 <= a < b < g.len() ==> key_lt((#[trigger] g[a]).0@, (#[trigger] g[b]).0@)
}

/// Each group holds at least one index, each index names an item of the
/// first `n` with the group's key, and a group's indices increase.
pub open spec fn groups_sound(g: Seq<(String, Vec<usize>)>, keys: Seq<String>, n: int) -> bool {
    &&& forall|a: int| 0 <= a < g.len() ==> (#[trigger] g[a]).1@.len() > 0
    &&& forall|a: int, t: int| #![trigger g[a].1@[t]] 0 <= a < g.len() && 0 <= t < g[a].1@.len()
        ==> g[a].1@[t] < n && keys[g[a].1@[t] as int]@ == g[a].0@
    &&& forall|a: int, t: int, u: int| #![trigger g[a].1@[t], g[a].1@[u]] 0 <= a < g.len() && 0 <= t < u < g[a].1@.len()
        ==> g[a].1@[t] < g[a].1@[u]
}

/// Every one of the first `n` items stands in the group of its key.
pub open spec fn groups_complete(g: Seq<(String, Vec<usize>)>, keys: Seq<String>, n: int) -> bool {
    forall|i: int| #![trigger keys[i]] 0 <= i < n ==> exists|a: int| 0 <= a < g.len() && (#[trigger] g[a]).0@ == keys[i]@
        && g[a].1@.contains(i as usize)
}

/// The items of an import grouped by destination, as each destination is a
/// different store: one group per distinct key, in increasing key order,
/// holding the indices of that key's items in the order they came.
pub fn group_by_destination(keys: &Vec<String>) -> (g: Vec<(String, Vec<usize>)>)
    ensures
        groups_sorted(g@),
        groups_sound(g@, keys@, keys@.len() as int),
        groups_complete(g@, keys@, keys@.len() as int),
{
    let mut g: Vec<(String, Vec<usize>)> = Vec::new();
    let mut i: usize = 0;
    while i < keys.len()
        invariant
            i <= keys@.len(),
            groups_sorted(g@),
            groups_sound(g@, keys@, i as int),
            groups_complete(g@, keys@, i as int),
        decreases keys@.len() - i,
    {
        let k = keys[i].as_str();
        let kc = crate::text::chars_of(k);
        let mut p: usize = 0;
        while p < g.len() && key_less(crate::text::chars_of(g[p].0.as_str()).as_slice(), kc.as_slice())
            invariant
                p <= g@.len(),
                kc@ == k@,
                forall|a: int| 0 <= a < p ==> key_lt((#[trigger] g@[a]).0@, k@),
            decreases g@.len() - p,
        {
            p = p + 1;
        }
        let ghost old_g = g@;
        if p < g.len() && same_text(g[p].0.as_str(), k) {
            let mut e = g.remove(p);
            e.1.push(i);
            g.insert(p, e);
            proof {
                assert(g@ =~= old_g.update(p as int, g@[p as int]));
                assert(g@[p as int].1@ == old_g[p as int].1@.push(i));
                assert(g@[p as int].0 == old_g[p as int].0);
                assert forall|a: int, b: int| 0 <= a < b < g@.len() implies key_lt((#[trigger] g@[a]).0@, (#[trigger] g@[b]).0@) by {
                    assert(old_g[a].0@ == g@[a].0@ && old_g[b].0@ == g@[b].0@);
                }
                assert forall|a: int, t: int| #![trigger g@[a].1@[t]] 0 <= a < g@.len() && 0 <= t < g@[a].1@.len()
                    implies g@[a].1@[t] < i + 1 && keys@[g@[a].1@[t] as int]@ == g@[a].0@ by {
                    if a == p && t == old_g[a].1@.len() {
                    } else {
                        assert(g@[a].1@[t] == old_g[a].1@[t]);
                    }
                }
                assert forall|a: int, t: int, u: int| #![trigger g@[a].1@[t], g@[a].1@[u]] 0 <= a < g@.len() && 0 <= t < u < g@[a].1@.len()
                    implies g@[a].1@[t] < g@[a].1@[u] by {
                    if a == p && u == old_g[a].1@.len() {
                        assert(g@[a].1@[t] == old_g[a].1@[t]);
                    } else {
                        assert(g@[a].1@[t] == old_g[a].1@[t] && g@[a].1@[u] == old_g[a].1@[u]);
                    }
                }
                assert forall|j: int| #![trigger keys@[j]] 0 <= j < i + 1 implies exists|a: int| 0 <= a < g@.len() && (#[trigger] g@[a]).0@ == keys@[j]@
                    && g@[a].1@.contains(j as usize) by {
                    if j == i {
                        assert(g@[p as int].1@[old_g[p as int].1@.len() as int] == i);
                        assert(g@[p as int].0@ == keys@[j]@);
                    } else {
                        let a = choose|a: int| 0 <= a < old_g.len() && (#[trigger] old_g[a]).0@ == keys@[j]@
                            && old_g[a].1@.contains(j as usize);
                        let t = choose|t: int| 0 <= t < old_g[a].1@.len() && old_g[a].1@[t] == j as usize;
                        assert(g@[a].1@[t] == j as usize);
                        assert(g@[a].0@ == keys@[j]@);
                    }
                }
            }
        } else {
            let mut idx: Vec<usize> = Vec::new();
            idx.push(i);
            g.insert(p, (owned(k), idx));
            proof {
                let x = g@[p as int];
                assert(x.0@ == k@);
                assert(x.1@ =~= seq![i]);
                assert(p < old_g.len() ==> key_lt(k@, old_g[p as int].0@)) by {
                    if p < old_g.len() {
                        assert(old_g[p as int].0@ != k@);
                        lemma_key_lt_total(k@, old_g[p as int].0@);
                    }
                }
                assert forall|a: int, b: int| 0 <= a < b < g@.len() implies key_lt((#[trigger] g@[a]).0@, (#[trigger] g@[b]).0@) by {
                    if b < p {
                        assert(g@[a] == old_g[a] && g@[b] == old_g[b]);
                    } else if b == p {
                        assert(g@[a] == old_g[a]);
                    } else if a == p {
                        assert(g@[b] == old_g[b - 1]);
                        if b - 1 > p {
                            lemma_key_lt_transitive(k@, old_g[p as int].0@, old_g[b - 1].0@);
                        }
                    } else if a < p {
                        assert(g@[a] == old_g[a] && g@[b] == old_g[b - 1]);
                        lemma_key_lt_transitive(old_g[a].0@, k@, old_g[p as int].0@);
                        if b - 1 > p {
                            lemma_key_lt_transitive(old_g[a].0@, old_g[p as int].0@, old_g[b - 1].0@);
                        }
                    } else {
                        assert(g@[a] == old_g[a - 1] && g@[b] == old_g[b - 1]);
                    }
                }
                assert forall|a: int| 0 <= a < g@.len() implies (#[trigger] g@[a]).1@.len() > 0 by {
                    if a < p {
                        assert(g@[a] == old_g[a]);
                    } else if a > p {
                        assert(g@[a] == old_g[a - 1]);
                    }
                }
                assert forall|a: int, t: int| #![trigger g@[a].1@[t]] 0 <= a < g@.len() && 0 <= t < g@[a].1@.len()
                    implies g@[a].1@[t] < i + 1 && keys@[g@[a].1@[t] as int]@ == g@[a].0@ by {
                    if a < p {
                        assert(g@[a] == old_g[a]);
                    } else if a > p {
                        assert(g@[a] == old_g[a - 1]);
                    }
                }
                assert forall|a: int, t: int, u: int| #![trigger g@[a].1@[t], g@[a].1@[u]] 0 <= a < g@.len() && 0 <= t < u < g@[a].1@.len()
                    implies g@[a].1@[t] < g@[a].1@[u] by {
                    if a < p {
                        assert(g@[a] == old_g[a]);
                    } else if a > p {
                        assert(g@[a] == old_g[a - 1]);
                    }
                }
                assert forall|j: int| #![trigger keys@[j]] 0 <= j < i + 1 implies exists|a: int| 0 <= a < g@.len() && (#[trigger] g@[a]).0@ == keys@[j]@
                    && g@[a].1@.contains(j as usize) by {
                    if j == i {
                        assert(g@[p as int].1@[0] == i);
                    } else {
                        let a = choose|a: int| 0 <= a < old_g.len() && (#[trigger] old_g[a]).0@ == keys@[j]@
                            && old_g[a].1@.contains(j as usize);
                        if a < p {
                            assert(g@[a] == old_g[a]);
                        } else {
                            assert(g@[a + 1] == old_g[a]);
                        }
                    }
                }
            }
        }
        i = i + 1;
    }
    g
}

} // verus!
