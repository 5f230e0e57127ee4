//! Where one MCP tool call runs: a path hint that resolved to a project
//! decides the call, otherwise the session's binding does — and the
//! projects opened for hints, kept in a small cache.

use vstd::prelude::*;
use crate::text::{owned, push_str, same_text};

verus! {

/// How many hint-resolved projects are kept open at once: a session that walks
/// a large workspace would otherwise hold a handle per repository forever.
pub const HINT_CACHE_CAP: usize = 8;

/// What the session is attached to, as routing needs it.
pub enum SessionBinding {
    /// Nothing: a call without a resolving hint is refused with help.
    Unbound,
    /// One project, at this root.
    Project(String),
    /// A group of projects, by the group's name; calls without a hint go to
    /// its default member.
    Group { name: String, default_root: String, default_name: String },
}

/// Where a call goes.
#[derive(Debug, Clone, PartialEq, Eq)]
pub enum Route {
    /// To the project a hint named (root and name): the answer says which.
    Hinted { root: String, name: String },
    /// To the bound project.
    Bound { root: String },
    /// To the group's default member, named because nobody chose it.
    Defaulted { root: String, name: String },
    /// Nowhere: the session is unbound and the hint resolved to nothing.
    Unbound,
}

/// Route one call. A hint that resolved (to a project's root and name)
/// decides it, whatever the binding; the binding is only consulted without
/// one, and is never changed by a call.
pub fn route_call(binding: &SessionBinding, hint: Option<(&str, &str)>) -> (r: Route)
    ensures
        match hint {
            Some((root, name)) => r matches Route::Hinted { root: rr, name: nn } && rr@ == root@ && nn@ == name@,
            None => match binding {
                SessionBinding::Unbound => r is Unbound,
                SessionBinding::Project(p) => r matches Route::Bound { root: rr } && rr@ == p@,
                SessionBinding::Group { default_root, default_name, .. } => r matches Route::Defaulted { root: rr, name: nn }
                    && rr@ == default_root@ && nn@ == default_name@,
            },
        },
{
    match hint {
        Some((root, name)) => Route::Hinted { root: owned(root), name: owned(name) },
        None => match binding {
            SessionBinding::Unbound => Route::Unbound,
            SessionBinding::Project(p) => Route::Bound { root: owned(p.as_str()) },
            SessionBinding::Group { default_root, default_name, .. } => Route::Defaulted {
                root: owned(default_root.as_str()),
                name: owned(default_name.as_str()),
            },
        },
    }
}

/// The group a session is bound to, if it is bound to one.
pub open spec fn bound_group(binding: SessionBinding) -> Option<Seq<char>> {
    match binding {
        SessionBinding::Group { name, .. } => Some(name@),
        _ => None,
    }
}

/// The scope a memory is written to when the call names `scope`: the one
/// named, else `group` in a group binding and `local` elsewhere.
pub open spec fn chosen_scope(binding: SessionBinding, scope: Option<Seq<char>>) -> Seq<char> {
    match scope {
        Some(s) => s,
        None => if bound_group(binding) is Some { "group"@ } else { "local"@ },
    }
}

/// What refusing a project-only memory in a group binding says.
pub open spec fn group_local_message(group: Seq<char>) -> Seq<char> {
    "This session is bound to group `"@ + group
        + "`, not to one repository, so `scope: local` has no store to write to. Either name the project with `project` (a registered name, or a path inside it), or use `scope: group` to record this for the whole product."@
}

/// Where a memory a call asks to remember is written: the scope it goes to,
/// and whether that scope was implied by a group binding rather than stated.
/// A scope that is neither `group` nor `global` means one repository's store,
/// which a group binding does not have: without a `project` naming one, the
/// call is refused.
pub fn remember_scope(binding: &SessionBinding, scope: Option<&str>, project_named: bool) -> (r: Result<(String, bool), String>)
    ensures
        ({
            let chosen = chosen_scope(*binding, match scope { Some(s) => Some(s@), None => None });
            if chosen != "group"@ && chosen != "global"@ && bound_group(*binding) is Some && !project_named {
                r matches Err(m) && m@ == group_local_message(bound_group(*binding)->0)
            } else {
                r matches Ok((c, implied)) && c@ == chosen
                    && implied == (bound_group(*binding) is Some && scope is None)
            }
        }),
{
    proof {
        reveal_strlit("group");
        reveal_strlit("global");
        reveal_strlit("local");
        assert("local"@ != "global"@ && "local"@ != "group"@) by {
            assert("local"@.len() == 5 && "global"@.len() == 6 && "group"@.len() == 5);
            assert("local"@[0] == 'l' && "group"@[0] == 'g');
        }
    }
    let group: Option<&str> = match binding {
        SessionBinding::Group { name, .. } => Some(name.as_str()),
        _ => None,
    };
    let implied = group.is_some() && scope.is_none();
    let chosen: String = match scope {
        Some(s) => owned(s),
        None => if group.is_some() { owned("group") } else { owned("local") },
    };
    if !same_text(chosen.as_str(), "group") && !same_text(chosen.as_str(), "global") {
        if let Some(g) = group {
            if !project_named {
                let mut m = owned("This session is bound to group `");
                push_str(&mut m, g);
                push_str(&mut m, "`, not to one repository, so `scope: local` has no store to write to. Either name the project with `project` (a registered name, or a path inside it), or use `scope: group` to record this for the whole product.");
                assert(m@ =~= group_local_message(g@));
                return Err(m);
            }
        }
    }
    Ok((chosen, implied))
}

/// Who a remembered memory is attributed to. In a group binding a call that
/// named no project is the group's, never a member's; otherwise the project
/// a hint resolved to, if any. The first of the pair is what is recorded as
/// the memory's provenance, the second what the answer names.
pub fn attribution(binding: &SessionBinding, resolved: Option<&str>) -> (r: (Option<String>, Option<String>))
    ensures
        ({
            let provenance = if bound_group(*binding) is Some && resolved is None { bound_group(*binding) } else { None };
            &&& match r.0 { Some(p) => provenance == Some(p@), None => provenance is None }
            &&& match r.1 {
                Some(a) => (provenance is Some && provenance == Some(a@))
                    || (provenance is None && (resolved matches Some(x) && x@ == a@)),
                None => provenance is None && resolved is None,
            }
        }),
{
    let provenance: Option<String> = match (binding, resolved) {
        (SessionBinding::Group { name, .. }, None) => Some(owned(name.as_str())),
        _ => None,
    };
    let attributed: Option<String> = match &provenance {
        Some(p) => Some(owned(p.as_str())),
        None => match resolved {
            Some(x) => Some(owned(x)),
            None => None,
        },
    };
    (provenance, attributed)
}

/// Where a recall goes.
#[derive(Debug, Clone, PartialEq, Eq)]
pub enum RecallRoute {
    /// Refused: only the local tier needs a project, and none is bound.
    NeedsBinding,
    /// To the global tier, which needs no project.
    Global,
    /// Across the group: its shared tier and every member's own memories.
    Group { scope: String },
    /// To the bound project, in this scope.
    Bound { scope: String },
}

/// Route a recall. Unbound, a recall reaches the global tier, unless it asked
/// for the local one only; bound, it searches the scope asked for, `all`
/// when none was.
pub fn recall_route(binding: &SessionBinding, scope: Option<&str>) -> (r: RecallRoute)
    ensures
        match binding {
            SessionBinding::Unbound => if scope matches Some(s) && s@ == "local"@ {
                r is NeedsBinding
            } else {
                r is Global
            },
            SessionBinding::Group { .. } => r matches RecallRoute::Group { scope: sc }
                && sc@ == (match scope { Some(s) => s@, None => "all"@ }),
            SessionBinding::Project(_) => r matches RecallRoute::Bound { scope: sc }
                && sc@ == (match scope { Some(s) => s@, None => "all"@ }),
        },
{
    let sc: String = match scope {
        Some(s) => owned(s),
        None => owned("all"),
    };
    match binding {
        SessionBinding::Unbound => {
            match scope {
                Some(s) => if same_text(s, "local") { RecallRoute::NeedsBinding } else { RecallRoute::Global },
                None => RecallRoute::Global,
            }
        },
        SessionBinding::Group { .. } => RecallRoute::Group { scope: sc },
        SessionBinding::Project(_) => RecallRoute::Bound { scope: sc },
    }
}

/// The keys of a list of entries.
pub open spec fn keys_of<V>(entries: Seq<(String, V)>) -> Seq<Seq<char>> {
    Seq::new(entries.len(), |i: int| entries[i].0@)
}

/// No key occurs twice.
pub open spec fn unique_keys(keys: Seq<Seq<char>>) -> bool {
    forall|a: int, b: int| 0 <= a < b < keys.len() ==> keys[a] != keys[b]
}

/// The entries as a map from key to value.
pub open spec fn entries_map<V>(entries: Seq<(String, V)>) -> Map<Seq<char>, V>
    decreases entries.len(),
{
    if entries.len() == 0 {
        Map::empty()
    } else {
        entries_map(entries.drop_last()).insert(entries.last().0@, entries.last().1)
    }
}

proof fn lemma_entries_map_keys<V>(entries: Seq<(String, V)>, k: Seq<char>)
    ensures
        entries_map(entries).contains_key(k) <==> keys_of(entries).contains(k),
    decreases entries.len(),
{
    if entries.len() > 0 {
        let rest = entries.drop_last();
        lemma_entries_map_keys(rest, k);
        let ks = keys_of(rest);
        let all = keys_of(entries);
        let x = entries.last().0@;
        assert(all =~= ks.push(x));
        if k == x {
            assert(all[entries.len() - 1] == k);
        } else {
            if ks.contains(k) {
                let j = choose|j: int| 0 <= j < ks.len() && ks[j] == k;
                assert(all[j] == k);
            }
            if all.contains(k) {
                let j = choose|j: int| 0 <= j < all.len() && all[j] == k;
                assert(j < ks.len());
                assert(ks[j] == k);
            }
        }
    } else {
        assert(keys_of(entries) =~= Seq::<Seq<char>>::empty());
    }
}

proof fn lemma_entries_map_at<V>(entries: Seq<(String, V)>, i: int)
    requires
        0 <= i < entries.len(),
        unique_keys(keys_of(entries)),
    ensures
        entries_map(entries).contains_key(entries[i].0@),
        entries_map(entries)[entries[i].0@] == entries[i].1,
    decreases entries.len(),
{
    let rest = entries.drop_last();
    if i < entries.len() - 1 {
        assert(keys_of(rest) =~= keys_of(entries).drop_last());
        assert(unique_keys(keys_of(rest)));
        lemma_entries_map_at(rest, i);
        assert(keys_of(entries)[i] != keys_of(entries)[entries.len() - 1]);
        assert(rest[i] == entries[i]);
    }
}

proof fn lemma_entries_map_update<V>(entries: Seq<(String, V)>, i: int, e: (String, V))
    requires
        0 <= i < entries.len(),
        entries[i].0@ == e.0@,
        unique_keys(keys_of(entries)),
    ensures
        entries_map(entries.update(i, e)) == entries_map(entries).insert(e.0@, e.1),
    decreases entries.len(),
{
    let n = entries.len() - 1;
    let rest = entries.drop_last();
    let upd = entries.update(i, e);
    if i == n {
        assert(upd.drop_last() =~= rest);
        // the key of the last entry occurs nowhere before it
        assert(entries_map(entries) =~= entries_map(rest).insert(entries[n].0@, entries[n].1));
        assert(entries_map(upd) =~= entries_map(rest).insert(e.0@, e.1));
        assert(entries_map(upd) =~= entries_map(entries).insert(e.0@, e.1));
    } else {
        assert(keys_of(rest) =~= keys_of(entries).drop_last());
        assert(unique_keys(keys_of(rest)));
        assert(upd.drop_last() =~= rest.update(i, e));
        lemma_entries_map_update(rest, i, e);
        assert(keys_of(entries)[i] != keys_of(entries)[n]);
        assert(upd.last() == entries.last());
        assert(entries_map(upd) =~= entries_map(entries).insert(e.0@, e.1));
    }
}

/// The projects opened for hints, by root, at most [`HINT_CACHE_CAP`] of them.
pub struct HintCache<V> {
    entries: Vec<(String, V)>,
}

impl<V> HintCache<V> {
    /// The cached roots and what is open for each.
    pub closed spec fn view(&self) -> Map<Seq<char>, V> {
        entries_map(self.entries@)
    }

    /// How many roots are cached.
    pub closed spec fn size(&self) -> nat {
        self.entries@.len()
    }

    #[verifier::type_invariant]
    spec fn well_formed(&self) -> bool {
        &&& unique_keys(keys_of(self.entries@))
        &&& self.entries@.len() <= HINT_CACHE_CAP
    }

    /// Nothing cached.
    pub fn new() -> (c: Self)
        ensures
            c.view() == Map::<Seq<char>, V>::empty(),
            c.size() == 0,
    {
        HintCache { entries: Vec::new() }
    }

    /// What is open for `root`, if it is cached.
    pub fn get(&self, root: &str) -> (r: Option<&V>)
        ensures
            match r {
                Some(v) => self.view().contains_key(root@) && self.view()[root@] == *v,
                None => !self.view().contains_key(root@),
            },
    {
        proof {
            use_type_invariant(self);
        }
        let mut i: usize = 0;
        while i < self.entries.len()
            invariant
                i <= self.entries@.len(),
                unique_keys(keys_of(self.entries@)),
                forall|j: int| 0 <= j < i ==> (#[trigger] self.entries@[j]).0@ != root@,
            decreases self.entries@.len() - i,
        {
            if same_text(self.entries[i].0.as_str(), root) {
                proof {
                    lemma_entries_map_at(self.entries@, i as int);
                }
                return Some(&self.entries[i].1);
            }
            i = i + 1;
        }
        proof {
            lemma_entries_map_keys(self.entries@, root@);
            if keys_of(self.entries@).contains(root@) {
                let k = choose|k: int| 0 <= k < keys_of(self.entries@).len() && keys_of(self.entries@)[k] == root@;
                assert(self.entries@[k].0@ == root@);
            }
        }
        None
    }

    /// Keep `value` open for `root`. When the cache is full it is emptied
    /// first, so it never holds more than [`HINT_CACHE_CAP`] roots; a root
    /// already cached has its value replaced.
    pub fn insert(&mut self, root: String, value: V)
        ensures
            final(self).view().contains_key(root@),
            final(self).view()[root@] == value,
            final(self).size() <= HINT_CACHE_CAP,
            old(self).size() >= HINT_CACHE_CAP ==> final(self).view() == Map::<Seq<char>, V>::empty().insert(root@, value),
            old(self).size() < HINT_CACHE_CAP ==> final(self).view() == old(self).view().insert(root@, value),
    {
        proof {
            use_type_invariant(&*self);
        }
        let ghost key = root@;
        let ghost val = value;
        let mut entries: Vec<(String, V)> = Vec::new();
        std::mem::swap(&mut entries, &mut self.entries);
        let ghost old_entries = entries@;
        if entries.len() >= HINT_CACHE_CAP {
            let mut fresh: Vec<(String, V)> = Vec::new();
            fresh.push((root, value));
            proof {
                assert(fresh@.len() == 1);
                assert(fresh@.last().0@ == key && fresh@.last().1 == val);
                assert(fresh@.drop_last() =~= Seq::<(String, V)>::empty());
                assert(entries_map(fresh@.drop_last()) == Map::<Seq<char>, V>::empty());
                assert(entries_map(fresh@) == entries_map(fresh@.drop_last()).insert(key, val));
                assert(keys_of(fresh@) =~= seq![key]);
            }
            self.entries = fresh;
            assert(self.view() =~= Map::<Seq<char>, V>::empty().insert(key, val));
            return;
        }
        // Replace the value of a root already cached, else add it.
        let mut i: usize = 0;
        let mut found = false;
        while i < entries.len()
            invariant_except_break
                i <= entries@.len(),
                root@ == key,
                entries@ == old_entries,
                !found,
                forall|j: int| 0 <= j < i ==> (#[trigger] entries@[j]).0@ != key,
            ensures
                i <= entries@.len(),
                root@ == key,
                entries@ == old_entries,
                found ==> i < entries@.len() && entries@[i as int].0@ == key,
                !found ==> forall|j: int| 0 <= j < entries@.len() ==> (#[trigger] entries@[j]).0@ != key,
            decreases entries@.len() - i,
        {
            if same_text(entries[i].0.as_str(), root.as_str()) {
                found = true;
                break;
            }
            i = i + 1;
        }
        if found {
            let ghost e = (root, value);
            entries.set(i, (root, value));
            proof {
                assert(entries@ == old_entries.update(i as int, e));
                lemma_entries_map_update(old_entries, i as int, e);
                assert(keys_of(entries@) =~= keys_of(old_entries));
            }
        } else {
            let ghost e = (root, value);
            entries.push((root, value));
            proof {
                assert(entries@.drop_last() =~= old_entries);
                let ks0 = keys_of(old_entries);
                assert(keys_of(entries@) =~= ks0.push(key));
                assert forall|a: int, b: int| 0 <= a < b < keys_of(entries@).len() implies
                    keys_of(entries@)[a] != keys_of(entries@)[b] by {
                    if b == ks0.len() {
                        assert(old_entries[a].0@ != key);
                    }
                }
            }
        }
        self.entries = entries;
    }
}

} // verus!
