//! Reciprocal rank fusion: combine ranked lists by *position*, not by score.
//!
//! Scores from different lists are often incomparable — a vector similarity
//! against a BM25 weight, or two vector scores from different embedding models.
//! Position is the one thing they agree on, and an item that surfaces in several
//! lists is rewarded for it.
//!
//! What an item scores is a function of the positions it holds, list by list:
//! the reciprocal-rank sum `Σ 1 / (60 + r + 1)` in floating point, which the
//! caller computes. The library gathers each item's positions, asks the caller
//! for its score, and orders by it.

use vstd::prelude::*;
use crate::text::{chars_of, views};

verus! {

/// The zero-based positions at which `key` stands among the first `n` items
/// of one list, in order.
pub open spec fn list_positions(l: Seq<Seq<char>>, key: Seq<char>, n: int) -> Seq<usize>
    decreases n,
{
    if n <= 0 {
        Seq::empty()
    } else {
        let r = list_positions(l, key, n - 1);
        if l[n - 1] == key { r.push((n - 1) as usize) } else { r }
    }
}

/// The positions `key` holds in the first `m` lists, list by list.
pub open spec fn lists_positions(ks: Seq<Seq<Seq<char>>>, key: Seq<char>, m: int) -> Seq<usize>
    decreases m,
{
    if m <= 0 {
        Seq::empty()
    } else {
        lists_positions(ks, key, m - 1) + list_positions(ks[m - 1], key, ks[m - 1].len() as int)
    }
}

/// Every position `key` holds, list by list, each list from the top.
pub open spec fn key_positions(ks: Seq<Seq<Seq<char>>>, key: Seq<char>) -> Seq<usize> {
    lists_positions(ks, key, ks.len() as int)
}

/// Strict lexicographic order on keys, character by character — the order
/// `String`'s `Ord` gives, since UTF-8 preserves code-point order.
pub open spec fn key_lt(a: Seq<char>, b: Seq<char>) -> bool
    decreases a.len(),
{
    if a.len() == 0 {
        b.len() > 0
    } else if b.len() == 0 {
        false
    } else if a[0] < b[0] {
        true
    } else if a[0] == b[0] {
        key_lt(a.drop_first(), b.drop_first())
    } else {
        false
    }
}

/// `a` is placed before `b`: a higher score for its positions, ties broken by
/// key.
pub open spec fn ranks_before(ks: Seq<Seq<Seq<char>>>, sf: spec_fn(Seq<usize>) -> u32, a: Seq<char>, b: Seq<char>) -> bool {
    sf(key_positions(ks, a)) > sf(key_positions(ks, b)) || (sf(key_positions(ks, a)) == sf(key_positions(ks, b))
        && key_lt(a, b))
}

/// `(i, j)` names an item of the lists.
pub open spec fn valid_pos(ks: Seq<Seq<Seq<char>>>, i: int, j: int) -> bool {
    0 <= i < ks.len() && 0 <= j < ks[i].len()
}

/// `(i, j)` comes strictly before `(i2, j2)` in list-major order.
pub open spec fn pos_lt(i: int, j: int, i2: int, j2: int) -> bool {
    i < i2 || (i == i2 && j < j2)
}

/// `(i, j)` is the first appearance of its key.
pub open spec fn is_first(ks: Seq<Seq<Seq<char>>>, i: int, j: int) -> bool {
    &&& valid_pos(ks, i, j)
    &&& forall|i2: int, j2: int|
        valid_pos(ks, i2, j2) && pos_lt(i2, j2, i, j) ==> ks[i2][j2] != ks[i][j]
}

/// The key at a chosen position.
pub open spec fn key_at(ks: Seq<Seq<Seq<char>>>, p: (usize, usize)) -> Seq<char> {
    ks[p.0 as int][p.1 as int]
}

/// `r` is the fusion of `ks` cut at `limit`: first appearances, one per key,
/// in strictly decreasing rank, and nothing left out that ranks above them.
pub open spec fn is_fusion(ks: Seq<Seq<Seq<char>>>, sf: spec_fn(Seq<usize>) -> u32, limit: nat, r: Seq<(usize, usize)>) -> bool {
    &&& r.len() <= limit
    &&& forall|t: int| 0 <= t < r.len() ==> is_first(ks, #[trigger] r[t].0 as int, r[t].1 as int)
    &&& forall|t: int, u: int|
        0 <= t < u < r.len() ==> ranks_before(ks, sf, key_at(ks, #[trigger] r[t]), key_at(ks, #[trigger] r[u]))
    &&& forall|i: int, j: int| #![trigger ks[i][j]]
        valid_pos(ks, i, j) ==> key_in_fusion(ks, r, ks[i][j]) || (r.len() == limit && forall|t: int|
            0 <= t < r.len() ==> ranks_before(ks, sf, key_at(ks, #[trigger] r[t]), ks[i][j]))
}

/// Some chosen position carries `k`.
pub open spec fn key_in_fusion(ks: Seq<Seq<Seq<char>>>, r: Seq<(usize, usize)>, k: Seq<char>) -> bool {
    exists|t: int| 0 <= t < r.len() && key_at(ks, r[t]) == k
}

pub proof fn lemma_key_lt_irreflexive(a: Seq<char>)
    ensures
        !key_lt(a, a),
    decreases a.len(),
{
    if a.len() > 0 {
        lemma_key_lt_irreflexive(a.drop_first());
    }
}

pub proof fn lemma_key_lt_asymmetric(a: Seq<char>, b: Seq<char>)
    ensures
        !(key_lt(a, b) && key_lt(b, a)),
    decreases a.len(),
{
    if a.len() > 0 && b.len() > 0 && a[0] == b[0] {
        lemma_key_lt_asymmetric(a.drop_first(), b.drop_first());
    }
}

pub proof fn lemma_key_lt_transitive(a: Seq<char>, b: Seq<char>, c: Seq<char>)
    requires
        key_lt(a, b),
        key_lt(b, c),
    ensures
        key_lt(a, c),
    decreases a.len(),
{
    if a.len() > 0 && b.len() > 0 && c.len() > 0 && a[0] == b[0] && b[0] == c[0] {
        lemma_key_lt_transitive(a.drop_first(), b.drop_first(), c.drop_first());
    }
}

pub proof fn lemma_key_lt_total(a: Seq<char>, b: Seq<char>)
    requires
        a != b,
    ensures
        key_lt(a, b) || key_lt(b, a),
    decreases a.len(),
{
    if a.len() > 0 && b.len() > 0 && a[0] == b[0] {
        if a.drop_first() == b.drop_first() {
            assert(a =~= seq![a[0]] + a.drop_first());
            assert(b =~= seq![b[0]] + b.drop_first());
        }
        lemma_key_lt_total(a.drop_first(), b.drop_first());
    } else if a.len() == 0 && b.len() == 0 {
        assert(a =~= b);
    }
}

/// `ranks_before` is a strict total order on keys.
pub proof fn lemma_ranks_before_order(ks: Seq<Seq<Seq<char>>>, sf: spec_fn(Seq<usize>) -> u32, a: Seq<char>, b: Seq<char>, c: Seq<char>)
    ensures
        !ranks_before(ks, sf, a, a),
        !(ranks_before(ks, sf, a, b) && ranks_before(ks, sf, b, a)),
        ranks_before(ks, sf, a, b) && ranks_before(ks, sf, b, c) ==> ranks_before(ks, sf, a, c),
        a != b ==> ranks_before(ks, sf, a, b) || ranks_before(ks, sf, b, a),
{
    lemma_key_lt_irreflexive(a);
    lemma_key_lt_asymmetric(a, b);
    if key_lt(a, b) && key_lt(b, c) {
        lemma_key_lt_transitive(a, b, c);
    }
    if a != b {
        lemma_key_lt_total(a, b);
    }
}

/// Exec twin of [`key_lt`].
pub fn key_less(a: &[char], b: &[char]) -> (r: bool)
    ensures
        r == key_lt(a@, b@),
{
    let mut i: usize = 0;
    assert(a@.skip(0) =~= a@ && b@.skip(0) =~= b@);
    while i < a.len() && i < b.len()
        invariant
            i <= a@.len(),
            i <= b@.len(),
            key_lt(a@, b@) == key_lt(a@.skip(i as int), b@.skip(i as int)),
        decreases a@.len() - i,
    {
        let ghost sa = a@.skip(i as int);
        let ghost sb = b@.skip(i as int);
        if a[i] < b[i] {
            return true;
        }
        if a[i] != b[i] {
            return false;
        }
        assert(sa.drop_first() =~= a@.skip(i + 1));
        assert(sb.drop_first() =~= b@.skip(i + 1));
        i = i + 1;
    }
    proof {
        let sa = a@.skip(i as int);
        let sb = b@.skip(i as int);
        if i == a@.len() {
            assert(sa.len() == 0);
        } else {
            assert(sb.len() == 0);
        }
    }
    i < b.len()
}


/// `k` is one of the keys in `uk`.
pub open spec fn key_listed(uk: Seq<Vec<char>>, k: Seq<char>) -> bool {
    exists|x: int| 0 <= x < uk.len() && uk[x]@ == k
}

/// The views of a vector of lists of keys.
pub open spec fn views3(v: Seq<Vec<Vec<char>>>) -> Seq<Seq<Seq<char>>> {
    Seq::new(v.len(), |i: int| views(v[i]@))
}

/// Exec equality of two keys.
fn same_key(a: &[char], b: &[char]) -> (r: bool)
    ensures
        r == (a@ == b@),
{
    if a.len() != b.len() {
        return false;
    }
    let mut i: usize = 0;
    while i < a.len()
        invariant
            a@.len() == b@.len(),
            i <= a@.len(),
            forall|k: int| 0 <= k < i ==> a@[k] == b@[k],
        decreases a@.len() - i,
    {
        if a[i] != b[i] {
            return false;
        }
        i = i + 1;
    }
    assert(a@ =~= b@);
    true
}

/// The index of `k` among `keys`, if it is there.
fn index_of_key(keys: &Vec<Vec<char>>, k: &[char]) -> (r: Option<usize>)
    ensures
        r matches Some(x) ==> x < keys@.len() && keys@[x as int]@ == k@,
        r is None ==> forall|x: int| 0 <= x < keys@.len() ==> keys@[x]@ != k@,
{
    let mut x: usize = 0;
    while x < keys.len()
        invariant
            x <= keys@.len(),
            forall|y: int| 0 <= y < x ==> keys@[y]@ != k@,
        decreases keys@.len() - x,
    {
        if same_key(keys[x].as_slice(), k) {
            return Some(x);
        }
        x = x + 1;
    }
    None
}

/// Every distinct key with the position it first appears at.
fn tally(keys: &Vec<Vec<Vec<char>>>) -> (t: (Vec<Vec<char>>, Vec<(usize, usize)>))
    ensures
        t.0@.len() == t.1@.len(),
        forall|x: int| 0 <= x < t.0@.len() ==> is_first(views3(keys@), #[trigger] t.1@[x].0 as int, t.1@[x].1 as int),
        forall|x: int| 0 <= x < t.0@.len() ==> key_at(views3(keys@), #[trigger] t.1@[x]) == t.0@[x]@,
        forall|x: int, y: int| 0 <= x < y < t.0@.len() ==> t.0@[x]@ != t.0@[y]@,
        forall|i: int, j: int| #![trigger views3(keys@)[i][j]]
            valid_pos(views3(keys@), i, j) ==> key_listed(t.0@, views3(keys@)[i][j]),
{
    let ghost ks = views3(keys@);
    let mut uk: Vec<Vec<char>> = Vec::new();
    let mut up: Vec<(usize, usize)> = Vec::new();
    let mut i: usize = 0;
    while i < keys.len()
        invariant
            ks == views3(keys@),
            i <= keys@.len(),
            uk@.len() == up@.len(),
            forall|x: int| 0 <= x < uk@.len() ==> is_first(ks, #[trigger] up@[x].0 as int, up@[x].1 as int),
            forall|x: int| 0 <= x < uk@.len() ==> pos_lt(#[trigger] up@[x].0 as int, up@[x].1 as int, i as int, 0),
            forall|x: int| 0 <= x < uk@.len() ==> key_at(ks, #[trigger] up@[x]) == uk@[x]@,
            forall|x: int, y: int| 0 <= x < y < uk@.len() ==> uk@[x]@ != uk@[y]@,
            forall|i2: int, j2: int| #![trigger ks[i2][j2]]
                valid_pos(ks, i2, j2) && i2 < i ==> key_listed(uk@, ks[i2][j2]),
        decreases keys@.len() - i,
    {
        let list = &keys[i];
        let mut j: usize = 0;
        proof {
            assert forall|i2: int, j2: int| #![trigger ks[i2][j2]]
                valid_pos(ks, i2, j2) && pos_lt(i2, j2, i as int, j as int) implies key_listed(uk@, ks[i2][j2]) by {
                assert(valid_pos(ks, i2, j2) && i2 < i);
                let q = ks[i2][j2];
                assert(key_listed(uk@, q));
            }
        }
        while j < list.len()
            invariant
                ks == views3(keys@),
                i < keys@.len(),
                list == &keys@[i as int],
                ks[i as int] == views(list@),
                j <= list@.len(),
                uk@.len() == up@.len(),
                forall|x: int| 0 <= x < uk@.len() ==> is_first(ks, #[trigger] up@[x].0 as int, up@[x].1 as int),
                forall|x: int| 0 <= x < uk@.len() ==> pos_lt(#[trigger] up@[x].0 as int, up@[x].1 as int, i as int, j as int),
                forall|x: int| 0 <= x < uk@.len() ==> key_at(ks, #[trigger] up@[x]) == uk@[x]@,
                forall|x: int, y: int| 0 <= x < y < uk@.len() ==> uk@[x]@ != uk@[y]@,
                forall|i2: int, j2: int| #![trigger ks[i2][j2]]
                    valid_pos(ks, i2, j2) && pos_lt(i2, j2, i as int, j as int) ==> key_listed(uk@, ks[i2][j2]),
            decreases list@.len() - j,
        {
            let k = list[j].as_slice();
            assert(ks[i as int][j as int] == k@);
            let ghost old_uk = uk@;
            let ghost w: int;
            match index_of_key(&uk, k) {
                Some(x) => {
                    proof {
                        w = x as int;
                    }
                }
                None => {
                    proof {
                        w = old_uk.len() as int;
                    }
                    uk.push(list[j].clone());
                    up.push((i, j));
                    proof {
                        assert forall|i2: int, j2: int|
                            valid_pos(ks, i2, j2) && pos_lt(i2, j2, i as int, j as int) implies ks[i2][j2] != ks[i as int][j as int] by {
                            if ks[i2][j2] == k@ {
                                assert(key_listed(old_uk, ks[i2][j2]));
                            }
                        }
                        assert(is_first(ks, i as int, j as int));
                    }
                }
            }
            j = j + 1;
            proof {
                assert(0 <= w < uk@.len() && uk@[w]@ == k@);
                assert forall|i2: int, j2: int| #![trigger ks[i2][j2]]
                    valid_pos(ks, i2, j2) && pos_lt(i2, j2, i as int, j as int) implies key_listed(uk@, ks[i2][j2]) by {
                    if i2 == i && j2 == j - 1 {
                        assert(uk@[w]@ == ks[i2][j2]);
                    } else {
                        assert(pos_lt(i2, j2, i as int, j - 1));
                        let q = ks[i2][j2];
                        assert(key_listed(old_uk, q));
                        let y = choose|x: int| 0 <= x < old_uk.len() && old_uk[x]@ == q;
                        assert(uk@[y]@ == q);
                    }
                }
                assert forall|x: int, y: int| 0 <= x < y < uk@.len() implies uk@[x]@ != uk@[y]@ by {
                    if y == old_uk.len() {
                        assert(uk@[y]@ == k@);
                    }
                }
            }
        }
        i = i + 1;
        proof {
            assert forall|i2: int, j2: int| #![trigger ks[i2][j2]]
                valid_pos(ks, i2, j2) && i2 < i implies key_listed(uk@, ks[i2][j2]) by {
                assert(valid_pos(ks, i2, j2) && pos_lt(i2, j2, i - 1, j as int));
                let q = ks[i2][j2];
                assert(key_listed(uk@, q));
            }
        }
    }
    proof {
        assert forall|i2: int, j2: int| #![trigger views3(keys@)[i2][j2]]
            valid_pos(views3(keys@), i2, j2) implies key_listed(uk@, views3(keys@)[i2][j2]) by {
            assert(valid_pos(ks, i2, j2) && i2 < i);
            let q = ks[i2][j2];
            assert(key_listed(uk@, q));
        }
    }
    (uk, up)
}

/// Every position `k` holds in the lists, list by list.
fn positions_of(keys: &Vec<Vec<Vec<char>>>, k: &[char]) -> (r: Vec<usize>)
    ensures
        r@ == key_positions(views3(keys@), k@),
{
    let ghost ks = views3(keys@);
    let mut r: Vec<usize> = Vec::new();
    let mut i: usize = 0;
    while i < keys.len()
        invariant
            ks == views3(keys@),
            i <= keys@.len(),
            r@ == lists_positions(ks, k@, i as int),
        decreases keys@.len() - i,
    {
        let list = &keys[i];
        let mut j: usize = 0;
        assert(r@ =~= lists_positions(ks, k@, i as int) + list_positions(ks[i as int], k@, 0));
        while j < list.len()
            invariant
                ks == views3(keys@),
                i < keys@.len(),
                list == &keys@[i as int],
                ks[i as int] == views(list@),
                j <= list@.len(),
                r@ == lists_positions(ks, k@, i as int) + list_positions(ks[i as int], k@, j as int),
            decreases list@.len() - j,
        {
            assert(ks[i as int][j as int] == list@[j as int]@);
            let ghost before = r@;
            if same_key(list[j].as_slice(), k) {
                r.push(j);
                assert(r@ =~= lists_positions(ks, k@, i as int) + list_positions(ks[i as int], k@, j + 1));
            } else {
                assert(r@ =~= lists_positions(ks, k@, i as int) + list_positions(ks[i as int], k@, j + 1));
            }
            j = j + 1;
        }
        i = i + 1;
        assert(r@ =~= lists_positions(ks, k@, i as int));
    }
    r
}

/// `score` can answer `v` for the positions `p`.
pub open spec fn gives_score<S: Fn(&Vec<usize>) -> u32>(score: S, p: Seq<usize>, v: u32) -> bool {
    exists|w: Vec<usize>| #[trigger] call_ensures(score, (&w,), v) && w@ == p
}

/// The score `score` gives a list of positions.
pub open spec fn score_of<S: Fn(&Vec<usize>) -> u32>(score: S) -> spec_fn(Seq<usize>) -> u32 {
    |p: Seq<usize>| choose|v: u32| #[trigger] gives_score(score, p, v)
}

/// `score` can be asked about any positions, and gives the same answer for
/// the same positions every time.
pub open spec fn score_is_stable<S: Fn(&Vec<usize>) -> u32>(score: S) -> bool {
    &&& forall|w: &Vec<usize>| #[trigger] call_requires(score, (w,))
    &&& forall|w1: &Vec<usize>, w2: &Vec<usize>, a: u32, b: u32|
        w1@ == w2@ && #[trigger] call_ensures(score, (w1,), a) && #[trigger] call_ensures(score, (w2,), b) ==> a == b
}

/// Ask `score` about `p`: its answer is what [`score_of`] names.
fn score_positions<S: Fn(&Vec<usize>) -> u32>(score: &S, p: &Vec<usize>) -> (v: u32)
    requires
        score_is_stable(*score),
    ensures
        v == score_of(*score)(p@),
{
    let v = score(p);
    proof {
        assert(call_ensures(*score, (p,), v));
        assert(gives_score(*score, p@, v));
        let v2 = score_of(*score)(p@);
        assert(gives_score(*score, p@, v2));
        let w2 = choose|w: Vec<usize>| #[trigger] call_ensures(*score, (&w,), v2) && w@ == p@;
        assert(call_ensures(*score, (&w2,), v2));
    }
    v
}

/// `x` is among the chosen indices.
spec fn index_chosen(chosen: Seq<usize>, x: int) -> bool {
    exists|t: int| 0 <= t < chosen.len() && chosen[t] == x
}

/// Exec twin of `ranks_before` over tallied entries.
fn before_idx(uk: &Vec<Vec<char>>, us: &Vec<u32>, a: usize, b: usize) -> (r: bool)
    requires
        a < uk@.len(),
        b < uk@.len(),
        us@.len() == uk@.len(),
    ensures
        r == (us@[a as int] > us@[b as int] || (us@[a as int] == us@[b as int] && key_lt(
            uk@[a as int]@,
            uk@[b as int]@,
        ))),
{
    us[a] > us[b] || (us[a] == us[b] && key_less(uk[a].as_slice(), uk[b].as_slice()))
}

/// The best untaken entry, if any is left.
fn pick_best(
    ks: Ghost<Seq<Seq<Seq<char>>>>,
    sf: Ghost<spec_fn(Seq<usize>) -> u32>,
    uk: &Vec<Vec<char>>,
    us: &Vec<u32>,
    taken: &Vec<bool>,
) -> (r: Option<usize>)
    requires
        us@.len() == uk@.len() == taken@.len(),
        forall|x: int| 0 <= x < uk@.len() ==> #[trigger] us@[x] == sf@(key_positions(ks@, uk@[x]@)),
        forall|x: int, y: int| 0 <= x < y < uk@.len() ==> uk@[x]@ != uk@[y]@,
    ensures
        r is None ==> forall|x: int| 0 <= x < taken@.len() ==> #[trigger] taken@[x],
        r matches Some(b) ==> b < uk@.len() && !taken@[b as int] && forall|x: int|
            0 <= x < uk@.len() && !taken@[x] && x != b ==> ranks_before(
                ks@,
                sf@,
                uk@[b as int]@,
                #[trigger] uk@[x]@,
            ),
{
    let n = uk.len();
    let mut best: usize = n;
    let mut x: usize = 0;
    while x < n
        invariant
            n == uk@.len(),
            us@.len() == uk@.len() == taken@.len(),
            forall|y: int| 0 <= y < uk@.len() ==> #[trigger] us@[y] == sf@(key_positions(ks@, uk@[y]@)),
            forall|y: int, z: int| 0 <= y < z < uk@.len() ==> uk@[y]@ != uk@[z]@,
            x <= n,
            best <= n,
            best < n ==> best < x && !taken@[best as int],
            best == n ==> forall|y: int| 0 <= y < x ==> #[trigger] taken@[y],
            best < n ==> forall|y: int|
                0 <= y < x && !taken@[y] && y != best ==> ranks_before(
                    ks@,
                    sf@,
                    uk@[best as int]@,
                    #[trigger] uk@[y]@,
                ),
        decreases n - x,
    {
        if !taken[x] {
            if best == n || before_idx(uk, us, x, best) {
                proof {
                    if best < n {
                        assert(ranks_before(ks@, sf@, uk@[x as int]@, uk@[best as int]@));
                        assert forall|y: int|
                            0 <= y < x && !taken@[y] && y != x implies ranks_before(
                                ks@,
                                sf@,
                                uk@[x as int]@,
                                #[trigger] uk@[y]@,
                            ) by {
                            if y != best {
                                lemma_ranks_before_order(ks@, sf@, uk@[x as int]@, uk@[best as int]@, uk@[y]@);
                            }
                        }
                    }
                }
                best = x;
            } else {
                proof {
                    let a = uk@[best as int]@;
                    let b = uk@[x as int]@;
                    assert(a != b);
                    lemma_ranks_before_order(ks@, sf@, a, b, a);
                }
            }
        }
        x = x + 1;
    }
    if best == n {
        None
    } else {
        Some(best)
    }
}

/// The positions of the fused list, cut at `limit`: which item of which list
/// stands at each place of the result.
pub fn fuse_order<S: Fn(&Vec<usize>) -> u32>(keys: &Vec<Vec<Vec<char>>>, score: &S, limit: usize) -> (r: Vec<(usize, usize)>)
    requires
        score_is_stable(*score),
    ensures
        is_fusion(views3(keys@), score_of(*score), limit as nat, r@),
{
    let ghost ks = views3(keys@);
    let ghost sf = score_of(*score);
    let (uk, up) = tally(keys);
    let n = uk.len();
    let mut us: Vec<u32> = Vec::new();
    while us.len() < n
        invariant
            n == uk@.len(),
            us@.len() <= n,
            ks == views3(keys@),
            sf == score_of(*score),
            score_is_stable(*score),
            forall|x: int| 0 <= x < us@.len() ==> #[trigger] us@[x] == sf(key_positions(ks, uk@[x]@)),
        decreases n - us@.len(),
    {
        let x = us.len();
        let p = positions_of(keys, uk[x].as_slice());
        let v = score_positions(score, &p);
        us.push(v);
    }
    let mut taken: Vec<bool> = Vec::new();
    while taken.len() < n
        invariant
            taken@.len() <= n,
            forall|y: int| 0 <= y < taken@.len() ==> !#[trigger] taken@[y],
        decreases n - taken@.len(),
    {
        taken.push(false);
    }
    let mut chosen: Vec<usize> = Vec::new();
    while chosen.len() < limit
        invariant
            n == uk@.len(),
            uk@.len() == up@.len() == us@.len() == taken@.len(),
            forall|x: int| 0 <= x < uk@.len() ==> #[trigger] us@[x] == sf(key_positions(ks, uk@[x]@)),
            forall|x: int, y: int| 0 <= x < y < uk@.len() ==> uk@[x]@ != uk@[y]@,
            chosen@.len() <= limit,
            forall|t: int| 0 <= t < chosen@.len() ==> #[trigger] chosen@[t] < n && taken@[chosen@[t] as int],
            forall|x: int| 0 <= x < n && #[trigger] taken@[x] ==> index_chosen(chosen@, x),
            forall|t: int, u: int|
                0 <= t < u < chosen@.len() ==> ranks_before(
                    ks,
                    sf,
                    uk@[#[trigger] chosen@[t] as int]@,
                    uk@[#[trigger] chosen@[u] as int]@,
                ),
            forall|t: int, x: int|
                0 <= t < chosen@.len() && 0 <= x < n && !taken@[x] ==> ranks_before(
                    ks,
                    sf,
                    uk@[#[trigger] chosen@[t] as int]@,
                    #[trigger] uk@[x]@,
                ),
        ensures
            chosen@.len() == limit || forall|x: int| 0 <= x < n ==> #[trigger] taken@[x],
        decreases limit - chosen@.len(),
    {
        match pick_best(Ghost(ks), Ghost(sf), &uk, &us, &taken) {
            None => {
                break;
            },
            Some(b) => {
                let ghost old_taken = taken@;
                let ghost old_chosen = chosen@;
                taken.set(b, true);
                chosen.push(b);
                proof {
                    assert forall|x: int| 0 <= x < n && #[trigger] taken@[x] implies index_chosen(chosen@, x) by {
                        if x == b {
                            assert(chosen@[chosen@.len() - 1] == b);
                        } else {
                            assert(old_taken[x]);
                            let t = choose|t: int| 0 <= t < old_chosen.len() && old_chosen[t] == x;
                            assert(chosen@[t] == x);
                        }
                    }
                    assert forall|t: int, u: int|
                        0 <= t < u < chosen@.len() implies ranks_before(
                            ks,
                            sf,
                            uk@[#[trigger] chosen@[t] as int]@,
                            uk@[#[trigger] chosen@[u] as int]@,
                        ) by {
                        if u == chosen@.len() - 1 {
                            assert(chosen@[u] == b);
                            assert(!old_taken[b as int]);
                            assert(old_chosen[t] == chosen@[t]);
                        } else {
                            assert(old_chosen[t] == chosen@[t] && old_chosen[u] == chosen@[u]);
                        }
                    }
                    assert forall|t: int, x: int|
                        0 <= t < chosen@.len() && 0 <= x < n && !taken@[x] implies ranks_before(
                            ks,
                            sf,
                            uk@[#[trigger] chosen@[t] as int]@,
                            #[trigger] uk@[x]@,
                        ) by {
                        assert(x != b);
                        if t == chosen@.len() - 1 {
                            assert(chosen@[t] == b);
                        } else {
                            assert(old_chosen[t] == chosen@[t]);
                        }
                    }
                }
            },
        }
    }
    let mut r: Vec<(usize, usize)> = Vec::new();
    let mut t: usize = 0;
    while t < chosen.len()
        invariant
            t <= chosen@.len(),
            r@.len() == t,
            uk@.len() == up@.len(),
            forall|s: int| 0 <= s < chosen@.len() ==> #[trigger] chosen@[s] < uk@.len(),
            forall|s: int| 0 <= s < t ==> #[trigger] r@[s] == up@[chosen@[s] as int],
        decreases chosen@.len() - t,
    {
        r.push(up[chosen[t]]);
        t = t + 1;
    }
    proof {
        assert forall|t: int| 0 <= t < r@.len() implies key_at(ks, #[trigger] r@[t]) == uk@[chosen@[t] as int]@ by {
        }
        assert forall|i: int, j: int| #![trigger ks[i][j]]
            valid_pos(ks, i, j) implies key_in_fusion(ks, r@, ks[i][j]) || (r@.len() == limit && forall|t: int|
                0 <= t < r@.len() ==> ranks_before(ks, sf, key_at(ks, #[trigger] r@[t]), ks[i][j])) by {
            let q = ks[i][j];
            assert(key_listed(uk@, q));
            let x = choose|x: int| 0 <= x < uk@.len() && uk@[x]@ == q;
            if taken@[x] {
                assert(index_chosen(chosen@, x));
                let t = choose|t: int| 0 <= t < chosen@.len() && chosen@[t] == x;
                assert(key_at(ks, r@[t]) == q);
            } else {
                assert forall|t: int| 0 <= t < r@.len() implies ranks_before(ks, sf, key_at(ks, #[trigger] r@[t]), q) by {
                    assert(key_at(ks, r@[t]) == uk@[chosen@[t] as int]@);
                }
            }
        }
    }
    r
}


/// The key `key` gives an item, as characters.
pub open spec fn key_view<T, F: Fn(&T) -> String>(key: F, t: T) -> Seq<char> {
    (choose|k: String| call_ensures(key, (&t,), k))@
}

/// The keys of every item of `lists`.
pub open spec fn keyed<T, F: Fn(&T) -> String>(key: F, lists: Seq<Vec<T>>) -> Seq<Seq<Seq<char>>> {
    Seq::new(lists.len(), |i: int| Seq::new(lists[i]@.len(), |j: int| key_view(key, lists[i]@[j])))
}

/// The items standing at the chosen positions.
pub open spec fn items_at<T>(lists: Seq<Vec<T>>, pos: Seq<(usize, usize)>) -> Seq<T> {
    Seq::new(pos.len(), |t: int| lists[pos[t].0 as int]@[pos[t].1 as int])
}

/// `key` names an item the same way every time it is asked.
pub open spec fn key_is_stable<T, F: Fn(&T) -> String>(key: F) -> bool {
    &&& forall|t: &T| #[trigger] call_requires(key, (t,))
    &&& forall|t: &T, a: String, b: String|
        #[trigger] call_ensures(key, (t,), a) && #[trigger] call_ensures(key, (t,), b) ==> a@ == b@
}

/// Fuse ranked lists, keeping the first occurrence of each item.
///
/// `key` identifies an item across lists. `score` gives an item's fused score
/// from the zero-based positions it holds, list by list and each list from the
/// top, as a number that orders as the score does: the reciprocal-rank sum of
/// `1 / (60 + r + 1)` in `f32`, given as its bits (`f32::to_bits`, which orders
/// non-negative floats as their values), is the usual fusion. The result runs
/// from the highest score down, ties broken by key so the order never depends
/// on anything but the input, and stops after `limit` items.
pub fn fuse_by_rank<T: Copy, F: Fn(&T) -> String, S: Fn(&Vec<usize>) -> u32>(
    lists: Vec<Vec<T>>,
    key: F,
    score: S,
    limit: usize,
) -> (r: Vec<T>)
    requires
        key_is_stable(key),
        score_is_stable(score),
    ensures
        exists|pos: Seq<(usize, usize)>|
            is_fusion(keyed(key, lists@), score_of(score), limit as nat, pos) && r@ == items_at(lists@, pos),
{
    let ghost kd = keyed(key, lists@);
    let mut keys: Vec<Vec<Vec<char>>> = Vec::new();
    let mut i: usize = 0;
    while i < lists.len()
        invariant
            key_is_stable(key),
            kd == keyed(key, lists@),
            i <= lists@.len(),
            keys@.len() == i,
            forall|a: int| 0 <= a < i ==> #[trigger] views(keys@[a]@) == kd[a],
        decreases lists@.len() - i,
    {
        let list = &lists[i];
        let mut row: Vec<Vec<char>> = Vec::new();
        let mut j: usize = 0;
        while j < list.len()
            invariant
                key_is_stable(key),
                kd == keyed(key, lists@),
                i < lists@.len(),
                list == &lists@[i as int],
                j <= list@.len(),
                row@.len() == j,
                forall|b: int| 0 <= b < j ==> #[trigger] row@[b]@ == kd[i as int][b],
            decreases list@.len() - j,
        {
            let item = &list[j];
            let k = key(item);
            proof {
                let c = choose|c: String| call_ensures(key, (item,), c);
                assert(call_ensures(key, (item,), c));
                assert(c@ == k@);
            }
            row.push(chars_of(k.as_str()));
            j = j + 1;
        }
        assert(views(row@) =~= kd[i as int]);
        keys.push(row);
        i = i + 1;
    }
    assert(views3(keys@) =~= kd);
    let pos = fuse_order(&keys, &score, limit);
    let mut r: Vec<T> = Vec::new();
    let mut t: usize = 0;
    while t < pos.len()
        invariant
            is_fusion(kd, score_of(score), limit as nat, pos@),
            kd == keyed(key, lists@),
            t <= pos@.len(),
            r@ == items_at(lists@, pos@.take(t as int)),
        decreases pos@.len() - t,
    {
        let (a, b) = pos[t];
        assert(is_first(kd, a as int, b as int));
        r.push(lists[a][b]);
        t = t + 1;
        assert(r@ =~= items_at(lists@, pos@.take(t as int)));
    }
    assert(pos@.take(pos@.len() as int) =~= pos@);
    r
}

} // verus!
