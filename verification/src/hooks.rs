//! Git hook scripts that keep a repository's index fresh.
//!
//! Two hooks are managed: `post-commit` catches one's own commits, and
//! `post-merge` catches merges and fast-forward pulls, which `post-commit`
//! never sees. Our part of a hook is written between two marker lines, so an
//! existing hook is extended rather than clobbered and can be cleaned again.
//! Reading and writing the files is the caller's business; what goes into them
//! is decided here.

use vstd::prelude::*;
use crate::text::trim;
use crate::text::{
    all_ws, chars_of, contains, find, is_blank, lines, lines_of, occurs_at, owned, push_char,
    push_range, push_str, starts_with, starts_with_chars, views, trim_end, trim_bounds, same_text,
};

verus! {

/// Opening marker of the managed block.
pub const BEGIN: &'static str = "# >>> devctx (managed) >>>";

/// Closing marker of the managed block.
pub const END: &'static str = "# <<< devctx (managed) <<<";

/// The hooks DevCtxEngine manages: `post-commit` for one's own commits,
/// `post-merge` for merges and fast-forward pulls.
pub const HOOKS: [&'static str; 2] = ["post-commit", "post-merge"];

/// When the hook fires, in the words of its comment.
pub open spec fn when_spec(hook: Seq<char>) -> Seq<char> {
    if hook == "post-merge"@ {
        "after a merge or a fast-forward pull"@
    } else {
        "after each commit"@
    }
}

/// The managed block for `hook`, running the binary at `exe`: it re-indexes in
/// the background, detached and silent, and never fails the git command.
pub open spec fn block_spec(exe: Seq<char>, hook: Seq<char>) -> Seq<char> {
    BEGIN@ + "\n# Re-index this repository "@ + when_spec(hook)
        + ". Detached and silent: git must never\n# wait on indexing, and must never fail because of it.\n(\""@
        + exe + "\" index >/dev/null 2>&1 &) || true\n"@ + END@ + "\n"@
}

/// The managed block: re-index in the background so git stays instant.
///
/// When the hook fires is woven into the comment, so a reader of the hook file
/// learns what this one is for; the command is the same either way.
pub fn block(exe: &str, hook: &str) -> (b: String)
    ensures
        b@ == block_spec(exe@, hook@),
{
    let when = if same_text(hook, "post-merge") {
        "after a merge or a fast-forward pull"
    } else {
        "after each commit"
    };
    let mut b = owned(BEGIN);
    push_str(&mut b, "\n# Re-index this repository ");
    push_str(&mut b, when);
    push_str(
        &mut b,
        ". Detached and silent: git must never\n# wait on indexing, and must never fail because of it.\n(\"",
    );
    push_str(&mut b, exe);
    push_str(&mut b, "\" index >/dev/null 2>&1 &) || true\n");
    push_str(&mut b, END);
    push_str(&mut b, "\n");
    b
}

/// `i` is where `p` first occurs in `s`.
pub open spec fn first_occ(s: Seq<char>, p: Seq<char>, i: int) -> bool {
    occurs_at(s, p, i) && forall|j: int| 0 <= j < i ==> !occurs_at(s, p, j)
}

/// `s` with one leading newline removed.
pub open spec fn strip_nl(s: Seq<char>) -> Seq<char> {
    if s.len() > 0 && s[0] == '\n' {
        s.drop_first()
    } else {
        s
    }
}

/// `s` with its managed block cut out: from the first opening marker to the
/// end of the first closing marker and the newline after it. `s` is returned
/// as it is when a marker is missing or the closing one comes first.
pub open spec fn without_block_spec(s: Seq<char>) -> Seq<char> {
    if contains(s, BEGIN@) && contains(s, END@) {
        let st = choose|i: int| first_occ(s, BEGIN@, i);
        let en = choose|i: int| first_occ(s, END@, i);
        if en < st {
            s
        } else {
            s.take(st) + strip_nl(s.skip(en + END@.len()))
        }
    } else {
        s
    }
}

proof fn lemma_first_occ_unique(s: Seq<char>, p: Seq<char>, i: int, j: int)
    requires
        first_occ(s, p, i),
        first_occ(s, p, j),
    ensures
        i == j,
{
    if i < j {
        assert(!occurs_at(s, p, i));
    }
    if j < i {
        assert(!occurs_at(s, p, j));
    }
}

/// Strip any existing managed block, returning the rest of the script.
pub fn without_block(existing: &str) -> (r: String)
    ensures
        r@ == without_block_spec(existing@),
{
    let v = chars_of(existing);
    let b = chars_of(BEGIN);
    let e = chars_of(END);
    let (start, end) = match (find(v.as_slice(), b.as_slice()), find(v.as_slice(), e.as_slice())) {
        (Some(s), Some(t)) => (s, t),
        (Some(s), None) => {
            return owned(existing);
        },
        (None, _) => {
            return owned(existing);
        },
    };
    proof {
        assert(contains(v@, b@));
        assert(contains(v@, e@));
        assert(first_occ(v@, b@, start as int));
        assert(first_occ(v@, e@, end as int));
        let st = choose|i: int| first_occ(v@, b@, i);
        let en = choose|i: int| first_occ(v@, e@, i);
        lemma_first_occ_unique(v@, b@, st, start as int);
        lemma_first_occ_unique(v@, e@, en, end as int);
    }
    if end < start {
        return owned(existing);
    }
    let mut out = String::new();
    push_range(&mut out, v.as_slice(), 0, start);
    assert(occurs_at(v@, e@, end as int));
    let vl = v.len();
    let el = e.len();
    assert(end + el <= vl);
    let mut from = end + el;
    if from < v.len() && v[from] == '\n' {
        from = from + 1;
    }
    push_range(&mut out, v.as_slice(), from, v.len());
    proof {
        let tail = v@.skip(end + e@.len());
        assert(v@.subrange(0, start as int) =~= v@.take(start as int));
        if tail.len() > 0 && tail[0] == '\n' {
            assert(v@.subrange(from as int, v@.len() as int) =~= tail.drop_first());
        } else {
            assert(v@.subrange(from as int, v@.len() as int) =~= tail);
        }
    }
    out
}

/// Whether a hook script carries our managed block.
pub fn has_block(script: &str) -> (b: bool)
    ensures
        b == contains(script@, BEGIN@),
{
    let v = chars_of(script);
    let m = chars_of(BEGIN);
    match find(v.as_slice(), m.as_slice()) {
        Some(_) => true,
        None => false,
    }
}

/// The script a hook holds after installing: what the user had (without our
/// old block and trailing blank space), or a bare shebang when that is
/// nothing, followed by a fresh managed block.
pub open spec fn installed_script(existing: Seq<char>, exe: Seq<char>, hook: Seq<char>) -> Seq<char> {
    let base = if all_ws(existing) {
        "#!/bin/sh\n"@
    } else {
        let kept = without_block_spec(existing);
        if all_ws(kept) {
            "#!/bin/sh\n"@
        } else {
            trim_end(kept) + "\n"@
        }
    };
    base + block_spec(exe, hook)
}

/// The script to write into `hook` when installing, given what it holds now
/// (empty when there is no such file) and the path of the binary.
///
/// Refreshing is safe: our old block is dropped and whatever else the user
/// has is kept.
pub fn install_script(existing: &str, exe: &str, hook: &str) -> (r: String)
    ensures
        r@ == installed_script(existing@, exe@, hook@),
{
    let ev = chars_of(existing);
    let mut script = if is_blank(ev.as_slice()) {
        owned("#!/bin/sh\n")
    } else {
        let kept = without_block(existing);
        let kv = chars_of(kept.as_str());
        if is_blank(kv.as_slice()) {
            owned("#!/bin/sh\n")
        } else {
            let (_, k) = trim_bounds(kv.as_slice());
            let mut s = String::new();
            push_range(&mut s, kv.as_slice(), 0, k);
            assert(kv@.subrange(0, k as int) =~= kv@.take(k as int));
            push_char(&mut s, '\n');
            assert(s@ =~= trim_end(kv@) + "\n"@) by {
                reveal_strlit("\n");
            }
            s
        }
    };
    let blk = block(exe, hook);
    push_str(&mut script, blk.as_str());
    script
}

/// What uninstalling does to one hook file.
pub enum HookEdit {
    /// The file carries no managed block: leave it alone.
    Keep,
    /// Only a shebang or blank lines would be left: the hook was ours alone,
    /// so the file goes.
    Remove,
    /// Write back this script, the user's part of the hook.
    Write(String),
}

/// Every line of `s` is blank or a `#!` line.
pub open spec fn only_shebang(s: Seq<char>) -> bool {
    forall|i: int| 0 <= i < lines(s).len() ==> all_ws(#[trigger] lines(s)[i]) || starts_with(lines(s)[i], "#!"@)
}

/// What uninstalling does to a hook file holding `existing`.
pub fn uninstall_edit(existing: &str) -> (r: HookEdit)
    ensures
        !contains(existing@, BEGIN@) ==> r is Keep,
        contains(existing@, BEGIN@) && only_shebang(without_block_spec(existing@)) ==> r is Remove,
        contains(existing@, BEGIN@) && !only_shebang(without_block_spec(existing@)) ==> (r matches HookEdit::Write(s)
            && s@ == without_block_spec(existing@)),
{
    if !has_block(existing) {
        return HookEdit::Keep;
    }
    let kept = without_block(existing);
    let kv = chars_of(kept.as_str());
    let ls = lines_of(kv.as_slice());
    let shebang = chars_of("#!");
    let mut i: usize = 0;
    while i < ls.len()
        invariant
            views(ls@) == lines(kv@),
            kv@ == without_block_spec(existing@),
            shebang@ == "#!"@,
            contains(existing@, BEGIN@),
            kept@ == kv@,
            i <= ls@.len(),
            forall|j: int| 0 <= j < i ==> all_ws(#[trigger] lines(kv@)[j]) || starts_with(lines(kv@)[j], "#!"@),
        decreases ls@.len() - i,
    {
        let l = &ls[i];
        assert(l@ == lines(kv@)[i as int]);
        if !is_blank(l.as_slice()) && !starts_with_chars(l.as_slice(), shebang.as_slice()) {
            return HookEdit::Write(kept);
        }
        i = i + 1;
    }
    HookEdit::Remove
}

} // verus!

verus! {

/// No character of `s` is `c`.
pub open spec fn lacks(s: Seq<char>, c: char) -> bool {
    forall|i: int| 0 <= i < s.len() ==> s[i] != c
}

/// A pattern without `c` never straddles a `c`: each occurrence lies wholly
/// on one side of it.
proof fn lemma_split_at_char(x: Seq<char>, c: char, y: Seq<char>, q: Seq<char>, i: int)
    requires
        lacks(q, c),
        occurs_at(x + seq![c] + y, q, i),
    ensures
        occurs_at(x, q, i) || occurs_at(y, q, i - x.len() - 1),
{
    let s = x + seq![c] + y;
    if i + q.len() <= x.len() {
        assert(s.subrange(i, i + q.len()) =~= x.subrange(i, i + q.len()));
    } else if i > x.len() {
        assert(s.subrange(i, i + q.len()) =~= y.subrange(i - x.len() - 1, i - x.len() - 1 + q.len()));
    } else {
        assert(s.subrange(i, i + q.len())[x.len() - i] == s[x.len() as int]);
        assert(q[x.len() - i] == c);
    }
}

/// Two stretches free of a pattern stay free of it when joined by a
/// character the pattern lacks.
proof fn lemma_join_free(x: Seq<char>, c: char, y: Seq<char>, q: Seq<char>)
    requires
        lacks(q, c),
        !contains(x, q),
        !contains(y, q),
    ensures
        !contains(x + seq![c] + y, q),
{
    if contains(x + seq![c] + y, q) {
        let i = choose|i: int| occurs_at(x + seq![c] + y, q, i);
        lemma_split_at_char(x, c, y, q, i);
        assert(occurs_at(y, q, i - x.len() - 1) ==> contains(y, q));
    }
}

/// A stretch without some character of a pattern does not hold the pattern.
proof fn lemma_lacks_pattern(t: Seq<char>, q: Seq<char>, k: int)
    requires
        0 <= k < q.len(),
        lacks(t, q[k]),
    ensures
        !contains(t, q),
{
    if contains(t, q) {
        let i = choose|i: int| occurs_at(t, q, i);
        assert(t.subrange(i, i + q.len())[k] == t[i + k]);
    }
}

/// The block's lines, as the law reasons about them.
proof fn lemma_block_shape(exe: Seq<char>, hook: Seq<char>)
    ensures
        block_spec(exe, hook) == BEGIN@ + seq!['\n'] + ("# Re-index this repository "@ + when_spec(hook)
            + ". Detached and silent: git must never"@) + seq!['\n']
            + "# wait on indexing, and must never fail because of it."@ + seq!['\n'] + ("("@ + seq!['"'] + (exe
            + seq!['"'] + " index >/dev/null 2>&1 &) || true"@)) + seq!['\n'] + END@ + seq!['\n'],
{
    reveal_strlit("\n# Re-index this repository ");
    reveal_strlit("# Re-index this repository ");
    reveal_strlit(". Detached and silent: git must never\n# wait on indexing, and must never fail because of it.\n(\"");
    reveal_strlit(". Detached and silent: git must never");
    reveal_strlit("# wait on indexing, and must never fail because of it.");
    reveal_strlit("(");
    reveal_strlit("\" index >/dev/null 2>&1 &) || true\n");
    reveal_strlit(" index >/dev/null 2>&1 &) || true");
    reveal_strlit("\n");
    assert(block_spec(exe, hook) =~= BEGIN@ + seq!['\n'] + ("# Re-index this repository "@ + when_spec(hook)
        + ". Detached and silent: git must never"@) + seq!['\n']
        + "# wait on indexing, and must never fail because of it."@ + seq!['\n'] + ("("@ + seq!['"'] + (exe
        + seq!['"'] + " index >/dev/null 2>&1 &) || true"@)) + seq!['\n'] + END@ + seq!['\n']);
}

/// Everything of the block before its closing marker is free of that marker.
proof fn lemma_block_body_free(exe: Seq<char>, hook: Seq<char>)
    requires
        !contains(exe, END@),
    ensures
        !contains(
            BEGIN@ + seq!['\n'] + ("# Re-index this repository "@ + when_spec(hook)
                + ". Detached and silent: git must never"@) + seq!['\n']
                + "# wait on indexing, and must never fail because of it."@ + seq!['\n'] + ("("@ + seq!['"'] + (
            exe + seq!['"'] + " index >/dev/null 2>&1 &) || true"@)),
            END@,
        ),
{
    reveal_strlit("# <<< devctx (managed) <<<");
    reveal_strlit("# >>> devctx (managed) >>>");
    reveal_strlit("# Re-index this repository ");
    reveal_strlit(". Detached and silent: git must never");
    reveal_strlit("# wait on indexing, and must never fail because of it.");
    reveal_strlit("(");
    reveal_strlit(" index >/dev/null 2>&1 &) || true");
    reveal_strlit("after a merge or a fast-forward pull");
    reveal_strlit("after each commit");
    let e = END@;
    assert(e[2] == '<');
    assert(lacks(e, '\n'));
    assert(lacks(e, '"'));
    let r3 = " index >/dev/null 2>&1 &) || true"@;
    assert(lacks(r3, '<'));
    lemma_lacks_pattern(r3, e, 2);
    lemma_join_free(exe, '"', r3, e);
    let open = "("@;
    assert(lacks(open, '<'));
    lemma_lacks_pattern(open, e, 2);
    lemma_join_free(open, '"', exe + seq!['"'] + r3, e);
    assert(open + seq!['"'] + (exe + seq!['"'] + r3) =~= open + seq!['"'] + (exe + seq!['"'] + r3));
    let r2 = "# wait on indexing, and must never fail because of it."@;
    assert(lacks(r2, '<'));
    lemma_lacks_pattern(r2, e, 2);
    lemma_join_free(r2, '\n', open + seq!['"'] + (exe + seq!['"'] + r3), e);
    let r1 = "# Re-index this repository "@ + when_spec(hook) + ". Detached and silent: git must never"@;
    assert(lacks(when_spec(hook), '<'));
    assert(lacks(r1, '<'));
    lemma_lacks_pattern(r1, e, 2);
    lemma_join_free(r1, '\n', r2 + seq!['\n'] + (open + seq!['"'] + (exe + seq!['"'] + r3)), e);
    let b = BEGIN@;
    assert(lacks(b, '<'));
    lemma_lacks_pattern(b, e, 2);
    lemma_join_free(b, '\n', r1 + seq!['\n'] + (r2 + seq!['\n'] + (open + seq!['"'] + (exe + seq!['"'] + r3))), e);
    assert(b + seq!['\n'] + (r1 + seq!['\n'] + (r2 + seq!['\n'] + (open + seq!['"'] + (exe + seq!['"'] + r3))))
        =~= b + seq!['\n'] + r1 + seq!['\n'] + r2 + seq!['\n'] + (open + seq!['"'] + (exe + seq!['"'] + r3)));
}

/// A hook we do not manage survives untouched: without an opening marker
/// there is nothing to cut.
pub proof fn law_foreign_hook_untouched(s: Seq<char>)
    requires
        !contains(s, BEGIN@),
    ensures
        without_block_spec(s) == s,
{
}

/// Appending a managed block to a script and cutting it out again gives the
/// script back, so `uninstall` undoes `install`. The script must hold
/// neither marker, and the binary's path must not hold the closing marker.
pub proof fn law_block_round_trips(prefix: Seq<char>, exe: Seq<char>, hook: Seq<char>)
    requires
        !contains(prefix, BEGIN@),
        !contains(prefix, END@),
        !contains(exe, END@),
    ensures
        contains(prefix + block_spec(exe, hook), BEGIN@),
        without_block_spec(prefix + block_spec(exe, hook)) == prefix,
{
    reveal_strlit("# <<< devctx (managed) <<<");
    reveal_strlit("# >>> devctx (managed) >>>");
    let e = END@;
    let b = BEGIN@;
    assert(lacks(e, '\n'));
    lemma_block_shape(exe, hook);
    lemma_block_body_free(exe, hook);
    let a = BEGIN@ + seq!['\n'] + ("# Re-index this repository "@ + when_spec(hook)
        + ". Detached and silent: git must never"@) + seq!['\n']
        + "# wait on indexing, and must never fail because of it."@ + seq!['\n'] + ("("@ + seq!['"'] + (exe
        + seq!['"'] + " index >/dev/null 2>&1 &) || true"@));
    let blk = block_spec(exe, hook);
    assert(blk =~= a + seq!['\n'] + e + seq!['\n']);
    // The block's body, between its markers, holds no closing marker.
    let empty = Seq::<char>::empty();
    assert(!contains(empty, e));
    lemma_join_free(a, '\n', empty, e);
    let an = a + seq!['\n'] + empty;
    let m = an.skip(b.len() as int);
    assert(!contains(m, e)) by {
        if contains(m, e) {
            let j = choose|j: int| occurs_at(m, e, j);
            assert(an.subrange(j + b.len(), j + b.len() + e.len()) =~= m.subrange(j, j + e.len()));
            assert(occurs_at(an, e, j + b.len()));
        }
    }
    assert(a.take(b.len() as int) =~= b);
    assert(blk =~= b + m + e + seq!['\n'] + empty);
    law_cut_block(prefix, m, empty);
    assert(prefix + blk =~= prefix + b + m + e + seq!['\n'] + empty);
    assert(prefix + empty =~= prefix);
    assert(occurs_at(prefix + blk, b, prefix.len() as int)) by {
        assert((prefix + blk).subrange(prefix.len() as int, (prefix.len() + b.len()) as int) =~= b);
    }
}


/// A marker's `#` stands only at its start.
proof fn lemma_markers_start_with_hash()
    ensures
        BEGIN@.len() == 26,
        END@.len() == 26,
        BEGIN@[0] == '#',
        END@[0] == '#',
        forall|i: int| 1 <= i < 26 ==> BEGIN@[i] != '#',
        forall|i: int| 1 <= i < 26 ==> END@[i] != '#',
        BEGIN@ != END@,
{
    reveal_strlit("# >>> devctx (managed) >>>");
    reveal_strlit("# <<< devctx (managed) <<<");
    assert(BEGIN@[2] != END@[2]);
}

/// An occurrence of a marker cannot hold a `#` anywhere but at its start.
proof fn lemma_no_inner_hash(s: Seq<char>, x: Seq<char>, j: int, k: int)
    requires
        0 <= j < k < j + x.len(),
        k < s.len(),
        forall|i: int| 1 <= i < x.len() ==> x[i] != '#',
        s[k] == '#',
    ensures
        !occurs_at(s, x, j),
{
    if occurs_at(s, x, j) {
        assert(s.subrange(j, j + x.len())[k - j] == s[k]);
    }
}

/// An occurrence inside `s.take(n)` is an occurrence in that prefix.
proof fn lemma_occurs_in_prefix(s: Seq<char>, x: Seq<char>, j: int, n: int)
    requires
        occurs_at(s, x, j),
        j + x.len() <= n <= s.len(),
    ensures
        occurs_at(s.take(n), x, j),
{
    assert(s.take(n).subrange(j, j + x.len()) =~= s.subrange(j, j + x.len()));
}

/// Cutting the managed block out of a script gives back what stood around
/// it: text before the opening marker, with neither marker in it, and text
/// after the closing marker's line, whatever it holds, are kept as they
/// were. The block's body may hold anything but a closing marker.
pub proof fn law_cut_block(p: Seq<char>, m: Seq<char>, q: Seq<char>)
    requires
        !contains(p, BEGIN@),
        !contains(p, END@),
        !contains(m, END@),
    ensures
        without_block_spec(p + BEGIN@ + m + END@ + seq!['\n'] + q) == p + q,
{
    lemma_markers_start_with_hash();
    let b = BEGIN@;
    let e = END@;
    let s = p + b + m + e + seq!['\n'] + q;
    let st = p.len() as int;
    let en = (p.len() + b.len() + m.len()) as int;
    assert(s[st] == '#');
    assert(s[en] == '#');
    assert(occurs_at(s, b, st)) by {
        assert(s.subrange(st, st + b.len()) =~= b);
    }
    assert(occurs_at(s, e, en)) by {
        assert(s.subrange(en, en + e.len()) =~= e);
    }
    assert(first_occ(s, b, st)) by {
        assert forall|j: int| 0 <= j < st implies !occurs_at(s, b, j) by {
            if occurs_at(s, b, j) {
                if j + b.len() <= st {
                    lemma_occurs_in_prefix(s, b, j, st);
                    assert(s.take(st) =~= p);
                } else {
                    lemma_no_inner_hash(s, b, j, st);
                }
            }
        }
    }
    assert(first_occ(s, e, en)) by {
        assert forall|j: int| 0 <= j < en implies !occurs_at(s, e, j) by {
            if occurs_at(s, e, j) {
                if j + e.len() <= st {
                    lemma_occurs_in_prefix(s, e, j, st);
                    assert(s.take(st) =~= p);
                } else if j < st {
                    lemma_no_inner_hash(s, e, j, st);
                } else if j == st {
                    assert(s.subrange(st, st + b.len()) =~= b);
                } else if j < st + b.len() {
                    assert(s[j] == b[j - st]);
                    assert(s.subrange(j, j + e.len())[0] == s[j]);
                } else if j + e.len() <= en {
                    let mm = s.subrange(st + b.len(), en);
                    assert(mm =~= m);
                    assert(mm.subrange(j - st - b.len(), j - st - b.len() + e.len()) =~= s.subrange(j, j + e.len()));
                    assert(occurs_at(m, e, j - st - b.len()));
                } else {
                    lemma_no_inner_hash(s, e, j, en);
                }
            }
        }
    }
    assert(contains(s, b));
    assert(contains(s, e));
    let cst = choose|i: int| first_occ(s, b, i);
    let cen = choose|i: int| first_occ(s, e, i);
    lemma_first_occ_unique(s, b, cst, st);
    lemma_first_occ_unique(s, e, cen, en);
    assert(s.take(st) =~= p);
    assert(s.skip(en + e.len()) =~= seq!['\n'] + q);
    assert(strip_nl(seq!['\n'] + q) =~= q);
    assert(without_block_spec(s) =~= p + q);
}

/// A script whose markers are missing, or whose closing marker comes before
/// its opening one, is left exactly as it is.
pub proof fn law_unmatched_markers_untouched(s: Seq<char>, st: int, en: int)
    requires
        !contains(s, BEGIN@) || !contains(s, END@) || (first_occ(s, BEGIN@, st) && first_occ(s, END@, en) && en < st),
    ensures
        without_block_spec(s) == s,
{
    if contains(s, BEGIN@) && contains(s, END@) {
        let cst = choose|i: int| first_occ(s, BEGIN@, i);
        let cen = choose|i: int| first_occ(s, END@, i);
        lemma_first_occ_unique(s, BEGIN@, cst, st);
        lemma_first_occ_unique(s, END@, cen, en);
    }
}

proof fn lemma_trim_end_shape(k: Seq<char>)
    ensures
        trim_end(k).len() <= k.len(),
        trim_end(k) == k.take(trim_end(k).len() as int),
        trim_end(k).len() > 0 ==> !crate::text::is_ws(trim_end(k).last()),
        trim_end(k).len() == 0 <==> all_ws(k),
        trim_end(trim_end(k)) == trim_end(k),
    decreases k.len(),
{
    if k.len() > 0 && crate::text::is_ws(k.last()) {
        lemma_trim_end_shape(k.drop_last());
        assert(k.drop_last().take(trim_end(k).len() as int) =~= k.take(trim_end(k).len() as int));
        if all_ws(k.drop_last()) {
            assert forall|i: int| 0 <= i < k.len() implies crate::text::is_ws(#[trigger] k[i]) by {
                if i < k.len() - 1 {
                    assert(k[i] == k.drop_last()[i]);
                }
            }
        }
        if all_ws(k) {
            assert forall|i: int| 0 <= i < k.drop_last().len() implies crate::text::is_ws(#[trigger] k.drop_last()[i]) by {
                assert(k[i] == k.drop_last()[i]);
            }
        }
    } else {
        assert(k.take(k.len() as int) =~= k);
        if k.len() > 0 {
            assert(!all_ws(k));
        } else {
            assert(all_ws(k));
        }
    }
}

/// Installing is safe to repeat: a second install over the first leaves the
/// hook exactly as the first made it. What the first install kept of the
/// user's script must hold neither marker, and the binary's path must not
/// hold the closing marker.
#[verifier::spinoff_prover]
#[verifier::rlimit(40)]
pub proof fn law_install_is_idempotent(existing: Seq<char>, exe: Seq<char>, hook: Seq<char>)
    requires
        !contains(exe, END@),
        ({
            let once = installed_script(existing, exe, hook);
            let base = once.take(once.len() - block_spec(exe, hook).len());
            !contains(base, BEGIN@) && !contains(base, END@)
        }),
    ensures
        installed_script(installed_script(existing, exe, hook), exe, hook) == installed_script(existing, exe, hook),
{
    reveal_strlit("#!/bin/sh\n");
    reveal_strlit("\n");
    reveal_strlit("# >>> devctx (managed) >>>");
    let blk = block_spec(exe, hook);
    let kept = without_block_spec(existing);
    let base = if all_ws(existing) {
        "#!/bin/sh\n"@
    } else if all_ws(kept) {
        "#!/bin/sh\n"@
    } else {
        trim_end(kept) + "\n"@
    };
    let once = installed_script(existing, exe, hook);
    assert(once == base + blk);
    assert(once.take(once.len() - blk.len()) =~= base);
    assert(base.last() == '\n');
    law_block_round_trips(base, exe, hook);
    assert(without_block_spec(once) == base);
    // The installed script is not blank: the block's first character is not.
    assert(!all_ws(once)) by {
        lemma_block_shape(exe, hook);
        assert(BEGIN@[0] == '#');
        assert(once[base.len() as int] == '#');
    }
    lemma_trim_end_shape(kept);
    if base == "#!/bin/sh\n"@ {
        assert(!all_ws(base)) by {
            assert(base[0] == '#');
        }
        assert(base.drop_last() =~= "#!/bin/sh"@.take(9)) by {
            reveal_strlit("#!/bin/sh");
        }
        assert(trim_end(base) == trim_end(base.drop_last()));
        assert(trim_end(base.drop_last()) =~= base.drop_last());
        assert(trim_end(base) + "\n"@ =~= base);
    } else {
        let t = trim_end(kept);
        assert(base =~= t + seq!['\n']);
        assert(base.drop_last() =~= t);
        assert(trim_end(base) == trim_end(t));
        assert(!all_ws(base)) by {
            assert(base[t.len() - 1] == t.last());
        }
        assert(trim_end(base) + "\n"@ =~= base);
    }
}

/// The refusal for a directory git does not know as a repository.
pub open spec fn not_a_repo_message(root: Seq<char>) -> Seq<char> {
    root + " is not a git repository"@
}

/// Where a repository's hooks live, from what `git rev-parse --git-path
/// hooks` printed in `repo_root` (`None` where git refused, which means this
/// is no repository): the trimmed answer, taken relative to the repository
/// when it is not absolute.
pub fn hooks_dir(repo_root: &str, git_path: Option<&str>) -> (r: Result<String, String>)
    ensures
        match git_path {
            Some(out) => r matches Ok(d) && d@ == crate::path::join_path(repo_root@, trim(out@)),
            None => r matches Err(m) && m@ == not_a_repo_message(repo_root@),
        },
{
    match git_path {
        Some(out) => {
            let rel = crate::text::trimmed(out);
            Ok(crate::path::path_join(repo_root, rel.as_str()))
        },
        None => {
            let mut m = owned(repo_root);
            push_str(&mut m, " is not a git repository");
            Err(m)
        },
    }
}

} // verus!
