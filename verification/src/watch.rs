//! What the file watcher cares about: which events change content, which
//! saved files are worth re-indexing, and the set of paths waiting for the
//! burst of saves to settle.

use vstd::prelude::*;
use vstd::utf8::encode_utf8;
use crate::path::{file_name, file_name_of};
use crate::text::{
    chars_of, contains, contains_chars, ends_with, ends_with_chars, owned, same_text, split, split_chars,
    starts_with, starts_with_chars, string_of, views,
};

verus! {

/// Directories never worth watching, whatever `.gitignore` says.
pub open spec fn always_skip(c: Seq<char>) -> bool {
    ||| c == ".git"@ || c == ".devctx"@ || c == "node_modules"@ || c == "target"@
    ||| c == "vendor"@ || c == "dist"@ || c == "build"@ || c == "__pycache__"@
    ||| c == ".venv"@ || c == ".next"@ || c == ".gradle"@
}

fn is_always_skipped(c: &str) -> (b: bool)
    ensures
        b == always_skip(c@),
{
    same_text(c, ".git") || same_text(c, ".devctx") || same_text(c, "node_modules") || same_text(c, "target")
        || same_text(c, "vendor") || same_text(c, "dist") || same_text(c, "build") || same_text(c, "__pycache__")
        || same_text(c, ".venv") || same_text(c, ".next") || same_text(c, ".gradle")
}

/// Whether some `/`-separated component of a repository-relative path is a
/// directory never worth watching: `target/debug/x` is no more interesting
/// than `target`.
pub open spec fn in_skipped_dir(rel: Seq<char>) -> bool {
    exists|i: int| 0 <= i < split(rel, '/').len() && always_skip(#[trigger] split(rel, '/')[i])
}

/// Whether a repository-relative path lies under a directory never worth
/// watching.
pub fn has_skipped_component(rel: &str) -> (b: bool)
    ensures
        b == in_skipped_dir(rel@),
{
    let v = chars_of(rel);
    let parts = split_chars(v.as_slice(), '/');
    let ghost sv = views(parts@);
    let mut i: usize = 0;
    while i < parts.len()
        invariant
            sv == views(parts@),
            sv == split(rel@, '/'),
            i <= parts@.len(),
            forall|j: int| 0 <= j < i ==> !always_skip(#[trigger] split(rel@, '/')[j]),
        decreases parts@.len() - i,
    {
        let c = string_of(parts[i].as_slice());
        if is_always_skipped(c.as_str()) {
            assert(always_skip(split(rel@, '/')[i as int]));
            return true;
        }
        i = i + 1;
    }
    false
}

/// A temporary file an editor leaves behind while saving: backups (`~`),
/// swap files, `.tmp`, lock files (`.#` and `#`), and JetBrains' `___jb_`
/// files. A path with no file name counts too.
pub open spec fn editor_noise_spec(path: Seq<char>) -> bool {
    match file_name(path) {
        None => true,
        Some(name) => {
            ||| ends_with(name, "~"@)
            ||| ends_with(name, ".swp"@)
            ||| ends_with(name, ".swx"@)
            ||| ends_with(name, ".tmp"@)
            ||| starts_with(name, ".#"@)
            ||| starts_with(name, "#"@)
            ||| contains(name, "___jb_"@)
        },
    }
}

/// Temporary files editors leave behind while saving.
pub fn is_editor_noise(path: &str) -> (b: bool)
    ensures
        b == editor_noise_spec(path@),
{
    let name = match file_name_of(path) {
        Some(n) => n,
        None => {
            return true;
        },
    };
    let v = chars_of(name.as_str());
    let tilde = chars_of("~");
    let swp = chars_of(".swp");
    let swx = chars_of(".swx");
    let tmp = chars_of(".tmp");
    let lock = chars_of(".#");
    let hash = chars_of("#");
    let jb = chars_of("___jb_");
    ends_with_chars(v.as_slice(), tilde.as_slice()) || ends_with_chars(v.as_slice(), swp.as_slice())
        || ends_with_chars(v.as_slice(), swx.as_slice()) || ends_with_chars(v.as_slice(), tmp.as_slice())
        || starts_with_chars(v.as_slice(), lock.as_slice()) || starts_with_chars(v.as_slice(), hash.as_slice())
        || contains_chars(v.as_slice(), jb.as_slice())
}

/// Whether a saved file, given its path relative to the repository and its
/// full path, is worth re-indexing: not the root itself, not under a
/// directory never worth watching, and not an editor's temporary.
pub fn worth_indexing(rel: &str, path: &str) -> (b: bool)
    ensures
        b == (rel@.len() > 0 && !in_skipped_dir(rel@) && !editor_noise_spec(path@)),
{
    !rel.is_empty() && !has_skipped_component(rel) && !is_editor_noise(path)
}

/// The paths waiting for a burst of saves to settle: each at most once, in
/// the order first seen.
pub struct Pending {
    paths: Vec<String>,
}

/// The text of each string.
pub open spec fn strings(v: Seq<String>) -> Seq<Seq<char>> {
    Seq::new(v.len(), |i: int| v[i]@)
}

/// No path occurs twice.
pub open spec fn distinct(s: Seq<Seq<char>>) -> bool {
    forall|i: int, j: int| 0 <= i < j < s.len() ==> s[i] != s[j]
}

impl Pending {
    /// The waiting paths, in the order first seen.
    pub closed spec fn view(&self) -> Seq<Seq<char>> {
        strings(self.paths@)
    }

    /// No path waits twice.
    #[verifier::type_invariant]
    spec fn each_once(&self) -> bool {
        distinct(self.view())
    }

    /// Nothing is waiting.
    pub fn new() -> (p: Self)
        ensures
            p.view().len() == 0,
    {
        let p = Pending { paths: Vec::new() };
        assert(p.view() =~= Seq::<Seq<char>>::empty());
        p
    }

    /// Whether nothing is waiting.
    pub fn is_empty(&self) -> (b: bool)
        ensures
            b == (self.view().len() == 0),
    {
        self.paths.len() == 0
    }

    /// Note a saved path. A file saved again while waiting is still one entry.
    pub fn insert(&mut self, path: &str)
        ensures
            distinct(final(self).view()),
            old(self).view().contains(path@) ==> final(self).view() == old(self).view(),
            !old(self).view().contains(path@) ==> final(self).view() == old(self).view().push(path@),
    {
        proof {
            use_type_invariant(&*self);
        }
        let ghost before = self.view();
        let mut paths: Vec<String> = Vec::new();
        std::mem::swap(&mut paths, &mut self.paths);
        assert(strings(paths@) == before);
        let mut i: usize = 0;
        while i < paths.len()
            invariant
                i <= paths@.len(),
                strings(paths@) == before,
                before == old(self).view(),
                distinct(before),
                forall|j: int| 0 <= j < i ==> (#[trigger] paths@[j])@ != path@,
            decreases paths@.len() - i,
        {
            if same_text(paths[i].as_str(), path) {
                assert(before[i as int] == path@);
                self.paths = paths;
                assert(self.view() =~= before);
                return;
            }
            i = i + 1;
        }
        assert(!before.contains(path@)) by {
            if before.contains(path@) {
                let k = choose|k: int| 0 <= k < before.len() && before[k] == path@;
                assert(paths@[k]@ == path@);
            }
        }
        paths.push(owned(path));
        assert(strings(paths@) =~= before.push(path@));
        assert(distinct(before.push(path@))) by {
            let after = before.push(path@);
            assert forall|a: int, b: int| 0 <= a < b < after.len() implies after[a] != after[b] by {
                if b == before.len() {
                    assert(before[a] != path@) by {
                        assert(before.contains(before[a]));
                    }
                }
            }
        }
        self.paths = paths;
        assert(self.view() =~= before.push(path@));
    }

    /// Take every waiting path, leaving nothing waiting.
    pub fn drain(&mut self) -> (batch: Vec<String>)
        ensures
            Seq::new(batch@.len(), |i: int| batch@[i]@) == old(self).view(),
            final(self).view().len() == 0,
    {
        let mut batch: Vec<String> = Vec::new();
        std::mem::swap(&mut batch, &mut self.paths);
        assert(self.view() =~= Seq::<Seq<char>>::empty());
        batch
    }
}

/// The kind of a file-system event, as the watcher sorts them.
#[derive(Debug, Clone, Copy, PartialEq, Eq, Structural)]
pub enum ChangeKind {
    /// A file or directory was created.
    Create,
    /// Its content or metadata changed.
    Modify,
    /// It was removed.
    Remove,
    /// It was only read or opened.
    Access,
    /// Anything else the platform reports.
    Other,
}

/// Whether an event actually changed file content: reading a file must not
/// trigger a reindex.
pub fn is_content_change(kind: ChangeKind) -> (b: bool)
    ensures
        b == (kind == ChangeKind::Create || kind == ChangeKind::Modify || kind == ChangeKind::Remove),
{
    match kind {
        ChangeKind::Create | ChangeKind::Modify | ChangeKind::Remove => true,
        _ => false,
    }
}

/// `s` without its leading separators.
pub open spec fn skip_separators(s: Seq<char>) -> Seq<char>
    decreases s.len(),
{
    if s.len() > 0 && s[0] == '/' {
        skip_separators(s.drop_first())
    } else {
        s
    }
}

/// `path` relative to `root`, when it lies in it (`root` itself gives the
/// empty path); `None` for a path elsewhere, including one that merely shares
/// a name prefix with `root` (`/repository` is not inside `/repo`). Paths are
/// taken as the watcher reports them: absolute, with no `.` or `..`
/// components.
pub open spec fn strip_root(root: Seq<char>, path: Seq<char>) -> Option<Seq<char>> {
    if !starts_with(path, root) {
        None
    } else {
        let rest = path.skip(root.len() as int);
        if root.len() > 0 && root.last() != '/' && rest.len() > 0 && rest[0] != '/' {
            None
        } else {
            Some(skip_separators(rest))
        }
    }
}

proof fn lemma_skip_separators(s: Seq<char>)
    ensures
        skip_separators(s).len() > 0 ==> skip_separators(s)[0] != '/',
        exists|k: int| 0 <= k <= s.len() && skip_separators(s) == #[trigger] s.skip(k),
    decreases s.len(),
{
    if s.len() > 0 && s[0] == '/' {
        lemma_skip_separators(s.drop_first());
        let k = choose|k: int| 0 <= k <= s.drop_first().len() && skip_separators(s.drop_first()) == #[trigger] s.drop_first().skip(k);
        assert(s.drop_first().skip(k) =~= s.skip(k + 1));
    } else {
        assert(s.skip(0) =~= s);
    }
}

/// Exec twin of [`strip_root`].
pub fn strip_root_of(root: &str, path: &str) -> (r: Option<String>)
    ensures
        match strip_root(root@, path@) {
            Some(rel) => r matches Some(x) && x@ == rel,
            None => r is None,
        },
{
    let rv = chars_of(root);
    let pv = chars_of(path);
    if !starts_with_chars(pv.as_slice(), rv.as_slice()) {
        return None;
    }
    let n = rv.len();
    if n > 0 && rv[n - 1] != '/' && pv.len() > n && pv[n] != '/' {
        assert(path@.skip(n as int)[0] == pv@[n as int]);
        return None;
    }
    let mut k = n;
    assert(skip_separators(path@.skip(n as int)) == skip_separators(pv@.skip(k as int)));
    while k < pv.len() && pv[k] == '/'
        invariant
            pv@ == path@,
            n <= k <= pv@.len(),
            skip_separators(path@.skip(n as int)) == skip_separators(pv@.skip(k as int)),
        decreases pv@.len() - k,
    {
        assert(pv@.skip(k as int).drop_first() =~= pv@.skip(k + 1));
        k = k + 1;
    }
    let mut out = String::new();
    crate::text::push_range(&mut out, pv.as_slice(), k, pv.len());
    assert(pv@.subrange(k as int, pv@.len() as int) =~= pv@.skip(k as int));
    Some(out)
}

/// Everything the watcher checks before consulting the ignore rules: the
/// path lies inside the repository and is not its root, is under no
/// directory never worth watching, is no editor's temporary, and is not a
/// directory (`is_dir`; a deleted path counts as a file, which the pipeline
/// turns into a deletion).
pub open spec fn candidate_spec(root: Seq<char>, path: Seq<char>, is_dir: bool) -> Option<Seq<char>> {
    match strip_root(root, path) {
        Some(rel) => if rel.len() > 0 && !in_skipped_dir(rel) && !editor_noise_spec(path) && !is_dir {
            Some(rel)
        } else {
            None
        },
        None => None,
    }
}

/// The repository-relative path of a saved file, when the watcher's own
/// checks (see [`candidate_spec`]) let it through.
pub fn relevant_candidate(root: &str, path: &str, is_dir: bool) -> (r: Option<String>)
    ensures
        match candidate_spec(root@, path@, is_dir) {
            Some(rel) => r matches Some(x) && x@ == rel,
            None => r is None,
        },
        r matches Some(x) ==> !(x@.len() > 0 && x@[0] == '/'),
{
    proof {
        if starts_with(path@, root@) {
            lemma_skip_separators(path@.skip(root@.len() as int));
        }
    }
    match strip_root_of(root, path) {
        Some(rel) => {
            if !rel.as_str().is_empty() && !has_skipped_component(rel.as_str()) && !is_editor_noise(path) && !is_dir {
                Some(rel)
            } else {
                None
            }
        },
        None => None,
    }
}

/// The matcher `.gitignore` rules compile into.
#[verifier::external_type_specification]
#[verifier::external_body]
pub struct ExGitignore(ignore::gitignore::Gitignore);

/// The globs a matcher holds, in the order they were added: each as the line
/// it was read from (trailing white space trimmed) and whether it matches
/// without regard to case.
pub uninterp spec fn gitignore_globs(g: ignore::gitignore::Gitignore) -> Seq<(Seq<char>, bool)>;

/// The bytes of the directory a matcher's globs are relative to.
pub uninterp spec fn gitignore_root(g: ignore::gitignore::Gitignore) -> Seq<u8>;

/// Whether gitignore's rules, given these globs relative to `root`, ignore
/// the file `path` or a directory above it (`matched_path_or_any_parents`
/// with `is_dir` false, answering `Match::Ignore`).
pub uninterp spec fn gitignore_ignores(globs: Seq<(Seq<char>, bool)>, root: Seq<u8>, path: Seq<char>) -> bool;

/// `p` without one leading `./`.
pub open spec fn after_dot_slash(p: Seq<u8>) -> Seq<u8> {
    if p.len() >= 2 && p[0] == 46u8 && p[1] == 47u8 { p.skip(2) } else { p }
}

/// `p` without one leading `/`.
pub open spec fn after_slash(p: Seq<u8>) -> Seq<u8> {
    if p.len() >= 1 && p[0] == 47u8 { p.skip(1) } else { p }
}

/// Whether `p` begins with `/`.
pub open spec fn rooted(p: Seq<u8>) -> bool {
    p.len() > 0 && p[0] == 47u8
}

/// A root made only of `.` and `/`, beginning with `.`: one the matcher may
/// take for the current directory and not strip.
pub open spec fn dot_like(root: Seq<u8>) -> bool {
    root.len() > 0 && root[0] == 46u8 && forall|i: int| 0 <= i < root.len() ==> (#[trigger] root[i] == 46u8 || root[i] == 47u8)
}

/// Whether a path stays relative once a matcher with this root has made it
/// relative: a leading `./` goes, then, for a path holding a `/` that begins
/// with the root, the root and one `/` after it. A path left beginning with
/// `/` is one the matcher refuses.
pub open spec fn strip_keeps_relative(root: Seq<u8>, path: Seq<u8>) -> bool {
    let p = after_dot_slash(path);
    let applies = p.contains(47u8) && root.len() <= p.len() && p.take(root.len() as int) == root;
    &&& applies ==> !rooted(after_slash(p.skip(root.len() as int)))
    &&& (!applies || dot_like(root)) ==> !rooted(p)
}

/// Calls `Gitignore::matched_path_or_any_parents(rel, false)` and asks
/// whether the match is an ignore. What is claimed: the answer is
/// [`gitignore_ignores`] of the matcher's globs, root and the path, and a
/// matcher holding no glob ignores nothing (the crate answers `Match::None`
/// for an empty matcher before looking at the path). The crate asserts that
/// the path it matches, after stripping a leading `./` and the root, has no
/// root; `requires` leaves out the paths it would refuse.
#[verifier::external_body]
pub(crate) fn ignores(rules: &ignore::gitignore::Gitignore, rel: &str) -> (b: bool)
    requires
        gitignore_globs(*rules).len() == 0 || strip_keeps_relative(gitignore_root(*rules), encode_utf8(rel@)),
    ensures
        b == gitignore_ignores(gitignore_globs(*rules), gitignore_root(*rules), rel@),
        gitignore_globs(*rules).len() == 0 ==> !b,
{
    rules.matched_path_or_any_parents(std::path::Path::new(rel), false).is_ignore()
}

/// What the watcher makes of a saved file, given the repository's rules:
/// its relative path when it is a candidate the rules do not ignore.
pub open spec fn relevant_spec(
    root: Seq<char>,
    path: Seq<char>,
    is_dir: bool,
    globs: Seq<(Seq<char>, bool)>,
    rules_root: Seq<u8>,
) -> Option<Seq<char>> {
    match candidate_spec(root, path, is_dir) {
        Some(rel) => if gitignore_ignores(globs, rules_root, rel) { None } else { Some(rel) },
        None => None,
    }
}

/// The repository-relative path to index for a saved file, or `None` if it
/// is not the watcher's business: it must pass the watcher's own checks (see
/// [`candidate_spec`]) and not be ignored by the repository's rules. A rule on
/// a directory covers what is inside it. A candidate the rules could not
/// match without losing its relative form is left out, as the matcher
/// refuses it.
pub fn relevant(root: &str, path: &str, is_dir: bool, rules: &ignore::gitignore::Gitignore) -> (r: Option<String>)
    requires
        match candidate_spec(root@, path@, is_dir) {
            Some(rel) => gitignore_globs(*rules).len() == 0
                || strip_keeps_relative(gitignore_root(*rules), encode_utf8(rel)),
            None => true,
        },
    ensures
        match relevant_spec(root@, path@, is_dir, gitignore_globs(*rules), gitignore_root(*rules)) {
            Some(rel) => r matches Some(x) && x@ == rel,
            None => r is None,
        },
        gitignore_globs(*rules).len() == 0 ==> match candidate_spec(root@, path@, is_dir) {
            Some(rel) => r matches Some(x) && x@ == rel,
            None => r is None,
        },
{
    match relevant_candidate(root, path, is_dir) {
        Some(rel) => {
            if ignores(rules, rel.as_str()) {
                None
            } else {
                Some(rel)
            }
        },
        None => None,
    }
}

/// A save under a directory never worth watching is skipped wherever that
/// directory sits in the path: any `/`-separated component of the relative
/// path that is one of those names makes the file not worth re-indexing.
pub proof fn law_skipped_directory_anywhere(rel: Seq<char>, path: Seq<char>, i: int)
    requires
        0 <= i < split(rel, '/').len(),
        ({
            let c = split(rel, '/')[i];
            ||| c == ".git"@ || c == ".devctx"@ || c == "node_modules"@ || c == "target"@
            ||| c == "vendor"@ || c == "dist"@ || c == "build"@ || c == "__pycache__"@
            ||| c == ".venv"@ || c == ".next"@ || c == ".gradle"@
        }),
    ensures
        in_skipped_dir(rel),
        !(rel.len() > 0 && !in_skipped_dir(rel) && !editor_noise_spec(path)),
{
    assert(always_skip(split(rel, '/')[i]));
}

} // verus!
