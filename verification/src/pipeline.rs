//! The indexing run's own decisions: which files are machine-written or ours
//! and stay out of the index, which branch and base a run works from, how
//! chunks are identified, and what a run reports.

use vstd::prelude::*;
use vstd::utf8::encode_utf8;
use crate::watch::{gitignore_globs, gitignore_ignores, gitignore_root, strip_keeps_relative};
use crate::chunk::{hex_lower, sha256, sha256_digest_of};
use crate::git::{Change, ChangeView};
use crate::path::{file_name, file_name_of};
use crate::text::{
    chars_of, contains, contains_chars, decimal, ends_with, ends_with_chars, lines, lines_of, owned,
    push_decimal, push_range, push_str, same_text, split, split_chars, string_of, views,
};

verus! {

/// Summary of an indexing run.
#[derive(Debug, Clone, Default, PartialEq, Eq)]
pub struct IndexResult {
    /// Indexed commit.
    pub commit: String,
    /// Branch.
    pub branch: String,
    /// Whether a full reindex was performed.
    pub full_reindex: bool,
    /// Files parsed and stored.
    pub files_indexed: usize,
    /// Files skipped (unchanged or unsupported).
    pub files_skipped: usize,
    /// Files removed from the index (via git deletions).
    pub files_deleted: usize,
    /// Files pruned as stale during a full reindex.
    pub files_pruned: usize,
    /// Files renamed.
    pub files_renamed: usize,
    /// Total symbols across indexed files.
    pub symbols: usize,
    /// Total chunks stored.
    pub chunks: usize,
}

/// A line longer than this (in bytes) is minified: far past the widest line a
/// person writes, and far below a bundle's single line.
pub const MINIFIED_LINE: usize = 1000;

/// Directories whose contents are somebody else's code, checked in for
/// convenience.
pub open spec fn is_vendor_dir(c: Seq<char>) -> bool {
    c == "node_modules"@ || c == "vendor"@ || c == "third_party"@ || c == "dist"@ || c == "bower_components"@
}

/// DevCtxEngine's own working directories, which must never be indexed.
pub open spec fn is_own_dir(c: Seq<char>) -> bool {
    c == ".devctx"@ || c == ".fastembed_cache"@ || c == ".git"@
}

/// Whether some `/`-separated component of `p` is a vendor directory.
pub open spec fn in_vendor_dir(p: Seq<char>) -> bool {
    exists|i: int| 0 <= i < split(p, '/').len() && is_vendor_dir(#[trigger] split(p, '/')[i])
}

/// Whether some line of `content` is longer than a person writes.
pub open spec fn has_minified_line(content: Seq<char>) -> bool {
    exists|i: int| 0 <= i < lines(content).len() && encode_utf8(#[trigger] lines(content)[i]).len() as usize > MINIFIED_LINE
}

/// Is this a file a machine wrote? Judged by shape rather than by name alone:
/// it sits in a vendored directory, its name says minified, bundled or a lock
/// file, or one of its lines is longer than anyone types.
pub open spec fn is_generated_spec(path: Seq<char>, content: Seq<char>) -> bool {
    let name = match file_name(path) { Some(n) => n, None => seq![] };
    ||| in_vendor_dir(path)
    ||| contains(name, ".min."@)
    ||| contains(name, ".bundle."@)
    ||| ends_with(name, "-lock.json"@)
    ||| has_minified_line(content)
}

fn is_vendor_name(c: &[char]) -> (b: bool)
    ensures
        b == is_vendor_dir(c@),
{
    let s = string_of(c);
    same_text(s.as_str(), "node_modules") || same_text(s.as_str(), "vendor") || same_text(s.as_str(), "third_party")
        || same_text(s.as_str(), "dist") || same_text(s.as_str(), "bower_components")
}

fn utf8_len(c: &[char]) -> (n: usize)
    ensures
        n == encode_utf8(c@).len() as usize,
{
    let s = string_of(c);
    s.as_str().len()
}

/// Is this a file a machine wrote? Vendored bundles and generated data are the
/// loudest noise a semantic index can hold: enormous, so they produce many
/// chunks, and resembling nothing, so they crowd the top of every result.
pub fn is_generated(path: &str, content: &str) -> (b: bool)
    ensures
        b == is_generated_spec(path@, content@),
{
    let pv = chars_of(path);
    let parts = split_chars(pv.as_slice(), '/');
    let ghost sv = views(parts@);
    let mut i: usize = 0;
    while i < parts.len()
        invariant
            sv == views(parts@),
            sv == split(path@, '/'),
            i <= parts@.len(),
            forall|j: int| 0 <= j < i ==> !is_vendor_dir(#[trigger] split(path@, '/')[j]),
        decreases parts@.len() - i,
    {
        if is_vendor_name(parts[i].as_slice()) {
            assert(is_vendor_dir(split(path@, '/')[i as int]));
            return true;
        }
        i = i + 1;
    }
    let name = match file_name_of(path) {
        Some(n) => n,
        None => String::new(),
    };
    let nv = chars_of(name.as_str());
    let min = chars_of(".min.");
    let bundle = chars_of(".bundle.");
    let lock = chars_of("-lock.json");
    if contains_chars(nv.as_slice(), min.as_slice()) || contains_chars(nv.as_slice(), bundle.as_slice())
        || ends_with_chars(nv.as_slice(), lock.as_slice()) {
        return true;
    }
    let cv = chars_of(content);
    let ls = lines_of(cv.as_slice());
    let ghost lv = views(ls@);
    let mut k: usize = 0;
    while k < ls.len()
        invariant
            lv == views(ls@),
            lv == lines(content@),
            k <= ls@.len(),
            forall|j: int| 0 <= j < k ==> encode_utf8(#[trigger] lines(content@)[j]).len() as usize <= MINIFIED_LINE,
        decreases ls@.len() - k,
    {
        if utf8_len(ls[k].as_slice()) > MINIFIED_LINE {
            assert(encode_utf8(lines(content@)[k as int]).len() as usize > MINIFIED_LINE);
            return true;
        }
        k = k + 1;
    }
    false
}

/// The first component of a relative or absolute path: `/` for an absolute
/// one, otherwise what comes before the first `/`.
pub open spec fn first_component(p: Seq<char>) -> Seq<char> {
    if p.len() > 0 && p[0] == '/' {
        "/"@
    } else {
        split(p, '/')[0]
    }
}

/// Whether a repository path lies in one of DevCtxEngine's own directories
/// (its state, its legacy model cache, or git's), which must never be indexed.
pub fn is_own_artifact(path: &str) -> (b: bool)
    ensures
        b == is_own_dir(first_component(path@)),
{
    let v = chars_of(path);
    if v.len() > 0 && v[0] == '/' {
        proof {
            reveal_strlit("/");
            reveal_strlit(".devctx");
            reveal_strlit(".git");
            reveal_strlit(".fastembed_cache");
        }
        assert(!is_own_dir("/"@)) by {
            assert("/"@.len() == 1);
        }
        return false;
    }
    let parts = split_chars(v.as_slice(), '/');
    assert(split(path@, '/').len() >= 1);
    let first = string_of(parts[0].as_slice());
    same_text(first.as_str(), ".devctx") || same_text(first.as_str(), ".fastembed_cache") || same_text(
        first.as_str(),
        ".git",
    )
}

/// `{repo}:{branch}:{file}:{line}:{ordinal}`, the key a chunk's id hashes.
pub open spec fn chunk_key(repo: Seq<char>, branch: Seq<char>, file: Seq<char>, line: nat, ordinal: nat) -> Seq<char> {
    repo + ":"@ + branch + ":"@ + file + ":"@ + decimal(line) + ":"@ + decimal(ordinal)
}

/// Deterministic id for a code chunk: the first 16 bytes of the SHA-256 of
/// its key, in lowercase hex (32 characters). The ordinal tells apart chunks
/// that share a start line, so none is lost.
pub fn chunk_id(repo: &str, branch: &str, file: &str, start_line: u32, ordinal: usize) -> (id: String)
    ensures
        id@ == hex_lower(sha256(encode_utf8(chunk_key(repo@, branch@, file@, start_line as nat, ordinal as nat))).take(16)),
        id@.len() == 32,
{
    let mut key = owned(repo);
    push_str(&mut key, ":");
    push_str(&mut key, branch);
    push_str(&mut key, ":");
    push_str(&mut key, file);
    push_str(&mut key, ":");
    push_decimal(&mut key, start_line as u64);
    push_str(&mut key, ":");
    push_decimal(&mut key, ordinal as u64);
    sha256_digest_of(key.as_str(), 16)
}

/// What to do with a file named explicitly (by the watcher or an editor): a
/// path that no longer exists was deleted; anything else is re-read, and the
/// content-hash check drops it if it did not change.
pub fn explicit_change(path: &str, exists: bool) -> (c: Change)
    ensures
        exists ==> c@ == ChangeView::Modified(path@),
        !exists ==> c@ == ChangeView::Deleted(path@),
{
    if exists {
        Change::Modified(owned(path))
    } else {
        Change::Deleted(owned(path))
    }
}

/// The state a previous run recorded for this repository and branch.
pub struct PriorRun {
    /// The commit it indexed up to.
    pub last_commit: String,
    /// The model it embedded with.
    pub model_name: String,
    /// That model's dimension.
    pub model_dimension: i64,
}

/// How a run proceeds: whether the model changed, whether it can work from a
/// diff, and whether it is a full reindex.
pub struct RunPlan {
    /// The embedding model differs from the one the index was built with.
    pub model_changed: bool,
    /// Work incrementally, from the previous run's commit.
    pub incremental: bool,
    /// A full reindex (neither a diff nor an explicit path list).
    pub full_reindex: bool,
}

/// How a run proceeds, given what was asked, what the previous run recorded,
/// whether its commit still exists, and whether explicit paths were named.
///
/// A changed model forces a full pass; an explicit path list is never a full
/// reindex, whatever the commit state, since it says exactly which files to
/// look at.
pub fn plan_run(
    incremental: bool,
    prior: &Option<PriorRun>,
    model_name: &str,
    dimension: usize,
    last_commit_exists: bool,
    explicit_paths: bool,
) -> (p: RunPlan)
    ensures
        p.model_changed == match prior {
            Some(r) => r.model_name@ != model_name@ || r.model_dimension != dimension as int,
            None => false,
        },
        p.incremental == (incremental && !p.model_changed && prior is Some && last_commit_exists),
        p.full_reindex == (!p.incremental && !explicit_paths),
{
    let model_changed = match prior {
        Some(r) => !same_text(r.model_name.as_str(), model_name) || (r.model_dimension as i128) != (dimension as i128),
        None => false,
    };
    let inc = incremental && !model_changed && prior.is_some() && last_commit_exists;
    RunPlan { model_changed, incremental: inc, full_reindex: !inc && !explicit_paths }
}

/// The commit a run records: a path-list run covered uncommitted work, not
/// HEAD, so it keeps the previous record's commit (when there is one);
/// anything else records the commit it indexed.
pub fn recorded_commit(explicit_paths: bool, prior: &Option<PriorRun>, head: &str) -> (c: String)
    ensures
        c@ == match prior {
            Some(r) => if explicit_paths { r.last_commit@ } else { head@ },
            None => head@,
        },
{
    match prior {
        Some(r) => if explicit_paths { owned(r.last_commit.as_str()) } else { owned(head) },
        None => owned(head),
    }
}

/// Receives progress notifications during an indexing run; implemented by
/// whoever draws the run (a progress bar, a server's status endpoint).
pub trait ProgressSink {
    /// Called once with the total number of changes to process.
    fn start(&self, total: usize);
    /// Called before each change is processed, with its file path.
    fn file(&self, path: &str);
}

/// Calls `Gitignore::empty()`: a matcher with no globs and an empty root.
#[verifier::external_body]
fn no_rules() -> (g: ignore::gitignore::Gitignore)
    ensures
        gitignore_globs(g).len() == 0,
        gitignore_root(g) == Seq::<u8>::empty(),
{
    ignore::gitignore::Gitignore::empty()
}

/// The builder `.gitignore` rules are compiled with.
#[verifier::external_type_specification]
#[verifier::external_body]
pub struct ExGitignoreBuilder(ignore::gitignore::GitignoreBuilder);

/// The globs a builder holds so far, in the order they were added, as
/// [`gitignore_globs`] describes a matcher's.
pub uninterp spec fn builder_globs(b: ignore::gitignore::GitignoreBuilder) -> Seq<(Seq<char>, bool)>;

/// The bytes of the root a builder was made for.
pub uninterp spec fn builder_root(b: ignore::gitignore::GitignoreBuilder) -> Seq<u8>;

/// A builder's settings: whether globs added now match without regard to
/// case, and whether an unclosed `[` is taken literally.
pub uninterp spec fn builder_options(b: ignore::gitignore::GitignoreBuilder) -> (bool, bool);

/// The glob a `.gitignore` line gives under these settings, as its trimmed
/// line, or `None` when it gives none (a blank line, a comment, or a pattern
/// that does not parse).
pub uninterp spec fn gitignore_line_glob(line: Seq<char>, case_insensitive: bool, unclosed_class: bool) -> Option<Seq<char>>;

/// Whether these globs compile into one matcher.
pub uninterp spec fn gitignore_globs_compile(globs: Seq<(Seq<char>, bool)>) -> bool;

/// A line that adds no glob: empty, or a comment.
pub open spec fn adds_no_glob(line: Seq<char>) -> bool {
    line.len() == 0 || line[0] == '#'
}

/// Calls `GitignoreBuilder::new("")`: a builder with no globs, an empty root
/// (globs match paths relative to the repository) and the default settings,
/// case-sensitive and taking an unclosed `[` literally.
#[verifier::external_body]
fn rule_builder() -> (b: ignore::gitignore::GitignoreBuilder)
    ensures
        builder_globs(b).len() == 0,
        builder_root(b) == Seq::<u8>::empty(),
        builder_options(b) == (false, true),
{
    ignore::gitignore::GitignoreBuilder::new("")
}

/// Calls `GitignoreBuilder::add_line(None, line)`, dropping its error. What
/// is claimed: the builder gains the glob [`gitignore_line_glob`] gives for
/// the line under its settings, at the end, or nothing; an empty line or a
/// comment gives none. Its root and settings stay as they were.
#[verifier::external_body]
fn add_rule(b: &mut ignore::gitignore::GitignoreBuilder, line: &str)
    ensures
        builder_root(*final(b)) == builder_root(*old(b)),
        builder_options(*final(b)) == builder_options(*old(b)),
        builder_globs(*final(b)) == match gitignore_line_glob(line@, builder_options(*old(b)).0, builder_options(*old(b)).1) {
            Some(x) => builder_globs(*old(b)).push((x, builder_options(*old(b)).0)),
            None => builder_globs(*old(b)),
        },
        adds_no_glob(line@) ==> gitignore_line_glob(line@, builder_options(*old(b)).0, builder_options(*old(b)).1) is None,
{
    let _ = b.add_line(None, line);
}

/// Calls `GitignoreBuilder::build`: the matcher, or `None` when the globs do
/// not compile together ([`gitignore_globs_compile`]). What is claimed: the
/// matcher holds the builder's globs, relative to its root; a builder with no
/// glob gives the empty matcher, whose root is empty.
#[verifier::external_body]
fn build_rules(b: &ignore::gitignore::GitignoreBuilder) -> (r: Option<ignore::gitignore::Gitignore>)
    ensures
        r is Some <==> gitignore_globs_compile(builder_globs(*b)),
        builder_globs(*b).len() == 0 ==> r is Some,
        r matches Some(g) ==> gitignore_globs(g) == builder_globs(*b),
        builder_globs(*b).len() > 0 ==> (r matches Some(g) ==> gitignore_root(g) == builder_root(*b)),
        builder_globs(*b).len() == 0 ==> (r matches Some(g) ==> gitignore_root(g) == Seq::<u8>::empty()),
{
    b.build().ok()
}

/// The globs a list of exclude patterns gives, with the builder's default
/// settings: one per pattern that parses, in order.
pub open spec fn kept_globs(patterns: Seq<String>) -> Seq<(Seq<char>, bool)>
    decreases patterns.len(),
{
    if patterns.len() == 0 {
        Seq::empty()
    } else {
        let rest = kept_globs(patterns.drop_last());
        match gitignore_line_glob(patterns.last()@, false, true) {
            Some(x) => rest.push((x, false)),
            None => rest,
        }
    }
}

/// Compile `indexing.exclude` into a matcher, with gitignore's rules rather
/// than plain globs: `target/` covers everything beneath it and `*.log`
/// matches at any depth. A pattern that does not parse is dropped, and globs
/// that do not compile together give the empty matcher, rather than failing
/// the run. The matcher's globs are relative to the repository.
pub fn build_exclude(patterns: &Vec<String>) -> (g: ignore::gitignore::Gitignore)
    ensures
        gitignore_root(g) == Seq::<u8>::empty(),
        gitignore_globs_compile(kept_globs(patterns@)) ==> gitignore_globs(g) == kept_globs(patterns@),
        !gitignore_globs_compile(kept_globs(patterns@)) ==> gitignore_globs(g).len() == 0,
        gitignore_globs(g).len() <= patterns@.len(),
        (forall|i: int| 0 <= i < patterns@.len() ==> adds_no_glob(#[trigger] patterns@[i]@))
            ==> gitignore_globs(g).len() == 0,
{
    if patterns.len() == 0 {
        assert(kept_globs(patterns@) == Seq::<(Seq<char>, bool)>::empty());
        return no_rules();
    }
    let mut b = rule_builder();
    let mut i: usize = 0;
    while i < patterns.len()
        invariant
            i <= patterns@.len(),
            builder_root(b) == Seq::<u8>::empty(),
            builder_options(b) == (false, true),
            builder_globs(b) == kept_globs(patterns@.take(i as int)),
            builder_globs(b).len() <= i,
            (forall|k: int| 0 <= k < i ==> adds_no_glob(#[trigger] patterns@[k]@)) ==> builder_globs(b).len() == 0,
        decreases patterns@.len() - i,
    {
        let ghost before = builder_globs(b);
        add_rule(&mut b, patterns[i].as_str());
        proof {
            let t = patterns@.take(i as int + 1);
            assert(t.drop_last() =~= patterns@.take(i as int));
            assert(t.last() == patterns@[i as int]);
        }
        i = i + 1;
    }
    assert(patterns@.take(patterns@.len() as int) =~= patterns@);
    match build_rules(&b) {
        Some(g) => g,
        None => no_rules(),
    }
}

/// Whether a repository file stays out of the index before it is even read:
/// it lies in one of DevCtxEngine's own directories, or the configured
/// excludes match it or a directory above it. Repository files are relative.
pub fn excluded_from_index(file: &str, excludes: &ignore::gitignore::Gitignore) -> (b: bool)
    requires
        !is_own_dir(first_component(file@)) ==> gitignore_globs(*excludes).len() == 0
            || strip_keeps_relative(gitignore_root(*excludes), encode_utf8(file@)),
    ensures
        b == (is_own_dir(first_component(file@))
            || gitignore_ignores(gitignore_globs(*excludes), gitignore_root(*excludes), file@)),
        gitignore_globs(*excludes).len() == 0 ==> b == is_own_dir(first_component(file@)),
{
    is_own_artifact(file) || crate::watch::ignores(excludes, file)
}

/// Why a run is refused before it touches anything.
#[derive(Debug, Clone, PartialEq, Eq)]
pub enum RunRefusal {
    /// The embedder's vectors would not fit the store.
    DimensionMismatch { embedder: usize, store: usize },
    /// The branch asked for does not exist; it is reported, never created.
    UnknownBranch(String),
}

impl RunRefusal {
    /// The refusal as the user reads it.
    pub fn message(&self) -> (m: String)
        ensures
            match self {
                RunRefusal::DimensionMismatch { embedder, store } => m@ == "embedder dimension "@
                    + decimal(*embedder as nat) + " != store dimension "@ + decimal(*store as nat),
                RunRefusal::UnknownBranch(b) => m@ == "no branch `"@ + b@ + "` in this repository"@,
            },
    {
        match self {
            RunRefusal::DimensionMismatch { embedder, store } => {
                let mut m = owned("embedder dimension ");
                push_decimal(&mut m, *embedder as u64);
                push_str(&mut m, " != store dimension ");
                push_decimal(&mut m, *store as u64);
                m
            },
            RunRefusal::UnknownBranch(b) => {
                let mut m = owned("no branch `");
                push_str(&mut m, b.as_str());
                push_str(&mut m, "` in this repository");
                m
            },
        }
    }
}

/// Refuse a run whose embedder would write vectors of another width than the
/// store holds.
pub fn check_dimensions(embedder: usize, store: usize) -> (r: Result<(), RunRefusal>)
    ensures
        embedder == store ==> r is Ok,
        embedder != store ==> r == Err::<(), RunRefusal>(RunRefusal::DimensionMismatch { embedder, store }),
{
    if embedder != store {
        Err(RunRefusal::DimensionMismatch { embedder, store })
    } else {
        Ok(())
    }
}

/// The branch a run is about, and where its files are read from.
pub struct RunTarget {
    /// The branch indexed.
    pub branch: String,
    /// Read files from git's objects rather than the work tree: true exactly
    /// when the branch is not the one checked out, whose work tree holds
    /// someone else's content.
    pub from_objects: bool,
}

/// The branch a run works on: the one asked for when it differs from the one
/// checked out (refused when the repository has no such branch), else the
/// checked-out one, read from the work tree so uncommitted work is included.
pub fn run_target(requested: Option<&str>, checked_out: &str, requested_exists: bool) -> (r: Result<RunTarget, RunRefusal>)
    ensures
        match requested {
            Some(b) => if b@ != checked_out@ {
                if requested_exists {
                    r matches Ok(t) && t.branch@ == b@ && t.from_objects
                } else {
                    r matches Err(RunRefusal::UnknownBranch(x)) && x@ == b@
                }
            } else {
                r matches Ok(t) && t.branch@ == checked_out@ && !t.from_objects
            },
            None => r matches Ok(t) && t.branch@ == checked_out@ && !t.from_objects,
        },
{
    match requested {
        Some(b) => {
            if !same_text(b, checked_out) {
                if requested_exists {
                    return Ok(RunTarget { branch: owned(b), from_objects: true });
                } else {
                    return Err(RunRefusal::UnknownBranch(owned(b)));
                }
            }
        },
        None => {},
    }
    Ok(RunTarget { branch: owned(checked_out), from_objects: false })
}

/// The commit a run indexes: HEAD for the checked-out branch, else the
/// commit the branch points at (empty when git could not say).
pub fn run_commit(target: &RunTarget, head: &str, branch_commit: Option<&str>) -> (c: String)
    ensures
        c@ == if target.from_objects {
            match branch_commit { Some(x) => x@, None => seq![] }
        } else {
            head@
        },
{
    if target.from_objects {
        match branch_commit {
            Some(x) => owned(x),
            None => String::new(),
        }
    } else {
        owned(head)
    }
}

/// What a run does to the store for one file.
#[derive(Debug, Clone, PartialEq, Eq)]
pub enum FileAction {
    /// Drop everything stored for the file.
    Delete(String),
    /// Read, chunk and store the file (an unchanged one is skipped by hash).
    Index(String),
}

/// A file action as plain values.
pub enum FileActionView {
    Delete(Seq<char>),
    Index(Seq<char>),
}

impl View for FileAction {
    type V = FileActionView;

    open spec fn view(&self) -> FileActionView {
        match self {
            FileAction::Delete(f) => FileActionView::Delete(f@),
            FileAction::Index(f) => FileActionView::Index(f@),
        }
    }
}

/// The actions one change calls for, in order, and the count it adds to: a
/// deletion deletes; a rename deletes the old path and indexes the new one;
/// anything else indexes.
pub fn change_actions(change: &Change, result: &mut IndexResult) -> (a: Vec<FileAction>)
    requires
        old(result).files_deleted < usize::MAX,
        old(result).files_renamed < usize::MAX,
    ensures
        match change@ {
            ChangeView::Deleted(f) => a@.len() == 1 && a@[0]@ == FileActionView::Delete(f)
                && final(result).files_deleted == old(result).files_deleted + 1
                && final(result).files_renamed == old(result).files_renamed,
            ChangeView::Renamed(from, to) => a@.len() == 2 && a@[0]@ == FileActionView::Delete(from)
                && a@[1]@ == FileActionView::Index(to)
                && final(result).files_renamed == old(result).files_renamed + 1
                && final(result).files_deleted == old(result).files_deleted,
            ChangeView::Added(f) => a@.len() == 1 && a@[0]@ == FileActionView::Index(f)
                && final(result).files_deleted == old(result).files_deleted
                && final(result).files_renamed == old(result).files_renamed,
            ChangeView::Modified(f) => a@.len() == 1 && a@[0]@ == FileActionView::Index(f)
                && final(result).files_deleted == old(result).files_deleted
                && final(result).files_renamed == old(result).files_renamed,
        },
        final(result).files_indexed == old(result).files_indexed,
        final(result).files_pruned == old(result).files_pruned,
        final(result).files_skipped == old(result).files_skipped,
{
    let mut a: Vec<FileAction> = Vec::new();
    match change {
        Change::Deleted(f) => {
            a.push(FileAction::Delete(owned(f.as_str())));
            result.files_deleted = result.files_deleted + 1;
        },
        Change::Renamed { from, to } => {
            a.push(FileAction::Delete(owned(from.as_str())));
            a.push(FileAction::Index(owned(to.as_str())));
            result.files_renamed = result.files_renamed + 1;
        },
        Change::Added(f) => {
            a.push(FileAction::Index(owned(f.as_str())));
        },
        Change::Modified(f) => {
            a.push(FileAction::Index(owned(f.as_str())));
        },
    }
    a
}

/// The previously indexed files a full run did not index again: they have
/// vanished and are pruned, in the order they were recorded.
pub open spec fn stale_spec(previous: Seq<String>, indexed: Seq<String>) -> Seq<Seq<char>>
    decreases previous.len(),
{
    if previous.len() == 0 {
        seq![]
    } else {
        let rest = stale_spec(previous.drop_last(), indexed);
        let f = previous.last()@;
        if exists|i: int| 0 <= i < indexed.len() && (#[trigger] indexed[i])@ == f { rest } else { rest.push(f) }
    }
}

fn indexed_contains(indexed: &Vec<String>, f: &str) -> (b: bool)
    ensures
        b == exists|i: int| 0 <= i < indexed@.len() && (#[trigger] indexed@[i])@ == f@,
{
    let mut i: usize = 0;
    while i < indexed.len()
        invariant
            i <= indexed@.len(),
            forall|j: int| 0 <= j < i ==> (#[trigger] indexed@[j])@ != f@,
        decreases indexed@.len() - i,
    {
        if same_text(indexed[i].as_str(), f) {
            return true;
        }
        i = i + 1;
    }
    false
}

/// The files to prune after a full run (see [`stale_spec`]).
pub fn stale_files(previous: &Vec<String>, indexed: &Vec<String>) -> (r: Vec<String>)
    ensures
        r@.map_values(|s: String| s@) == stale_spec(previous@, indexed@),
{
    let mut out: Vec<String> = Vec::new();
    let mut k: usize = 0;
    while k < previous.len()
        invariant
            k <= previous@.len(),
            out@.map_values(|s: String| s@) == stale_spec(previous@.take(k as int), indexed@),
        decreases previous@.len() - k,
    {
        assert(previous@.take(k + 1).drop_last() =~= previous@.take(k as int));
        assert(previous@.take(k + 1).last() == previous@[k as int]);
        let ghost prev = out@;
        if !indexed_contains(indexed, previous[k].as_str()) {
            out.push(owned(previous[k].as_str()));
            assert(out@.map_values(|s: String| s@) =~= prev.map_values(|s: String| s@).push(previous@[k as int]@));
        }
        k = k + 1;
    }
    assert(previous@.take(k as int) =~= previous@);
    out
}

/// A file inside a vendored directory is machine-written, whatever it holds
/// and however deep the directory sits: any `/`-separated component of the
/// path that is `node_modules`, `vendor`, `third_party`, `dist` or
/// `bower_components` marks it.
pub proof fn law_vendored_anywhere_is_generated(path: Seq<char>, content: Seq<char>, i: int)
    requires
        0 <= i < split(path, '/').len(),
        ({
            let c = split(path, '/')[i];
            c == "node_modules"@ || c == "vendor"@ || c == "third_party"@ || c == "dist"@ || c == "bower_components"@
        }),
    ensures
        is_generated_spec(path, content),
{
    assert(is_vendor_dir(split(path, '/')[i]));
    assert(in_vendor_dir(path));
}

} // verus!
