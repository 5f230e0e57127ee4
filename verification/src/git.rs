//! What the indexer learns from git: the repository's root and HEAD, and the
//! files that changed. Running git is the caller's business; its output is
//! read here.

use vstd::prelude::*;
use crate::path::{file_name, file_name_of};
use crate::text::{
    chars_of, is_blank, lines, lines_of, owned, push_str, split, split_chars, string_of, trim, trimmed, views,
};

verus! {

/// A file change between two commits (or an initial full listing).
#[derive(Debug, Clone, PartialEq, Eq)]
pub enum Change {
    /// File added.
    Added(String),
    /// File modified.
    Modified(String),
    /// File deleted.
    Deleted(String),
    /// File renamed (from → to).
    Renamed {
        /// Old path.
        from: String,
        /// New path.
        to: String,
    },
}

/// A change, as plain values.
pub enum ChangeView {
    Added(Seq<char>),
    Modified(Seq<char>),
    Deleted(Seq<char>),
    Renamed(Seq<char>, Seq<char>),
}

impl View for Change {
    type V = ChangeView;

    open spec fn view(&self) -> ChangeView {
        match self {
            Change::Added(p) => ChangeView::Added(p@),
            Change::Modified(p) => ChangeView::Modified(p@),
            Change::Deleted(p) => ChangeView::Deleted(p@),
            Change::Renamed { from, to } => ChangeView::Renamed(from@, to@),
        }
    }
}

/// The changes as plain values.
pub open spec fn change_views(cs: Seq<Change>) -> Seq<ChangeView> {
    Seq::new(cs.len(), |i: int| cs[i]@)
}

/// Current repo HEAD state.
#[derive(Debug, Clone)]
pub struct GitState {
    /// HEAD commit (empty if the repo has no commits).
    pub commit: String,
    /// Current branch (or `HEAD` when detached).
    pub branch: String,
}

/// A git repository rooted at its top-level directory.
pub struct GitRepo {
    root: String,
}

/// What running one git command gave back.
#[derive(Debug, Clone, PartialEq, Eq)]
pub enum GitOutcome {
    /// git ran: whether it exited successfully, and what it printed.
    Ran { success: bool, stdout: String, stderr: String },
    /// git could not be started, with the system's reason.
    NotStarted(String),
}

/// Why a git command gave no answer.
#[derive(Debug, Clone, PartialEq, Eq)]
pub enum GitError {
    /// git ran and failed: the command (its arguments) and what it printed on
    /// standard error, trimmed.
    Failed { command: String, stderr: String },
    /// git could not be started.
    NotStarted(String),
}

impl GitError {
    /// The error as the user reads it.
    pub fn message(&self) -> (m: String)
        ensures
            m@ == match *self {
                GitError::Failed { command, stderr } => "git "@ + command@ + " failed: "@ + stderr@,
                GitError::NotStarted(e) => "failed to run git: "@ + e@,
            },
    {
        match self {
            GitError::Failed { command, stderr } => {
                let mut m = owned("git ");
                push_str(&mut m, command.as_str());
                push_str(&mut m, " failed: ");
                push_str(&mut m, stderr.as_str());
                m
            },
            GitError::NotStarted(e) => {
                let mut m = owned("failed to run git: ");
                push_str(&mut m, e.as_str());
                m
            },
        }
    }
}

/// What a git command answers: its standard output when it succeeded; else
/// the command with git's trimmed standard error, or why git could not start.
pub fn git_answer(command: &str, outcome: GitOutcome) -> (r: Result<String, GitError>)
    ensures
        match outcome {
            GitOutcome::Ran { success, stdout, stderr } => if success {
                r matches Ok(o) && o@ == stdout@
            } else {
                r matches Err(GitError::Failed { command: c, stderr: e }) && c@ == command@ && e@ == trim(stderr@)
            },
            GitOutcome::NotStarted(e) => r matches Err(GitError::NotStarted(x)) && x@ == e@,
        },
{
    match outcome {
        GitOutcome::Ran { success, stdout, stderr } => {
            if success {
                Ok(stdout)
            } else {
                Err(GitError::Failed { command: owned(command), stderr: trimmed(stderr.as_str()) })
            }
        },
        GitOutcome::NotStarted(e) => Err(GitError::NotStarted(e)),
    }
}

/// The path a change refers to (the destination, for a rename).
pub open spec fn path_of(c: ChangeView) -> Seq<char> {
    match c {
        ChangeView::Added(p) => p,
        ChangeView::Modified(p) => p,
        ChangeView::Deleted(p) => p,
        ChangeView::Renamed(_, to) => to,
    }
}

/// The change one line of `git diff --name-status -M` describes, if any: its
/// status letter picks the kind, and the tab-separated fields the paths (a
/// copy counts as its new path being added).
pub open spec fn line_change(line: Seq<char>) -> Option<ChangeView> {
    let parts = split(line, '\t');
    let code = if parts[0].len() > 0 { parts[0][0] } else { ' ' };
    if code == 'A' {
        if parts.len() > 1 { Some(ChangeView::Added(parts[1])) } else { None }
    } else if code == 'M' || code == 'T' {
        if parts.len() > 1 { Some(ChangeView::Modified(parts[1])) } else { None }
    } else if code == 'D' {
        if parts.len() > 1 { Some(ChangeView::Deleted(parts[1])) } else { None }
    } else if code == 'C' {
        if parts.len() > 2 { Some(ChangeView::Added(parts[2])) } else { None }
    } else if code == 'R' {
        if parts.len() > 2 { Some(ChangeView::Renamed(parts[1], parts[2])) } else { None }
    } else {
        None
    }
}

/// The changes the non-empty lines of `ls` describe, in order.
pub open spec fn status_changes(ls: Seq<Seq<char>>) -> Seq<ChangeView>
    decreases ls.len(),
{
    if ls.len() == 0 {
        seq![]
    } else {
        let r = status_changes(ls.drop_last());
        if ls.last().len() > 0 {
            match line_change(ls.last()) {
                Some(c) => r.push(c),
                None => r,
            }
        } else {
            r
        }
    }
}

/// What a `git diff --name-status -M` output says changed.
pub open spec fn name_status(out: Seq<char>) -> Seq<ChangeView> {
    status_changes(lines(out))
}

/// The non-empty lines of `ls`, each as an added file.
pub open spec fn listed_files(ls: Seq<Seq<char>>) -> Seq<ChangeView>
    decreases ls.len(),
{
    if ls.len() == 0 {
        seq![]
    } else {
        let r = listed_files(ls.drop_last());
        if ls.last().len() > 0 { r.push(ChangeView::Added(ls.last())) } else { r }
    }
}

/// The non-empty lines of `ls` that `gone` does not list, each as an added
/// file: a full listing as the work tree has it, without the tracked files
/// deleted from disk.
pub open spec fn present_files(ls: Seq<Seq<char>>, gone: Seq<Seq<char>>) -> Seq<ChangeView>
    decreases ls.len(),
{
    if ls.len() == 0 {
        seq![]
    } else {
        let r = present_files(ls.drop_last(), gone);
        if ls.last().len() > 0 && !gone.contains(ls.last()) { r.push(ChangeView::Added(ls.last())) } else { r }
    }
}

/// Whether some change in `cs` refers to `p`.
pub open spec fn mentions(cs: Seq<ChangeView>, p: Seq<char>) -> bool {
    exists|i: int| 0 <= i < cs.len() && path_of(#[trigger] cs[i]) == p
}

/// The non-empty lines of `ls` that no change in `known` refers to, each as an
/// added file.
pub open spec fn untracked_additions(known: Seq<ChangeView>, ls: Seq<Seq<char>>) -> Seq<ChangeView>
    decreases ls.len(),
{
    if ls.len() == 0 {
        seq![]
    } else {
        let r = untracked_additions(known, ls.drop_last());
        if ls.last().len() > 0 && !mentions(known, ls.last()) {
            r.push(ChangeView::Added(ls.last()))
        } else {
            r
        }
    }
}

/// The path a change refers to (the destination, for a rename).
pub fn change_path(c: &Change) -> (p: &str)
    ensures
        p@ == path_of(c@),
{
    match c {
        Change::Added(p) => p.as_str(),
        Change::Modified(p) => p.as_str(),
        Change::Deleted(p) => p.as_str(),
        Change::Renamed { to, .. } => to.as_str(),
    }
}

fn change_of_line(parts: &Vec<Vec<char>>) -> (r: Option<Change>)
    requires
        parts@.len() >= 1,
    ensures
        match line_change_parts(views(parts@)) {
            Some(c) => r matches Some(x) && x@ == c,
            None => r is None,
        },
{
    let first = &parts[0];
    let code = if first.len() > 0 { first[0] } else { ' ' };
    if code == 'A' {
        if parts.len() > 1 { Some(Change::Added(string_of(parts[1].as_slice()))) } else { None }
    } else if code == 'M' || code == 'T' {
        if parts.len() > 1 { Some(Change::Modified(string_of(parts[1].as_slice()))) } else { None }
    } else if code == 'D' {
        if parts.len() > 1 { Some(Change::Deleted(string_of(parts[1].as_slice()))) } else { None }
    } else if code == 'C' {
        if parts.len() > 2 { Some(Change::Added(string_of(parts[2].as_slice()))) } else { None }
    } else if code == 'R' {
        if parts.len() > 2 {
            Some(Change::Renamed {
                from: string_of(parts[1].as_slice()),
                to: string_of(parts[2].as_slice()),
            })
        } else {
            None
        }
    } else {
        None
    }
}

/// [`line_change`] over the fields of a line.
pub open spec fn line_change_parts(parts: Seq<Seq<char>>) -> Option<ChangeView> {
    let code = if parts[0].len() > 0 { parts[0][0] } else { ' ' };
    if code == 'A' {
        if parts.len() > 1 { Some(ChangeView::Added(parts[1])) } else { None }
    } else if code == 'M' || code == 'T' {
        if parts.len() > 1 { Some(ChangeView::Modified(parts[1])) } else { None }
    } else if code == 'D' {
        if parts.len() > 1 { Some(ChangeView::Deleted(parts[1])) } else { None }
    } else if code == 'C' {
        if parts.len() > 2 { Some(ChangeView::Added(parts[2])) } else { None }
    } else if code == 'R' {
        if parts.len() > 2 { Some(ChangeView::Renamed(parts[1], parts[2])) } else { None }
    } else {
        None
    }
}

/// The changes a `git diff --name-status -M` output describes: added,
/// modified (or type-changed), deleted, copied (its new path, as added) and
/// renamed files. Lines of any other status are skipped.
pub fn parse_name_status(out: &str) -> (r: Vec<Change>)
    ensures
        change_views(r@) == name_status(out@),
{
    let v = chars_of(out);
    let ls = lines_of(v.as_slice());
    let ghost lv = views(ls@);
    let mut changes: Vec<Change> = Vec::new();
    let mut i: usize = 0;
    while i < ls.len()
        invariant
            lv == views(ls@),
            lv == lines(out@),
            i <= ls@.len(),
            change_views(changes@) == status_changes(lv.take(i as int)),
        decreases ls@.len() - i,
    {
        let ghost before = changes@;
        assert(lv.take(i + 1).drop_last() =~= lv.take(i as int));
        assert(lv.take(i + 1).last() == ls@[i as int]@);
        if ls[i].len() > 0 {
            let parts = split_chars(ls[i].as_slice(), '\t');
            assert(split(ls@[i as int]@, '\t').len() >= 1);
            match change_of_line(&parts) {
                Some(c) => {
                    changes.push(c);
                    assert(change_views(changes@) =~= change_views(before).push(c@));
                },
                None => {},
            }
        }
        i = i + 1;
    }
    assert(lv.take(ls@.len() as int) =~= lv);
    changes
}

/// The non-empty lines of a file listing, each as an added file.
fn listing(out: &str) -> (r: Vec<Change>)
    ensures
        change_views(r@) == listed_files(lines(out@)),
{
    let v = chars_of(out);
    let ls = lines_of(v.as_slice());
    let ghost lv = views(ls@);
    let mut r: Vec<Change> = Vec::new();
    let mut i: usize = 0;
    while i < ls.len()
        invariant
            lv == views(ls@),
            lv == lines(out@),
            i <= ls@.len(),
            change_views(r@) == listed_files(lv.take(i as int)),
        decreases ls@.len() - i,
    {
        let ghost before = r@;
        assert(lv.take(i + 1).drop_last() =~= lv.take(i as int));
        assert(lv.take(i + 1).last() == ls@[i as int]@);
        if ls[i].len() > 0 {
            let c = Change::Added(string_of(ls[i].as_slice()));
            r.push(c);
            assert(change_views(r@) =~= change_views(before).push(c@));
        }
        i = i + 1;
    }
    assert(lv.take(ls@.len() as int) =~= lv);
    r
}

/// Whether one of `ls` is `x`.
fn listed_in(ls: &Vec<Vec<char>>, x: &[char]) -> (b: bool)
    ensures
        b == views(ls@).contains(x@),
{
    let mut i: usize = 0;
    while i < ls.len()
        invariant
            i <= ls@.len(),
            forall|j: int| 0 <= j < i ==> (#[trigger] ls@[j])@ != x@,
        decreases ls@.len() - i,
    {
        if same_chars(ls[i].as_slice(), x) {
            assert(views(ls@)[i as int] == x@);
            return true;
        }
        i = i + 1;
    }
    proof {
        if views(ls@).contains(x@) {
            let k = choose|k: int| 0 <= k < views(ls@).len() && views(ls@)[k] == x@;
            assert(ls@[k]@ == x@);
        }
    }
    false
}

/// The files of a full listing still on disk, each as added.
fn present_listing(out: &str, gone: &str) -> (r: Vec<Change>)
    ensures
        change_views(r@) == present_files(lines(out@), lines(gone@)),
{
    let v = chars_of(out);
    let ls = lines_of(v.as_slice());
    let gv = chars_of(gone);
    let gl = lines_of(gv.as_slice());
    let ghost lv = views(ls@);
    let ghost gone_lines = views(gl@);
    let mut r: Vec<Change> = Vec::new();
    let mut i: usize = 0;
    while i < ls.len()
        invariant
            lv == views(ls@),
            lv == lines(out@),
            gone_lines == views(gl@),
            gone_lines == lines(gone@),
            i <= ls@.len(),
            change_views(r@) == present_files(lv.take(i as int), gone_lines),
        decreases ls@.len() - i,
    {
        let ghost before = r@;
        assert(lv.take(i + 1).drop_last() =~= lv.take(i as int));
        assert(lv.take(i + 1).last() == ls@[i as int]@);
        if ls[i].len() > 0 && !listed_in(&gl, ls[i].as_slice()) {
            let c = Change::Added(string_of(ls[i].as_slice()));
            r.push(c);
            assert(change_views(r@) =~= change_views(before).push(c@));
        }
        i = i + 1;
    }
    assert(lv.take(ls@.len() as int) =~= lv);
    r
}

fn same_chars(a: &[char], b: &[char]) -> (r: bool)
    ensures
        r == (a@ == b@),
{
    if a.len() != b.len() {
        return false;
    }
    let mut i: usize = 0;
    while i < a.len()
        invariant
            a@.len() == b@.len(),
            i <= a@.len(),
            forall|j: int| 0 <= j < i ==> a@[j] == b@[j],
        decreases a@.len() - i,
    {
        if a[i] != b[i] {
            return false;
        }
        i = i + 1;
    }
    assert(a@ =~= b@);
    true
}

/// Whether some change in `cs` refers to `p`.
fn mentioned(cs: &Vec<Change>, p: &[char]) -> (b: bool)
    ensures
        b == mentions(change_views(cs@), p@),
{
    let mut i: usize = 0;
    while i < cs.len()
        invariant
            i <= cs@.len(),
            forall|j: int| 0 <= j < i ==> path_of(#[trigger] change_views(cs@)[j]) != p@,
        decreases cs@.len() - i,
    {
        let q = chars_of(change_path(&cs[i]));
        if same_chars(q.as_slice(), p) {
            assert(path_of(change_views(cs@)[i as int]) == p@);
            return true;
        }
        i = i + 1;
    }
    false
}

/// Append the files of `others` that `changes` does not yet
/// mention, each as an added file.
fn add_untracked(changes: &mut Vec<Change>, others: &str)
    ensures
        change_views(final(changes)@) == change_views(old(changes)@) + untracked_additions(
            change_views(old(changes)@),
            lines(others@),
        ),
{
    let ghost known = change_views(changes@);
    let v = chars_of(others);
    let ls = lines_of(v.as_slice());
    let ghost lv = views(ls@);
    let mut extra: Vec<Change> = Vec::new();
    let mut i: usize = 0;
    while i < ls.len()
        invariant
            lv == views(ls@),
            lv == lines(others@),
            known == change_views(changes@),
            i <= ls@.len(),
            change_views(extra@) == untracked_additions(known, lv.take(i as int)),
        decreases ls@.len() - i,
    {
        let ghost before = extra@;
        assert(lv.take(i + 1).drop_last() =~= lv.take(i as int));
        assert(lv.take(i + 1).last() == ls@[i as int]@);
        if ls[i].len() > 0 && !mentioned(changes, ls[i].as_slice()) {
            let c = Change::Added(string_of(ls[i].as_slice()));
            extra.push(c);
            assert(change_views(extra@) =~= change_views(before).push(c@));
        }
        i = i + 1;
    }
    assert(lv.take(ls@.len() as int) =~= lv);
    let ghost before = changes@;
    let mut k: usize = 0;
    while k < extra.len()
        invariant
            k <= extra@.len(),
            change_views(changes@) == change_views(before) + change_views(extra@).take(k as int),
        decreases extra@.len() - k,
    {
        let ghost prev = changes@;
        changes.push(extra[k].clone_change());
        assert(change_views(changes@) =~= change_views(prev).push(extra@[k as int]@));
        assert(change_views(extra@).take(k + 1) =~= change_views(extra@).take(k as int).push(extra@[k as int]@));
        assert(change_views(changes@) =~= change_views(before) + change_views(extra@).take(k + 1));
        k = k + 1;
    }
    assert(change_views(extra@).take(extra@.len() as int) =~= change_views(extra@));
}

impl Change {
    /// A copy of this change.
    pub fn clone_change(&self) -> (c: Change)
        ensures
            c@ == self@,
    {
        match self {
            Change::Added(p) => Change::Added(owned(p.as_str())),
            Change::Modified(p) => Change::Modified(owned(p.as_str())),
            Change::Deleted(p) => Change::Deleted(owned(p.as_str())),
            Change::Renamed { from, to } => Change::Renamed {
                from: owned(from.as_str()),
                to: owned(to.as_str()),
            },
        }
    }
}

/// The first part of what to index: every listed file still on disk when
/// there is no base commit, otherwise the diff since it.
pub open spec fn tracked_changes(base_diff: bool, listing_out: Seq<char>, deleted: Seq<char>) -> Seq<ChangeView> {
    if base_diff { name_status(listing_out) } else { present_files(lines(listing_out), lines(deleted)) }
}

/// What to index: the tracked part (see [`tracked_changes`]), then every
/// others file it does not already mention.
pub open spec fn changes_spec(base_diff: bool, listing_out: Seq<char>, deleted: Seq<char>, others: Seq<char>) -> Seq<ChangeView> {
    let first = tracked_changes(base_diff, listing_out, deleted);
    first + untracked_additions(first, lines(others))
}

impl GitRepo {
    /// The repository containing a directory, from what `git rev-parse
    /// --show-toplevel` run there gave back: rooted at its trimmed output when
    /// git succeeded; otherwise the command with git's trimmed standard error,
    /// or why git could not start.
    pub fn open(toplevel: GitOutcome) -> (r: Result<GitRepo, GitError>)
        ensures
            match toplevel {
                GitOutcome::Ran { success, stdout, stderr } => if success {
                    r matches Ok(g) && g.root_spec() == trim(stdout@)
                } else {
                    r matches Err(GitError::Failed { command: c, stderr: e })
                        && c@ == "rev-parse --show-toplevel"@ && e@ == trim(stderr@)
                },
                GitOutcome::NotStarted(e) => r matches Err(GitError::NotStarted(x)) && x@ == e@,
            },
    {
        match git_answer("rev-parse --show-toplevel", toplevel) {
            Ok(top) => Ok(GitRepo { root: trimmed(top.as_str()) }),
            Err(e) => Err(e),
        }
    }

    /// The work-tree root.
    pub closed spec fn root_spec(&self) -> Seq<char> {
        self.root@
    }

    /// The work-tree root.
    pub fn root(&self) -> (r: &str)
        ensures
            r@ == self.root_spec(),
    {
        self.root.as_str()
    }

    /// The short repo name: the root's final component, or `repo` when it has
    /// none.
    pub fn short_name(&self) -> (r: String)
        ensures
            r@ == match file_name(self.root_spec()) {
                Some(n) => n,
                None => "repo"@,
            },
    {
        match file_name_of(self.root.as_str()) {
            Some(n) => n,
            None => owned("repo"),
        }
    }

    /// The HEAD state, from what `git rev-parse HEAD` and `git rev-parse
    /// --abbrev-ref HEAD` printed (`None` where git failed): an empty commit
    /// when there is none, and `HEAD` for the branch when it is unknown.
    pub fn state(&self, head: Option<&str>, branch: Option<&str>) -> (s: GitState)
        ensures
            s.commit@ == match head {
                Some(h) => trim(h@),
                None => Seq::<char>::empty(),
            },
            s.branch@ == match branch {
                Some(b) => trim(b@),
                None => "HEAD"@,
            },
    {
        let commit = match head {
            Some(h) => trimmed(h),
            None => String::new(),
        };
        let branch = match branch {
            Some(b) => trimmed(b),
            None => owned("HEAD"),
        };
        GitState { commit, branch }
    }

    /// What to index, from git's listings: `listing_out` is what `git ls-files`
    /// printed when there is no base commit, or what `git diff --name-status -M
    /// <base> HEAD` printed when there is one; `deleted` is what `git ls-files
    /// --deleted` printed (tracked files missing from the work tree), read
    /// only for a full listing; `others` is what `git ls-files --others
    /// --exclude-standard` printed.
    ///
    /// The index mirrors the work tree: a full listing leaves out the tracked
    /// files deleted from disk, and files git is not tracking yet are
    /// included as additions, unless the first part already mentions them.
    pub fn changes(&self, base: Option<&str>, listing_out: &str, deleted: &str, others: &str) -> (r: Vec<Change>)
        ensures
            change_views(r@) == changes_spec(base is Some, listing_out@, deleted@, others@),
    {
        let mut changes = match base {
            None => present_listing(listing_out, deleted),
            Some(_) => parse_name_status(listing_out),
        };
        add_untracked(&mut changes, others);
        changes
    }

    /// What to index for a branch that is not checked out, from git's
    /// listings: `listed` is what `git ls-tree -r --name-only <branch>`
    /// printed when there is no base commit, or what `git diff --name-status
    /// -M <base> <branch>` printed when there is one. Untracked files do not
    /// belong to another branch, so none are added.
    pub fn changes_at(&self, base: Option<&str>, listed: &str) -> (r: Vec<Change>)
        ensures
            change_views(r@) == if base is Some {
                name_status(listed@)
            } else {
                listed_files(lines(listed@))
            },
    {
        match base {
            None => listing(listed),
            Some(_) => parse_name_status(listed),
        }
    }

    /// The commit a branch points at, from what `git rev-parse <branch>`
    /// printed (`None` where git failed): its trimmed output, unless empty.
    pub fn commit_of(&self, out: Option<&str>) -> (r: Option<String>)
        ensures
            match out {
                Some(o) => if trim(o@).len() > 0 {
                    r matches Some(c) && c@ == trim(o@)
                } else {
                    r is None
                },
                None => r is None,
            },
    {
        match out {
            Some(o) => {
                let t = trimmed(o);
                if t.as_str().is_empty() {
                    None
                } else {
                    Some(t)
                }
            },
            None => None,
        }
    }
}

/// After the others files are added, every file of the others listing
/// is mentioned once the changes are complete, and nothing git already
/// reported is lost or reordered.
pub proof fn law_changes_cover_untracked(base_diff: bool, listing_out: Seq<char>, deleted: Seq<char>, others: Seq<char>, k: int)
    requires
        0 <= k < lines(others).len(),
        lines(others)[k].len() > 0,
    ensures
        mentions(changes_spec(base_diff, listing_out, deleted, others), lines(others)[k]),
        ({
            let first = tracked_changes(base_diff, listing_out, deleted);
            changes_spec(base_diff, listing_out, deleted, others).take(first.len() as int) == first
        }),
{
    let first = tracked_changes(base_diff, listing_out, deleted);
    let all = changes_spec(base_diff, listing_out, deleted, others);
    lemma_untracked_mentioned(first, lines(others), k);
    let extra = untracked_additions(first, lines(others));
    assert(all.take(first.len() as int) =~= first);
    if mentions(first, lines(others)[k]) {
        let i = choose|i: int| 0 <= i < first.len() && path_of(#[trigger] first[i]) == lines(others)[k];
        assert(all[i] == first[i]);
    } else {
        let i = choose|i: int| 0 <= i < extra.len() && path_of(#[trigger] extra[i]) == lines(others)[k];
        assert(all[first.len() + i] == extra[i]);
    }
}

proof fn lemma_present_files_skip(ls: Seq<Seq<char>>, gone: Seq<Seq<char>>, p: Seq<char>)
    requires
        gone.contains(p),
    ensures
        !mentions(present_files(ls, gone), p),
    decreases ls.len(),
{
    if ls.len() > 0 {
        let r = present_files(ls.drop_last(), gone);
        lemma_present_files_skip(ls.drop_last(), gone, p);
        let all = present_files(ls, gone);
        if mentions(all, p) {
            let i = choose|i: int| 0 <= i < all.len() && path_of(#[trigger] all[i]) == p;
            if i < r.len() {
                assert(all[i] == r[i]);
            }
        }
    }
}

/// A full listing mirrors the work tree: a tracked file that `git ls-files
/// --deleted` reports as gone from disk is not among the tracked changes.
pub proof fn law_full_listing_skips_deleted(listing_out: Seq<char>, deleted: Seq<char>, k: int)
    requires
        0 <= k < lines(deleted).len(),
    ensures
        !mentions(tracked_changes(false, listing_out, deleted), lines(deleted)[k]),
{
    lemma_present_files_skip(lines(listing_out), lines(deleted), lines(deleted)[k]);
}

proof fn lemma_untracked_mentioned(known: Seq<ChangeView>, ls: Seq<Seq<char>>, k: int)
    requires
        0 <= k < ls.len(),
        ls[k].len() > 0,
    ensures
        mentions(known, ls[k]) || mentions(untracked_additions(known, ls), ls[k]),
    decreases ls.len(),
{
    let r = untracked_additions(known, ls.drop_last());
    if k < ls.len() - 1 {
        lemma_untracked_mentioned(known, ls.drop_last(), k);
        assert(ls.drop_last()[k] == ls[k]);
        if mentions(r, ls[k]) {
            let i = choose|i: int| 0 <= i < r.len() && path_of(#[trigger] r[i]) == ls[k];
            assert(untracked_additions(known, ls)[i] == r[i]);
        }
    } else if !mentions(known, ls[k]) {
        let all = untracked_additions(known, ls);
        assert(all[r.len() as int] == ChangeView::Added(ls[k]));
        assert(path_of(all[r.len() as int]) == ls[k]);
    }
}

impl GitRepo {
    /// Whether `commit` names a commit here, given whether `git cat-file -e
    /// <commit>^{commit}` succeeded: an empty name never does (git is not
    /// asked, and its answer is ignored).
    pub fn commit_exists(&self, commit: &str, cat_file_ok: bool) -> (b: bool)
        ensures
            b == (commit@.len() > 0 && cat_file_ok),
    {
        !commit.is_empty() && cat_file_ok
    }
}

} // verus!
