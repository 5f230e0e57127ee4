use devctx::git::{change_path, git_answer, parse_name_status, Change, GitError, GitOutcome, GitRepo};

#[test]
fn parses_name_status_lines() {
    let out = "A\tsrc/new.rs\nM\tsrc/mod.rs\nD\tsrc/old.rs\nR100\tsrc/a.rs\tsrc/b.rs\n";
    let changes = parse_name_status(out);
    assert_eq!(changes.len(), 4);
    assert_eq!(changes[0], Change::Added("src/new.rs".into()));
    assert_eq!(changes[1], Change::Modified("src/mod.rs".into()));
    assert_eq!(changes[2], Change::Deleted("src/old.rs".into()));
    assert_eq!(changes[3], Change::Renamed { from: "src/a.rs".into(), to: "src/b.rs".into() });
}

#[test]
fn copies_and_type_changes_are_read_and_unknown_lines_skipped() {
    let out = "C75\told.rs\tcopy.rs\nT\tlink\nX\tweird\n\nR100\tonly-one\n";
    let changes = parse_name_status(out);
    assert_eq!(changes, vec![Change::Added("copy.rs".into()), Change::Modified("link".into())]);
}

#[test]
fn untracked_files_join_the_listing_once() {
    let repo = repo_at("/work/repo\n");
    let changes = repo.changes(None, "a.rs\nb.rs\n", "", "b.rs\nnew.rs\n");
    let paths: Vec<&str> = changes.iter().map(change_path).collect();
    assert_eq!(paths, vec!["a.rs", "b.rs", "new.rs"]);
    let diff = repo.changes(Some("abc"), "R100\tx.rs\ty.rs\n", "gone.rs\n", "y.rs\nz.rs\n");
    assert_eq!(diff, vec![Change::Renamed { from: "x.rs".into(), to: "y.rs".into() }, Change::Added("z.rs".into())]);
}

#[test]
fn a_repository_is_named_after_its_root() {
    let repo = repo_at("  /home/u/DevCtxEngine \n");
    assert_eq!(repo.root(), "/home/u/DevCtxEngine");
    assert_eq!(repo.short_name(), "DevCtxEngine");
    assert_eq!(repo_at("/").short_name(), "repo");
}

#[test]
fn head_state_falls_back_when_git_fails() {
    let repo = repo_at("/r");
    let s = repo.state(Some("abc123\n"), None);
    assert_eq!((s.commit.as_str(), s.branch.as_str()), ("abc123", "HEAD"));
    let s = repo.state(None, Some(" main\n"));
    assert_eq!((s.commit.as_str(), s.branch.as_str()), ("", "main"));
    assert_eq!(repo.commit_of(Some("  \n")), None);
    assert_eq!(repo.commit_of(Some("deadbeef\n")).as_deref(), Some("deadbeef"));
}

#[test]
fn another_branch_lists_no_untracked_files() {
    let repo = repo_at("/r");
    assert_eq!(repo.changes_at(None, "a\n\nb\n"), vec![Change::Added("a".into()), Change::Added("b".into())]);
}

#[test]
fn a_full_listing_leaves_out_files_deleted_from_disk() {
    let repo = repo_at("/work/repo\n");
    let changes = repo.changes(None, "a.rs\nb.rs\nc.rs\n", "b.rs\n", "new.rs\n");
    let paths: Vec<&str> = changes.iter().map(change_path).collect();
    assert_eq!(paths, vec!["a.rs", "c.rs", "new.rs"]);
}

fn repo_at(top: &str) -> GitRepo {
    GitRepo::open(GitOutcome::Ran { success: true, stdout: top.into(), stderr: String::new() }).unwrap()
}

#[test]
fn opening_outside_a_repository_names_the_command_and_gits_complaint() {
    let failed = GitRepo::open(GitOutcome::Ran {
        success: false,
        stdout: String::new(),
        stderr: "fatal: not a git repository\n".into(),
    });
    let e = failed.err().unwrap();
    assert_eq!(
        e,
        GitError::Failed { command: "rev-parse --show-toplevel".into(), stderr: "fatal: not a git repository".into() }
    );
    assert_eq!(e.message(), "git rev-parse --show-toplevel failed: fatal: not a git repository");
    let gone = GitRepo::open(GitOutcome::NotStarted("No such file or directory".into())).err().unwrap();
    assert_eq!(gone.message(), "failed to run git: No such file or directory");
    assert_eq!(git_answer("ls-files", GitOutcome::Ran { success: true, stdout: "a\n".into(), stderr: String::new() }), Ok("a\n".to_string()));
}
