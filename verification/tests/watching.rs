use ignore::gitignore::{Gitignore, GitignoreBuilder};

use devctx::pipeline::{build_exclude, excluded_from_index};
use devctx::watch::{is_content_change, relevant, relevant_candidate, strip_root_of, ChangeKind};

fn ignore_with(root: &str, rules: &str) -> Gitignore {
    let mut b = GitignoreBuilder::new(root);
    for line in rules.lines() {
        let _ = b.add_line(None, line);
    }
    b.build().unwrap()
}

#[test]
fn gitignored_files_do_not_trigger_a_reindex() {
    let root = "/repo";
    let ig = ignore_with(root, "*.log\nsecrets/\n");
    assert!(relevant(root, "/repo/run.log", false, &ig).is_none());
    assert!(
        relevant(root, "/repo/secrets/key.txt", false, &ig).is_none(),
        "a directory rule must cover what is inside it"
    );
    assert_eq!(relevant(root, "/repo/src/lib.rs", false, &ig), Some("src/lib.rs".to_string()));
}

#[test]
fn only_content_changes_count() {
    assert!(is_content_change(ChangeKind::Modify));
    assert!(is_content_change(ChangeKind::Create));
    assert!(is_content_change(ChangeKind::Remove));
    assert!(!is_content_change(ChangeKind::Access), "reading a file must not trigger a reindex");
    assert!(!is_content_change(ChangeKind::Other));
}

#[test]
fn paths_outside_the_repository_are_rejected() {
    let ig = Gitignore::empty();
    assert!(relevant("/repo", "/elsewhere/x.rs", false, &ig).is_none());
    assert!(relevant("/repo", "/repo", false, &ig).is_none());
    assert!(relevant("/repo", "/repository/x.rs", false, &ig).is_none(), "a name prefix is not the repository");
}

#[test]
fn directories_and_build_output_are_not_indexed() {
    let ig = Gitignore::empty();
    assert!(relevant("/repo", "/repo/src", true, &ig).is_none());
    assert!(relevant("/repo", "/repo/target/debug/app", false, &ig).is_none());
    assert!(relevant("/repo", "/repo/src/.lib.rs.swp", false, &ig).is_none());
    assert_eq!(relevant_candidate("/repo", "/repo//src/lib.rs", false), Some("src/lib.rs".to_string()));
}

#[test]
fn a_path_is_taken_relative_to_its_repository() {
    assert_eq!(strip_root_of("/repo", "/repo/a/b.rs"), Some("a/b.rs".to_string()));
    assert_eq!(strip_root_of("/repo/", "/repo/a"), Some("a".to_string()));
    assert_eq!(strip_root_of("/", "/a"), Some("a".to_string()));
    assert_eq!(strip_root_of("/repo", "/repo"), Some(String::new()));
    assert_eq!(strip_root_of("/repo", "/repos/a"), None);
    assert_eq!(strip_root_of("/repo", "/other"), None);
}

#[test]
fn configured_excludes_cover_what_is_beneath_them() {
    let ex = build_exclude(&vec!["target/".to_string(), "*.log".to_string()]);
    assert!(excluded_from_index("target/debug/app.rs", &ex));
    assert!(excluded_from_index("deep/down/run.log", &ex));
    assert!(!excluded_from_index("src/lib.rs", &ex));
    assert!(excluded_from_index(".devctx/state/x", &ex), "our own state is never indexed");
}

#[test]
fn no_excludes_exclude_only_our_own_directories() {
    let ex = build_exclude(&Vec::new());
    assert!(!excluded_from_index("src/lib.rs", &ex));
    assert!(excluded_from_index(".git/HEAD", &ex));
}

#[test]
fn a_broken_pattern_does_not_stop_the_others() {
    let ex = build_exclude(&vec!["[".to_string(), "*.tmp".to_string()]);
    assert!(excluded_from_index("a/b.tmp", &ex));
    assert!(!excluded_from_index("a/b.rs", &ex));
}

#[test]
fn comments_and_blank_patterns_exclude_nothing() {
    let ex = build_exclude(&vec!["# generated".to_string(), String::new()]);
    assert!(!excluded_from_index("src/main.rs", &ex));
    assert!(excluded_from_index(".git/HEAD", &ex));
}

#[test]
fn without_rules_every_candidate_is_relevant() {
    let none = Gitignore::empty();
    assert_eq!(relevant("/repo", "/repo/src/a.rs", false, &none), Some("src/a.rs".to_string()));
    assert_eq!(relevant("/repo", "/elsewhere/a.rs", false, &none), None);
}
