use devctx::hooks::{block, has_block, install_script, uninstall_edit, without_block, HookEdit, BEGIN, END, HOOKS};

#[test]
fn round_trips_a_managed_block() {
    let script = format!("#!/bin/sh\necho hi\n{BEGIN}\nmanaged\n{END}\necho bye\n");
    assert!(has_block(&script));
    let stripped = without_block(&script);
    assert_eq!(stripped, "#!/bin/sh\necho hi\necho bye\n");
    assert!(!has_block(&stripped));
}

#[test]
fn leaves_a_foreign_hook_alone() {
    let foreign = "#!/bin/sh\nmake lint\n";
    assert!(!has_block(foreign));
    assert_eq!(without_block(foreign), foreign);
}

#[test]
fn ignores_reversed_or_partial_markers() {
    let reversed = format!("#!/bin/sh\n{END}\n{BEGIN}\n");
    assert_eq!(without_block(&reversed), reversed);
    let partial = format!("#!/bin/sh\n{BEGIN}\nno end marker\n");
    assert_eq!(without_block(&partial), partial);
}

#[test]
fn the_block_runs_index_detached_and_never_fails_a_commit() {
    let b = block("/usr/local/bin/devctx", "post-commit");
    assert!(b.contains("\"/usr/local/bin/devctx\" index"));
    assert!(b.contains('&'), "must not block the commit");
    assert!(b.contains("|| true"), "must not fail the commit");
}

#[test]
fn post_merge_is_managed_too() {
    assert!(HOOKS.contains(&"post-commit"));
    assert!(HOOKS.contains(&"post-merge"));
}

#[test]
fn each_hook_explains_when_it_fires() {
    let exe = "/usr/local/bin/devctx";
    let commit = block(exe, "post-commit");
    let merge = block(exe, "post-merge");

    assert!(commit.contains("after each commit"));
    assert!(merge.contains("after a merge or a fast-forward pull"));

    for b in [&commit, &merge] {
        assert!(b.contains("\"/usr/local/bin/devctx\" index"));
        assert!(b.contains("|| true"));
    }
}

#[test]
fn a_post_merge_block_round_trips_like_any_other() {
    let script = format!("#!/bin/sh\nmake lint\n{}", block("/usr/local/bin/devctx", "post-merge"));
    assert!(has_block(&script));
    assert_eq!(without_block(&script), "#!/bin/sh\nmake lint\n");
}

#[test]
fn installing_into_nothing_starts_a_shell_script() {
    let s = install_script("", "/bin/devctx", "post-commit");
    assert_eq!(s, format!("#!/bin/sh\n{}", block("/bin/devctx", "post-commit")));
}

#[test]
fn reinstalling_replaces_the_old_block_and_keeps_the_rest() {
    let first = install_script("#!/bin/sh\nmake lint\n\n", "/bin/devctx", "post-commit");
    assert_eq!(first, format!("#!/bin/sh\nmake lint\n{}", block("/bin/devctx", "post-commit")));
    let again = install_script(&first, "/bin/devctx", "post-commit");
    assert_eq!(again, first, "installing twice changes nothing");
}

#[test]
fn uninstalling_removes_a_hook_that_was_ours_alone() {
    let ours = install_script("", "/bin/devctx", "post-merge");
    assert!(matches!(uninstall_edit(&ours), HookEdit::Remove));
    let shared = install_script("#!/bin/sh\nmake lint\n", "/bin/devctx", "post-commit");
    match uninstall_edit(&shared) {
        HookEdit::Write(s) => assert_eq!(s, "#!/bin/sh\nmake lint\n"),
        _ => panic!("a hook that also lints must keep the lint"),
    }
    assert!(matches!(uninstall_edit("#!/bin/sh\nmake lint\n"), HookEdit::Keep));
}
