use devctx::pipeline::{change_actions, check_dimensions, run_commit, run_target, stale_files, FileAction, IndexResult, RunRefusal};
use devctx::git::Change;
use devctx::pipeline::{chunk_id, explicit_change, is_generated, is_own_artifact, plan_run, recorded_commit, PriorRun, MINIFIED_LINE};
use devctx::transfer_apply::{decide, prepare, ImportReport, Memory, Outcome};
use devctx::transfer_apply::{group_by_destination, is_central_key, migrated_project, migrated_repo, migrated_scope, reuses_embedding, MigratedScope};
use devctx::watch::{has_skipped_component, is_editor_noise, worth_indexing, Pending};

#[test]
fn machine_written_files_are_recognised() {
    let long = "a".repeat(MINIFIED_LINE + 1);
    assert!(is_generated("assets/cytoscape.min.js", "x"));
    assert!(is_generated("web/app.bundle.js", "x"));
    assert!(is_generated("node_modules/left-pad/index.js", "x"));
    assert!(is_generated("package-lock.json", "x"));
    assert!(is_generated("src/data.json", &long), "one impossible line is enough, whatever the name");
}

#[test]
fn hand_written_files_are_left_alone() {
    assert!(!is_generated("crates/devctx-index/src/pipeline.rs", "fn main() {}\n"));
    assert!(!is_generated("src/minify.js", "export function minify() {}\n"));
    assert!(!is_generated("docs/vendors.md", "# Vendors\n"));
    assert!(!is_generated("src/wide.rs", &format!("// {}\n", "x".repeat(300))), "a wide line is still a line someone typed");
}

#[test]
fn our_own_directories_are_never_indexed() {
    assert!(is_own_artifact(".devctx/state/index.duckdb"));
    assert!(is_own_artifact(".git/HEAD"));
    assert!(is_own_artifact(".fastembed_cache/x"));
    assert!(!is_own_artifact("src/.devctx"));
    assert!(!is_own_artifact("/abs/.devctx"));
}

#[test]
fn id_is_32_hex_and_deterministic() {
    let a = chunk_id("repo", "main", "src/a.rs", 1, 0);
    assert_eq!(a.len(), 32);
    assert!(a.chars().all(|c| c.is_ascii_hexdigit()));
    assert_eq!(a, chunk_id("repo", "main", "src/a.rs", 1, 0));
}

#[test]
fn ordinal_disambiguates_same_line() {
    assert_ne!(chunk_id("repo", "main", "f.rs", 1, 0), chunk_id("repo", "main", "f.rs", 1, 1));
}

#[test]
fn a_run_is_planned_from_what_was_recorded() {
    let prior = Some(PriorRun { last_commit: "abc".into(), model_name: "m".into(), model_dimension: 384 });
    let p = plan_run(true, &prior, "m", 384, true, false);
    assert!(p.incremental && !p.full_reindex && !p.model_changed);
    let p = plan_run(true, &prior, "other", 384, true, false);
    assert!(p.model_changed && !p.incremental && p.full_reindex);
    let p = plan_run(true, &prior, "m", 384, true, true);
    assert!(p.incremental && !p.full_reindex);
    let p = plan_run(false, &None, "m", 384, false, true);
    assert!(!p.incremental && !p.full_reindex, "a path list is never a full reindex");
    assert_eq!(recorded_commit(true, &prior, "head"), "abc");
    assert_eq!(recorded_commit(false, &prior, "head"), "head");
    assert_eq!(explicit_change("gone.rs", false), Change::Deleted("gone.rs".into()));
}

fn mem(id: &str, topic: &str, content: &str, hash: &str) -> Memory {
    Memory {
        id: id.into(),
        title: id.into(),
        content: content.into(),
        topic_key: topic.into(),
        normalized_hash: hash.into(),
        project: "@group:REVFA".into(),
        ..Default::default()
    }
}

#[test]
fn an_unseen_memory_is_added() {
    let existing = vec![mem("mem_a", "auth", "a", "h1")];
    let incoming = mem("mem_b", "pdf", "b", "h2");
    assert_eq!(decide(&incoming, &existing), Outcome::Added);
}

#[test]
fn identical_content_is_recognised_however_it_is_labelled() {
    let existing = vec![mem("mem_a", "auth", "same text", "h1")];
    let incoming = mem("DIFFERENT_ID", "auth", "same text", "h1");
    assert_eq!(decide(&incoming, &existing), Outcome::AlreadyPresent);
}

#[test]
fn a_topic_collision_keeps_both() {
    let existing = vec![mem("mem_a", "auth", "we use JWT", "h1")];
    let incoming = mem("mem_b", "auth", "we moved to sessions", "h2");
    assert_eq!(decide(&incoming, &existing), Outcome::TopicCollision);
}

#[test]
fn the_incoming_copy_of_a_collision_gives_up_the_topic_key() {
    let incoming = mem("mem_b", "auth", "we moved to sessions", "h2");
    let stored = prepare(&incoming, Outcome::TopicCollision);
    assert_eq!(stored.topic_key, "", "the local memory keeps the topic");
    assert_eq!(stored.content, "we moved to sessions", "and nothing is lost");
}

#[test]
fn memories_without_a_topic_never_collide() {
    let existing = vec![mem("mem_a", "", "a", "h1")];
    let incoming = mem("mem_b", "", "b", "h2");
    assert_eq!(decide(&incoming, &existing), Outcome::Added);
}

#[test]
fn a_collision_without_a_title_is_named_by_id() {
    let mut m = mem("mem_x", "auth", "text", "h9");
    m.title = String::new();
    let mut report = ImportReport::default();
    report.record(&m, Outcome::TopicCollision);
    assert_eq!(report.collisions, vec!["mem_x".to_string()]);
    assert_eq!(report.added, 1, "a collision is still stored");
}

#[test]
fn importing_twice_adds_nothing() {
    let incoming = mem("mem_b", "auth", "b", "h2");
    let mut existing = vec![mem("mem_a", "auth", "a", "h1")];
    let o = decide(&incoming, &existing);
    existing.push(prepare(&incoming, o));
    assert_eq!(decide(&incoming, &existing), Outcome::AlreadyPresent);
}

#[test]
fn editor_temporaries_are_ignored() {
    for noisy in [
        "/repo/src/lib.rs~",
        "/repo/src/.lib.rs.swp",
        "/repo/src/lib.rs.tmp",
        "/repo/src/.#lib.rs",
        "/repo/src/lib.rs___jb_tmp___",
    ] {
        assert!(is_editor_noise(noisy), "{noisy} is editor noise");
    }
    assert!(!is_editor_noise("/repo/src/lib.rs"));
}

#[test]
fn build_output_and_vcs_directories_are_skipped() {
    for skipped in ["target/debug/app", ".git/index", "node_modules/pkg/index.js", ".devctx/state/index.duckdb"] {
        assert!(has_skipped_component(skipped), "{skipped} should be skipped");
    }
    assert!(!has_skipped_component("src/lib.rs"));
    assert!(worth_indexing("src/lib.rs", "/repo/src/lib.rs"));
    assert!(!worth_indexing("", "/repo"));
}

#[test]
fn a_file_saved_twice_is_indexed_once() {
    let mut p = Pending::new();
    p.insert("a.rs");
    p.insert("b.rs");
    p.insert("a.rs");
    assert!(!p.is_empty());
    assert_eq!(p.drain(), vec!["a.rs".to_string(), "b.rs".to_string()]);
    assert!(p.is_empty());
}

#[test]
fn indexing_an_unknown_branch_is_an_error() {
    let err = run_target(Some("no-such-branch"), "main", false).err().expect("an unknown branch is refused");
    assert!(matches!(err, RunRefusal::UnknownBranch(ref b) if b == "no-such-branch"), "got {err:?}");
    assert_eq!(err.message(), "no branch `no-such-branch` in this repository");
}

#[test]
fn another_branch_is_read_from_git_and_the_checked_out_one_from_disk() {
    let other = run_target(Some("feature"), "main", true).unwrap();
    assert_eq!(other.branch, "feature");
    assert!(other.from_objects);
    assert_eq!(run_commit(&other, "head", Some("f00d")), "f00d");
    assert_eq!(run_commit(&other, "head", None), "");
    let here = run_target(Some("main"), "main", false).unwrap();
    assert!(!here.from_objects, "the checked-out branch never needs to exist elsewhere");
    assert_eq!(run_commit(&here, "head", Some("f00d")), "head");
    assert_eq!(run_target(None, "dev", false).unwrap().branch, "dev");
}

#[test]
fn a_store_of_another_width_is_refused() {
    assert_eq!(check_dimensions(384, 384), Ok(()));
    let err = check_dimensions(768, 384).unwrap_err();
    assert_eq!(err, RunRefusal::DimensionMismatch { embedder: 768, store: 384 });
    assert_eq!(err.message(), "embedder dimension 768 != store dimension 384");
}

#[test]
fn each_change_becomes_its_store_actions() {
    let mut r = IndexResult::default();
    assert_eq!(change_actions(&Change::Deleted("a.rs".into()), &mut r), vec![FileAction::Delete("a.rs".into())]);
    assert_eq!(
        change_actions(&Change::Renamed { from: "b.rs".into(), to: "c.rs".into() }, &mut r),
        vec![FileAction::Delete("b.rs".into()), FileAction::Index("c.rs".into())]
    );
    assert_eq!(change_actions(&Change::Modified("d.rs".into()), &mut r), vec![FileAction::Index("d.rs".into())]);
    assert_eq!(change_actions(&Change::Added("e.rs".into()), &mut r), vec![FileAction::Index("e.rs".into())]);
    assert_eq!((r.files_deleted, r.files_renamed, r.files_indexed), (1, 1, 0));
}

#[test]
fn vanished_files_are_pruned_after_a_full_run() {
    let previous = vec!["a.rs".to_string(), "b.rs".to_string(), "c.rs".to_string()];
    let indexed = vec!["c.rs".to_string(), "a.rs".to_string()];
    assert_eq!(stale_files(&previous, &indexed), vec!["b.rs".to_string()]);
    assert!(stale_files(&Vec::new(), &indexed).is_empty());
}

#[test]
fn an_embedding_is_reused_only_for_the_same_model_and_width() {
    assert!(reuses_embedding("bge-small", 384, "bge-small", 384));
    assert!(!reuses_embedding("bge-small", 768, "bge-small", 384));
    assert!(!reuses_embedding("bge-base", 384, "bge-small", 384));
    assert!(is_central_key("@group:acme"));
    assert!(!is_central_key("api"));
}

#[test]
fn migrated_memories_land_where_they_will_be_found() {
    assert_eq!(migrated_project(true, "old", "api"), "old");
    assert_eq!(migrated_project(true, "", "api"), "api");
    assert_eq!(migrated_project(false, "old", "api"), "api");
    assert_eq!(migrated_repo("", "old"), "old");
    assert_eq!(migrated_repo("web", "old"), "web");
    assert_eq!(migrated_scope(true, "shared", "ACME"), MigratedScope::Group);
    assert_eq!(migrated_scope(true, "shared", ""), MigratedScope::Global);
    assert_eq!(migrated_scope(false, "local", "ACME"), MigratedScope::Kept("local".into()));
}

#[test]
fn an_import_is_grouped_by_destination_in_key_order() {
    let keys: Vec<String> = vec!["web".into(), "@global".into(), "api".into(), "web".into(), "api".into()];
    let groups = group_by_destination(&keys);
    assert_eq!(
        groups,
        vec![("@global".to_string(), vec![1]), ("api".to_string(), vec![2, 4]), ("web".to_string(), vec![0, 3])]
    );
    assert!(group_by_destination(&vec![]).is_empty());
}
