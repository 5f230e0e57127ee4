use devctx::central::stamp_of;
use devctx::cli::{remember_group, tier_label};
use devctx::central::ProjectRecord;
use devctx::cli::{project_list_lines, project_show_lines};
use devctx::cli::{scope_store, ScopeStore};
use devctx::cli::{branch_to_index, run_line};
use devctx::pipeline::IndexResult;
use devctx::cli::{project_name, scope_name, short_commit, snippet, title_or_untitled, MemoryScope};
use devctx::config::ProjectConfig;
use devctx::models::{files_status, hf_url, is_current_release, notes, target_dir, target_triple};
use devctx::dirs::DirEnv;
use devctx::rank::fuse_by_rank;

#[test]
fn short_commit_truncates() {
    assert_eq!(short_commit("0123456789abcdef"), "01234567");
    assert_eq!(short_commit(""), "(no commit)");
    assert_eq!(short_commit("abc"), "abc");
}

#[test]
fn a_snippet_is_the_first_line_cut_to_size() {
    assert_eq!(snippet("  hello world  \nmore", 20), "hello world");
    assert_eq!(snippet("abcdef", 3), "abc…");
    assert_eq!(snippet("", 3), "");
}

#[test]
fn names_and_scopes_as_shown() {
    assert_eq!(title_or_untitled(""), "(untitled)");
    assert_eq!(title_or_untitled("t"), "t");
    assert_eq!(project_name(&ProjectConfig::default()), "default");
    assert_eq!(scope_name(MemoryScope::All), "local");
    assert_eq!(scope_name(MemoryScope::Group), "group");
}

#[test]
fn models_are_described_and_located() {
    assert_eq!(notes("ml-granite").0, "multilingual");
    assert_eq!(notes("nope"), ("—", ""));
    let env = DirEnv {
        devctx_home: Some("/d".into()),
        model_cache: None,
        xdg_data_home: None,
        xdg_config_home: None,
        home: None,
        userprofile: None,
    };
    assert_eq!(target_dir(&env, "ml-granite").as_deref(), Ok("/d/models/ml-granite"));
    let homeless = DirEnv {
        devctx_home: None,
        model_cache: None,
        xdg_data_home: None,
        xdg_config_home: None,
        home: None,
        userprofile: None,
    };
    assert_eq!(target_dir(&homeless, "ml-granite"), Err("no home directory to cache models in".to_string()));
    assert_eq!(hf_url("org/m", "onnx/model.onnx"), "https://huggingface.co/org/m/resolve/main/onnx/model.onnx");
    assert_eq!(files_status(true, false), "automatic");
    assert_eq!(files_status(false, true), "ready");
    assert_eq!(files_status(false, false), "download");
    assert_eq!(target_triple("linux", "x86_64"), Some("x86_64-unknown-linux-gnu"));
    assert_eq!(target_triple("linux", "riscv64"), None);
    assert!(is_current_release("v1.2.3", "1.2.3"));
    assert!(!is_current_release("v1.2.4", "1.2.3"));
}

#[test]
fn an_item_in_both_lists_outranks_one_that_leads_a_single_list() {
    let a = vec!["a_top", "both", "a_third"];
    let b = vec!["b_top", "both"];
    let fused = fuse_by_rank(vec![a, b], |s| s.to_string(), rrf, 10);
    assert_eq!(fused[0], "both");
    assert_eq!(fused.len(), 4, "deduplicated across lists");
}

#[test]
fn order_is_stable_and_the_limit_is_honored() {
    let lists = vec![vec!["x", "y"], vec!["y", "x"]];
    let a = fuse_by_rank(lists.clone(), |s| s.to_string(), rrf, 10);
    let b = fuse_by_rank(lists, |s| s.to_string(), rrf, 10);
    assert_eq!(a, b, "ties must not depend on hash iteration order");
    assert_eq!(fuse_by_rank(vec![vec!["x", "y"]], |s| s.to_string(), rrf, 1).len(), 1);
    assert!(fuse_by_rank(Vec::<Vec<&str>>::new(), |s| s.to_string(), rrf, 5).is_empty());
}

/// The reciprocal-rank score of an item's positions, summed in `f32` and
/// given as its bits, which order as the score does.
fn rrf(positions: &Vec<usize>) -> u32 {
    positions.iter().map(|r| 1.0f32 / (60.0 + *r as f32 + 1.0)).sum::<f32>().to_bits()
}

#[test]
fn scores_that_tie_in_f32_are_ordered_by_key() {
    assert_eq!(rrf(&vec![3]), rrf(&vec![19, 259]));
    let mut first: Vec<String> = (0..20).map(|i| format!("f{i}")).collect();
    first[3] = "p".into();
    first[19] = "q".into();
    let mut second: Vec<String> = (0..260).map(|i| format!("g{i}")).collect();
    second[259] = "q".into();
    let lists: Vec<Vec<&str>> = vec![
        first.iter().map(|s| s.as_str()).collect(),
        second.iter().map(|s| s.as_str()).collect(),
    ];
    let fused = fuse_by_rank(lists, |s| s.to_string(), rrf, 1000);
    let p = fused.iter().position(|s| *s == "p").unwrap();
    let q = fused.iter().position(|s| *s == "q").unwrap();
    assert!(p < q);
}

#[test]
fn the_branch_to_index_is_asked_then_declared_then_checked_out() {
    let mut cfg = ProjectConfig::default();
    assert_eq!(branch_to_index(Some("feature".into()), &cfg).as_deref(), Some("feature"));
    assert_eq!(branch_to_index(None, &cfg), None);
    cfg.indexing.branches = vec!["main".into(), "release".into()];
    assert_eq!(branch_to_index(None, &cfg).as_deref(), Some("main"));
    assert_eq!(branch_to_index(Some("hotfix".into()), &cfg).as_deref(), Some("hotfix"));
}

#[test]
fn a_run_is_summarised_in_one_line() {
    let r = IndexResult {
        full_reindex: true,
        files_indexed: 12,
        files_skipped: 3,
        files_deleted: 1,
        files_pruned: 2,
        files_renamed: 0,
        ..IndexResult::default()
    };
    assert_eq!(run_line(&r), "  full reindex (12 files, 3 skipped, 1 deleted, 2 pruned, 0 renamed)");
    let inc = IndexResult { files_indexed: 1, ..IndexResult::default() };
    assert_eq!(run_line(&inc), "  incremental (1 files, 0 skipped, 0 deleted, 0 pruned, 0 renamed)");
}

#[test]
fn a_scope_names_the_store_its_memories_live_in() {
    let mut cfg = ProjectConfig::default();
    cfg.project.name = "api".into();
    assert_eq!(scope_store(&cfg, "local"), Ok(ScopeStore::Project("api".into())));
    assert_eq!(scope_store(&cfg, "global"), Ok(ScopeStore::Global));
    assert!(ScopeStore::Global.is_central());
    assert!(!ScopeStore::Project("api".into()).is_central());
    assert_eq!(
        scope_store(&cfg, "group"),
        Err("this project declares no group; set `project.group` in its config, or use --scope local or --scope global".to_string())
    );
    cfg.project.group = "ACME".into();
    let g = scope_store(&cfg, "group");
    assert_eq!(g, Ok(ScopeStore::Group("ACME".into())));
    assert!(g.unwrap().is_central());
    assert_eq!(
        scope_store(&cfg, "team"),
        Err("unknown scope `team`; expected local, group or global".to_string())
    );
}

fn record(name: &str, active: bool, indexed: bool) -> ProjectRecord {
    ProjectRecord {
        name: name.into(),
        path: format!("/src/{name}"),
        config_path: format!("/src/{name}/.devctx/config.yaml"),
        db_path: format!("/src/{name}/.devctx/state/index.duckdb"),
        embed_provider: "local".into(),
        embed_model: "bge-small".into(),
        embed_dim: 384,
        description: String::new(),
        tags: if indexed { "web,ui".into() } else { String::new() },
        last_commit: if indexed { "0123456789abcdef".into() } else { String::new() },
        last_branch: "main".into(),
        last_indexed_at: if indexed { "1700000000".into() } else { String::new() },
        file_count: 42,
        symbol_count: 7,
        chunk_count: 99,
        registered_at: "1".into(),
        updated_at: "1".into(),
        active,
    }
}

#[test]
fn the_project_list_pads_names_and_marks_inactive_rows() {
    let rows = vec![record("api", true, true), record("frontend", false, false)];
    let lines = project_list_lines(&rows);
    assert_eq!(
        lines,
        vec![
            "  api       bge-small    42 files @ 01234567    /src/api".to_string(),
            "- frontend  bge-small    never indexed          /src/frontend".to_string(),
        ]
    );
    assert_eq!(project_list_lines(&vec![]), vec!["No projects registered (run `devctx projects add`).".to_string()]);
}

#[test]
fn showing_a_project_lists_what_is_known_of_it() {
    let lines = project_show_lines(&record("api", true, true));
    assert_eq!(
        lines,
        vec![
            "api",
            "  Path:        /src/api",
            "  Config:      /src/api/.devctx/config.yaml",
            "  Store:       /src/api/.devctx/state/index.duckdb",
            "  Model:       bge-small (local, 384d)",
            "  Tags:        web,ui",
            "  Index:       42 files, 7 symbols, 99 chunks",
            "  Last:        01234567 on main",
            "  Active:      true",
        ]
    );
    let never = project_show_lines(&record("web", false, false));
    assert_eq!(never[4..], ["  Model:       bge-small (local, 384d)", "  Index:       never indexed", "  Active:      false"]);
}

#[test]
fn a_group_memory_needs_a_group_and_is_labelled_by_it() {
    let mut cfg = ProjectConfig::default();
    cfg.project.name = "api".into();
    assert_eq!(
        remember_group(MemoryScope::Group, &cfg),
        Err("this project declares no group; set `project.group` in api or use `--scope global`".to_string())
    );
    assert_eq!(remember_group(MemoryScope::Global, &cfg), Ok(String::new()));
    cfg.project.group = "ACME".into();
    assert_eq!(remember_group(MemoryScope::Group, &cfg), Ok("ACME".to_string()));
    assert_eq!(tier_label(""), "global");
    assert_eq!(tier_label("ACME"), "group:ACME");
}

#[test]
fn a_clock_reading_gives_its_whole_seconds_or_nothing() {
    assert_eq!(stamp_of(Some(1700000000)), "1700000000");
    assert_eq!(stamp_of(Some(0)), "0");
    assert_eq!(stamp_of(None), "");
}
