use devctx::api::{model_idle_secs, DEFAULT_MODEL_IDLE_SECS};
use devctx::text::parse_u64;
use devctx::api::{carries_bearer, central_admits, counts_as_activity, project_admits, stale_projects};
use devctx::backend::{
    memories_by_file_path, memories_by_symbol_path, memory_context_path, memory_refs_path, references_path,
    routed_failure, routed_failure_message, ProjectIdentity, RemoteClient, ServerConn,
};
use devctx::central::{adopt_as_machine_default, Adoption, CentralConfig};
use devctx::cli::{choose_model, groups_in_use, models_in_use, registered_targets};
use devctx::config::{config_candidates, detect_default_branch, main_worktree, Embeddings, Offline};
use devctx::dirs::DirEnv;
use devctx::git::{GitOutcome, GitRepo};
use devctx::hooks::hooks_dir;
use devctx::mcp_state::resolve_project_root;
use devctx::models::local_dir;
use devctx::remote::{central_request_failure, request_failure};

fn names(v: &[&str]) -> Vec<String> {
    v.iter().map(|s| s.to_string()).collect()
}

#[test]
fn models_in_use_are_listed_commonest_first() {
    let used = models_in_use(&names(&["minilm-l6", "ml-granite", "", "ml-granite", "bge-small", "minilm-l6", "ml-granite"]));
    assert_eq!(
        used,
        vec![("ml-granite".to_string(), 3), ("minilm-l6".to_string(), 2), ("bge-small".to_string(), 1)]
    );
}

#[test]
fn equally_used_groups_are_listed_by_name() {
    let used = groups_in_use(&names(&["zeta", "acme", "", "beta", "acme", "zeta"]));
    assert_eq!(used, vec![("acme".to_string(), 2), ("zeta".to_string(), 2), ("beta".to_string(), 1)]);
    assert!(groups_in_use(&names(&["", ""])).is_empty(), "projects in no group are not counted");
}

#[test]
fn re_index_targets_come_from_the_registry() {
    let registered = vec![
        ("api".to_string(), "/w/api".to_string()),
        ("web".to_string(), "/w/web".to_string()),
    ];
    assert_eq!(registered_targets(true, &Vec::new(), &registered), Ok(registered.clone()));
    assert_eq!(
        registered_targets(false, &names(&["web"]), &registered),
        Ok(vec![("web".to_string(), "/w/web".to_string())])
    );
    assert_eq!(
        registered_targets(false, &names(&["web", "ghost", "nope"]), &registered),
        Err("no registered project named `ghost`".to_string())
    );
}

#[test]
fn choosing_a_model_refuses_what_cannot_work() {
    let base = Embeddings { offline: Offline::True, ..Embeddings::default() };
    let unknown = choose_model("nope", &base, None).unwrap_err();
    assert_eq!(unknown, "unknown model `nope`; run `devctx models` to see what there is");

    let builtin = choose_model("bge-small", &base, Some("/ignored")).unwrap();
    assert_eq!((builtin.provider.as_str(), builtin.model.as_str(), builtin.model_dir.as_str()), ("local", "bge-small", ""));
    assert_eq!(builtin.offline, Offline::True);

    let missing = choose_model("ml-granite", &base, None).unwrap_err();
    assert!(missing.contains("Run `devctx models download ml-granite` first."));
    let ready = choose_model("ml-granite", &base, Some("/m/ml-granite")).unwrap();
    assert_eq!(ready.model_dir, "/m/ml-granite");
}

#[test]
fn adopting_a_model_leaves_existing_memories_where_they_are() {
    let granite = Embeddings { model: "ml-granite".into(), model_dir: "/m/g".into(), ..Embeddings::default() };

    let mut cfg = CentralConfig::default();
    assert_eq!(adopt_as_machine_default(&mut cfg, &granite, true), Adoption::KeptExisting);
    assert_eq!(cfg.defaults.embeddings.model, "ml-granite");
    assert_eq!(cfg.memory.model, "minilm-l6", "memories already embedded keep their space");

    let mut cfg = CentralConfig::default();
    assert_eq!(adopt_as_machine_default(&mut cfg, &granite, false), Adoption::Repointed);
    assert_eq!((cfg.memory.model.as_str(), cfg.memory.model_dir.as_str()), ("ml-granite", "/m/g"));

    let mut cfg = CentralConfig::default();
    let same = Embeddings::default();
    assert_eq!(adopt_as_machine_default(&mut cfg, &same, true), Adoption::AlreadyShared);
}

#[test]
fn a_downloaded_model_needs_weights_and_a_tokenizer() {
    let env = DirEnv {
        devctx_home: Some("/d".into()),
        model_cache: None,
        xdg_data_home: None,
        xdg_config_home: None,
        home: None,
        userprofile: None,
    };
    let full = names(&["onnx/model.onnx", "tokenizer.json", "config.json"]);
    assert_eq!(local_dir(&env, "ml-granite", &full).as_deref(), Some("/d/models/ml-granite"));
    assert_eq!(local_dir(&env, "ml-granite", &names(&["tokenizer.json"])), None);
    assert_eq!(local_dir(&env, "ml-granite", &names(&["onnx/model_quint8_avx2.onnx"])), None);
    let nowhere = DirEnv { devctx_home: None, ..env };
    assert_eq!(local_dir(&nowhere, "ml-granite", &full), None);
}

#[test]
fn the_config_is_looked_for_upwards() {
    assert_eq!(
        config_candidates("/a/b"),
        names(&["/a/b/.devctx/config.yaml", "/a/.devctx/config.yaml", "/.devctx/config.yaml"])
    );
    assert_eq!(config_candidates("/"), names(&["/.devctx/config.yaml"]));
}

#[test]
fn a_linked_worktree_leads_to_its_main_checkout() {
    assert_eq!(main_worktree(Some("/src/main/.git\n")).as_deref(), Some("/src/main"));
    assert_eq!(main_worktree(Some(".git\n")), None, "the main worktree answers relatively");
    assert_eq!(main_worktree(None), None);
    assert_eq!(detect_default_branch(true, true), Some("main"));
    assert_eq!(detect_default_branch(false, true), Some("master"));
    assert_eq!(detect_default_branch(false, false), None);
}

#[test]
fn hooks_live_where_git_says() {
    assert_eq!(hooks_dir("/r", Some(".git/hooks\n")), Ok("/r/.git/hooks".to_string()));
    assert_eq!(hooks_dir("/r/wt", Some("/r/.git/hooks\n")), Ok("/r/.git/hooks".to_string()));
    assert_eq!(hooks_dir("/tmp/x", None), Err("/tmp/x is not a git repository".to_string()));
}

#[test]
fn an_empty_commit_never_exists() {
    let repo = repo_at("/r");
    assert!(!repo.commit_exists("", true));
    assert!(repo.commit_exists("abc123", true));
    assert!(!repo.commit_exists("abc123", false));
}

#[test]
fn a_project_argument_is_a_path_or_a_registered_name() {
    let nothing: Result<Option<String>, String> = Ok(None);
    assert_eq!(resolve_project_root("~/code/api", Some("/home/u"), &nothing), Ok("/home/u/code/api".to_string()));
    assert_eq!(resolve_project_root(".", None, &nothing), Ok(".".to_string()));
    assert_eq!(resolve_project_root("api", None, &Ok(Some("/w/api".into()))), Ok("/w/api".to_string()));
    assert_eq!(resolve_project_root("api", None, &nothing), Err("no path recorded for `api`".to_string()));
    assert_eq!(resolve_project_root("api", None, &Err("offline".into())), Err("api: offline".to_string()));
}

#[test]
fn the_gate_lets_health_through_and_checks_the_bearer() {
    assert!(carries_bearer("Bearer s3cret", "s3cret"));
    assert!(!carries_bearer("Bearer s3cret2", "s3cret"));
    assert!(!carries_bearer("bearer s3cret", "s3cret"));
    assert!(central_admits("/health", Some("t"), None));
    assert!(!central_admits("/projects", Some("t"), None));
    assert!(central_admits("/projects", Some("t"), Some("Bearer t")));
    assert!(central_admits("/projects", None, None), "no token configured means no gate");
    assert!(project_admits("/", Some("t"), None));
    assert!(project_admits("/assets/app.js", Some("t"), None));
    assert!(!project_admits("/search", Some("t"), Some("Bearer x")));
    assert!(!central_admits("/", Some("t"), None), "the central daemon has no dashboard");
    assert!(counts_as_activity("/search"));
    assert!(!counts_as_activity("/health"));
}

#[test]
fn only_projects_whose_head_moved_are_swept() {
    let projects = vec![
        ("a".to_string(), "/w/a".to_string(), "c1".to_string()),
        ("b".to_string(), "/w/b".to_string(), "c2".to_string()),
        ("c".to_string(), "/w/c".to_string(), "c3".to_string()),
    ];
    let heads = vec![Some("c1".to_string()), Some("c9".to_string()), None];
    assert_eq!(stale_projects(&projects, &heads), vec![("b".to_string(), "/w/b".to_string())]);
}

#[test]
fn a_failed_request_reports_the_servers_own_words() {
    assert_eq!(request_failure(500, r#"{"error":"  disk full  "}"#), "disk full");
    assert_eq!(request_failure(502, "bad gateway"), "bad gateway");
    assert_eq!(request_failure(503, "   "), "the server returned status 503");
    assert_eq!(routed_failure(500, r#"{"error":"no such symbol"}"#), "no such symbol");
    assert_eq!(routed_failure(404, ""), "server returned status 404");
    assert_eq!(routed_failure(400, r#"{"other":1}"#), r#"{"other":1}"#);
    assert_eq!(routed_failure_message(500, "ignored", Some("kept".into())), "kept");
    assert_eq!(central_request_failure(r#"{"error":"no such project"}"#), "no such project");
    assert_eq!(central_request_failure("<html>"), "central store request failed");
}

#[test]
fn a_routed_session_addresses_its_server() {
    let c = RemoteClient::from_conn(ServerConn { base: "http://127.0.0.1:20111".into(), token: Some("t".into()) });
    assert_eq!(c.url("/status"), "http://127.0.0.1:20111/status");
    assert_eq!(c.authorization().as_deref(), Some("Bearer t"));
    let open = RemoteClient::from_conn(ServerConn { base: "http://h".into(), token: None });
    assert_eq!(open.authorization(), None);
    let id = ProjectIdentity { name: "api".into(), group: "ACME".into() };
    assert_eq!(id.clone().group, "ACME");
    assert_eq!(memory_context_path("group", 5), "/memory/context?scope=group&limit=5");
    assert_eq!(memories_by_symbol_path("a b", 3), "/memories/by-symbol/a%20b?limit=3");
    assert_eq!(memories_by_file_path("src/x.rs", 2), "/memories/by-file/src%2Fx.rs?limit=2");
    assert_eq!(memory_refs_path("m-1"), "/memory/m-1/refs");
    assert_eq!(references_path("Foo::bar"), "/references/Foo%3A%3Abar");
}

#[test]
fn unused_models_are_kept_for_a_configurable_while() {
    assert_eq!(model_idle_secs(None), Some(DEFAULT_MODEL_IDLE_SECS));
    assert_eq!(model_idle_secs(Some("60")), Some(60));
    assert_eq!(model_idle_secs(Some("0")), None, "zero keeps models for the life of the process");
    assert_eq!(model_idle_secs(Some("soon")), Some(300));
    assert_eq!(parse_u64("18446744073709551615"), Some(u64::MAX));
    assert_eq!(parse_u64("18446744073709551616"), None);
    assert_eq!(parse_u64("+7"), Some(7));
    assert_eq!(parse_u64("-7"), None);
}

fn repo_at(top: &str) -> GitRepo {
    GitRepo::open(GitOutcome::Ran { success: true, stdout: top.into(), stderr: String::new() }).unwrap()
}
