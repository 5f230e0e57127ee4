use devctx::central::check_dimension;
use devctx::config::Embeddings;
use devctx::central::register_decision;
use devctx::central::refresh_request;
use std::path::Path;

use devctx::central::{
    chosen_name, default_addr, dir_name, name_conflict, pick, project_config_for, registration_record, replaced_name,
    urlencode, CentralConfig, CentralError, CentralPaths, ProjectRecord, RegisterRequest,
};
use devctx::config::{ProjectConfig, Project};
use devctx::dirs::DirEnv;

#[test]
fn defaults_pin_a_384_space() {
    let cfg = CentralConfig::default();
    assert_eq!(cfg.memory.model, "minilm-l6");
    assert_eq!(cfg.memory_dimension(None), 384);
    assert_eq!(cfg.defaults.embeddings.provider, "local");
    assert!(!cfg.defaults.reranking.enabled);
}

#[test]
fn background_reindex_is_off_unless_asked_for() {
    assert_eq!(CentralConfig::default().reindex.every_seconds, 0);
    assert!(CentralConfig::default().defaults.language.is_none());
    assert!(CentralConfig::default().defaults.storage.is_none());
}

#[test]
fn a_bigger_memory_model_pins_a_bigger_space() {
    let mut cfg = CentralConfig::default();
    cfg.memory.model = "bge-base".into();
    assert_eq!(cfg.memory_dimension(None), 768);
}

#[test]
fn rooted_puts_everything_in_one_place() {
    let p = CentralPaths::rooted_at("/tmp/devctx-home");
    assert_eq!(Path::new(&p.config), Path::new("/tmp/devctx-home/config.yaml"));
    assert_eq!(Path::new(&p.db), Path::new("/tmp/devctx-home/central.duckdb"));
    assert_eq!(Path::new(&p.serve_file), Path::new("/tmp/devctx-home/serve.json"));
}

#[test]
fn resolved_paths_follow_xdg_and_need_a_home() {
    let env = DirEnv {
        devctx_home: None,
        model_cache: None,
        xdg_data_home: None,
        xdg_config_home: Some("/cfg".into()),
        home: Some("/home/u".into()),
        userprofile: None,
    };
    let p = CentralPaths::resolve(&env).unwrap();
    assert_eq!(p.dir, "/home/u/.local/share/devctx");
    assert_eq!(p.config, "/cfg/devctx/config.yaml");
    assert_eq!(p.db, "/home/u/.local/share/devctx/central.duckdb");
    let homeless = DirEnv { home: None, xdg_config_home: None, ..env };
    assert!(matches!(CentralPaths::resolve(&homeless), Err(CentralError::NoHome)));
}

#[test]
fn each_central_home_gets_its_own_port_in_the_upper_band() {
    let a = default_addr(&CentralPaths::rooted_at("/tmp/a"));
    let b = default_addr(&CentralPaths::rooted_at("/tmp/b"));
    for addr in [&a, &b] {
        let port: u32 = addr.strip_prefix("127.0.0.1:").unwrap().parse().unwrap();
        assert!((60000..65000).contains(&port), "{addr}");
    }
    assert_eq!(a, default_addr(&CentralPaths::rooted_at("/tmp/a")));
}

#[test]
fn path_segments_are_percent_encoded() {
    assert_eq!(urlencode("a b/c"), "a%20b%2Fc");
    assert_eq!(urlencode("Az09-_.~"), "Az09-_.~");
    assert_eq!(urlencode("ñ"), "%C3%B1");
}

#[test]
fn errors_explain_themselves() {
    let e = CentralError::NameTaken { name: "api".into(), path: "/src/api".into() };
    assert_eq!(e.message(), "project name `api` is already taken by /src/api; pass --name to choose another");
    let e = CentralError::DimensionMismatch { path: "/c.duckdb".into(), found: 384, expected: 768 };
    assert!(e.message().starts_with("central store at /c.duckdb holds 384-dimensional vectors"));
}

fn record(name: &str, path: &str) -> ProjectRecord {
    ProjectRecord {
        name: name.into(),
        path: path.into(),
        config_path: String::new(),
        db_path: String::new(),
        embed_provider: "local".into(),
        embed_model: "minilm-l6".into(),
        embed_dim: 384,
        description: "kept".into(),
        tags: "a,b".into(),
        last_commit: "abc".into(),
        last_branch: "main".into(),
        last_indexed_at: "100".into(),
        file_count: 3,
        symbol_count: 4,
        chunk_count: 5,
        registered_at: "1".into(),
        updated_at: "1".into(),
        active: false,
    }
}

#[test]
fn re_registering_the_same_path_updates_in_place() {
    let req = RegisterRequest { root: "/src/api".into(), now: "200".into(), ..Default::default() };
    let cfg = ProjectConfig::default();
    let prev = Some(record("api", "/src/api"));
    let r = registration_record(&req, "api".into(), "/src/api", "/src/api/.devctx/config.yaml", &cfg, None, &prev);
    assert_eq!(r.registered_at, "1", "the registration time is carried forward");
    assert_eq!((r.file_count, r.symbol_count, r.chunk_count), (3, 4, 5));
    assert_eq!(r.description, "kept");
    assert_eq!(r.updated_at, "200");
    assert!(r.active);
    assert_eq!(replaced_name("api", &prev), None);
}

#[test]
fn renaming_moves_the_row_instead_of_duplicating_it() {
    let prev = Some(record("old", "/src/api"));
    assert_eq!(replaced_name("new", &prev).as_deref(), Some("old"));
}

#[test]
fn a_name_taken_by_another_repo_is_refused() {
    let existing = Some(record("api", "/elsewhere"));
    assert!(matches!(name_conflict("api", "/src/api", &existing), Some(CentralError::NameTaken { .. })));
    assert!(name_conflict("api", "/elsewhere", &existing).is_none());
}

#[test]
fn a_relative_path_is_refused() {
    assert!(matches!(devctx::central::check_absolute("repo"), Err(CentralError::RelativePath(_))));
    assert!(devctx::central::check_absolute("/repo").is_ok());
}

#[test]
fn a_registered_name_comes_from_the_request_then_the_config_then_the_directory() {
    assert_eq!(chosen_name(&Some("x".into()), "cfg", "/a/dir"), "x");
    assert_eq!(chosen_name(&Some(String::new()), "cfg", "/a/dir"), "cfg");
    assert_eq!(chosen_name(&None, "", "/a/dir"), "dir");
    assert_eq!(dir_name("/"), "project");
    assert_eq!(pick("", Some(&"old".to_string())), "old");
    assert_eq!(pick("new", Some(&"old".to_string())), "new");
}

#[test]
fn a_seeded_config_inherits_the_central_defaults_but_no_group() {
    let mut central = CentralConfig::default();
    central.defaults.embeddings.model = "ml-granite".into();
    let cfg = project_config_for(&central, "/src/web", &None);
    assert_eq!(cfg.project.name, "web");
    assert_eq!(cfg.project.path, "/src/web");
    assert_eq!(cfg.project.group, "");
    assert_eq!(cfg.embeddings.model, "ml-granite");
    let _unused: Project = cfg.project;
}

#[test]
fn refreshing_re_registers_what_was_recorded() {
    let rec = ProjectRecord {
        name: "api".into(),
        path: "/w/api".into(),
        description: "the API".into(),
        tags: "rust,http".into(),
        ..record_for_tests()
    };
    let r = refresh_request(&rec, "2025-01-01T00:00:00Z");
    assert_eq!(r.root, "/w/api");
    assert_eq!(r.name.as_deref(), Some("api"));
    assert_eq!((r.description.as_str(), r.tags.as_str()), ("the API", "rust,http"));
    assert!(!r.create_config, "a refresh never writes a config");
    assert_eq!(r.now, "2025-01-01T00:00:00Z");
}

fn record_for_tests() -> ProjectRecord {
    ProjectRecord {
        name: String::new(),
        path: String::new(),
        config_path: String::new(),
        db_path: String::new(),
        embed_provider: String::new(),
        embed_model: String::new(),
        embed_dim: 0,
        description: String::new(),
        tags: String::new(),
        last_commit: String::new(),
        last_branch: String::new(),
        last_indexed_at: String::new(),
        file_count: 0,
        symbol_count: 0,
        chunk_count: 0,
        registered_at: String::new(),
        updated_at: String::new(),
        active: true,
    }
}

#[test]
fn registering_decides_the_row_and_what_it_replaces() {
    let req = RegisterRequest { root: "/src/api".into(), now: "300".into(), ..Default::default() };
    let cfg = ProjectConfig::default();
    let taken = Some(record("api", "/elsewhere"));
    match register_decision(&req, "api".into(), "/src/api", "/src/api/.devctx/config.yaml", &cfg, None, &taken, &None) {
        Err(CentralError::NameTaken { name, path }) => assert_eq!((name.as_str(), path.as_str()), ("api", "/elsewhere")),
        _ => panic!("a name held by another repository must be refused"),
    }
    let before = Some(record("old", "/src/api"));
    let reg = register_decision(&req, "new".into(), "/src/api", "/src/api/.devctx/config.yaml", &cfg, None, &None, &before)
        .expect("renaming is allowed");
    assert_eq!(reg.drop.as_deref(), Some("old"));
    assert_eq!(reg.record.name, "new");
    assert_eq!(reg.record.registered_at, "1");
    let fresh = register_decision(&req, "api".into(), "/src/api", "/src/api/.devctx/config.yaml", &cfg, None, &None, &None)
        .expect("a new repository registers");
    assert_eq!(fresh.drop, None);
    assert_eq!(fresh.record.registered_at, "300");
}

#[test]
fn the_central_store_refuses_vectors_of_another_width() {
    assert!(check_dimension("/c.duckdb", None, 768).is_ok(), "an empty store has no width yet");
    assert!(check_dimension("/c.duckdb", Some(384), 384).is_ok());
    match check_dimension("/c.duckdb", Some(384), 768) {
        Err(CentralError::DimensionMismatch { path, found, expected }) => {
            assert_eq!((path.as_str(), found, expected), ("/c.duckdb", 384, 768))
        }
        other => panic!("expected a mismatch, got {other:?}"),
    }
}

#[test]
fn memories_are_embedded_in_their_own_space() {
    let mut cfg = CentralConfig::default();
    let same = Embeddings::default();
    assert!(cfg.shares_vector_space(&same));
    let other = Embeddings { model: "ml-granite".into(), ..Embeddings::default() };
    assert!(!cfg.shares_vector_space(&other));

    cfg.defaults.embeddings.model_dir = "/models/default".into();
    let s = cfg.memory_embed_settings(&None, &None, &Some("/env/dir".into()));
    assert_eq!((s.provider.as_str(), s.model.as_str()), ("local", "minilm-l6"));
    assert!(!s.offline);
    assert_eq!(s.model_dir.as_deref(), Some("/models/default"), "the defaults' directory before the environment's");
    cfg.memory.model_dir = "/models/memory".into();
    let s = cfg.memory_embed_settings(&None, &None, &Some("/env/dir".into()));
    assert_eq!(s.model_dir.as_deref(), Some("/models/memory"));
    cfg.memory.model_dir = String::new();
    cfg.defaults.embeddings.model_dir = String::new();
    let s = cfg.memory_embed_settings(&None, &None, &Some("/env/dir".into()));
    assert_eq!(s.model_dir.as_deref(), Some("/env/dir"));
}
