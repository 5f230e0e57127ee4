use std::path::PathBuf;

use devctx::config::{Indexing, Language, Offline, Project, ProjectConfig, Storage};
use devctx::dirs::{config_dir, data_dir, model_cache_dir, DirEnv};

#[test]
fn the_first_branch_is_the_default_and_empty_means_whatever_is_checked_out() {
    let none = Indexing::default();
    assert_eq!(none.default_branch(), None);
    assert!(none.tracks("anything"), "an unset list must not exclude");

    let set = Indexing { branches: vec!["main".into(), "development".into()], ..Default::default() };
    assert_eq!(set.default_branch(), Some("main"));
    assert!(set.tracks("development"));
    assert!(!set.tracks("feature/x"), "an untracked branch is prunable");
}

#[test]
fn new_projects_default_to_an_indexed_store() {
    let s = Storage::default();
    assert!(s.hnsw, "HNSW should be on by default");
    assert_eq!(s.metric, "cosine", "the metric must name itself");
}

#[test]
fn defaults_are_sensible() {
    let cfg = ProjectConfig::default();
    assert_eq!(cfg.embeddings.provider, "local");
    assert_eq!(cfg.embeddings.model, "minilm-l6");
    assert_eq!(cfg.embeddings.offline, Offline::Auto);
    assert_eq!(cfg.language, Language::En);
    assert!(cfg.indexing.exclude.is_empty());
    assert!(!cfg.reranking.enabled);
    assert_eq!(cfg.summarization.target_tokens, 200);
}

#[test]
fn db_path_falls_back_to_state_dir() {
    let cfg = ProjectConfig { state_dir: "/var/state".to_string(), ..Default::default() };
    assert_eq!(PathBuf::from(cfg.db_path()), PathBuf::from("/var/state/index.duckdb"));
}

#[test]
fn db_path_falls_back_to_project_path() {
    let cfg = ProjectConfig {
        project: Project { path: "/home/u/proj".to_string(), ..Default::default() },
        ..Default::default()
    };
    assert_eq!(PathBuf::from(cfg.db_path()), PathBuf::from("/home/u/proj/.devctx/state/index.duckdb"));
}

#[test]
fn an_explicit_db_path_wins() {
    let mut cfg = ProjectConfig::default();
    cfg.storage.db_path = "/tmp/custom.duckdb".into();
    cfg.state_dir = "/var/state".into();
    assert_eq!(cfg.db_path(), "/tmp/custom.duckdb");
    assert_eq!(ProjectConfig::default().db_path(), "./.devctx/state/index.duckdb");
}

fn env_with_home(home: &str) -> DirEnv {
    DirEnv {
        devctx_home: None,
        model_cache: None,
        xdg_data_home: None,
        xdg_config_home: None,
        home: Some(home.to_string()),
        userprofile: None,
    }
}

#[test]
fn the_model_cache_hangs_off_the_data_directory() {
    let env = env_with_home("/home/u");
    let data = data_dir(&env).expect("a home in the test environment");
    let models = model_cache_dir(&env).expect("a model cache");
    assert_eq!(PathBuf::from(&models), PathBuf::from(&data).join("models"));
    assert!(PathBuf::from(&models).is_absolute(), "a relative cache would land in the working directory: {models:?}");
}

#[test]
fn the_data_directory_follows_the_environment() {
    let mut env = env_with_home("/home/u");
    assert_eq!(data_dir(&env).as_deref(), Some("/home/u/.local/share/devctx"));
    assert_eq!(config_dir(&env).as_deref(), Some("/home/u/.config/devctx"));
    env.xdg_data_home = Some("/xdg".into());
    assert_eq!(data_dir(&env).as_deref(), Some("/xdg/devctx"));
    env.devctx_home = Some("/opt/devctx".into());
    assert_eq!(data_dir(&env).as_deref(), Some("/opt/devctx"));
    assert_eq!(config_dir(&env).as_deref(), Some("/opt/devctx"));
    env.model_cache = Some("/big/models".into());
    assert_eq!(model_cache_dir(&env).as_deref(), Some("/big/models"));
    let nobody = DirEnv { home: Some(String::new()), ..env_with_home("") };
    assert_eq!(data_dir(&nobody), None);
}
