use devctx::config::ProjectConfig;
use devctx::remote::{
    auto_addr, central_failure_message, failure_message, impact_path, is_own_advertisement, read_symbol_path,
    routes_path, serve_file, Remote, ServeInfo,
};

#[test]
fn the_discovery_file_sits_beside_the_database() {
    let mut cfg = ProjectConfig::default();
    cfg.storage.db_path = "/r/.devctx/state/index.duckdb".into();
    assert_eq!(serve_file(&cfg), "/r/.devctx/state/serve.json");
    cfg.storage.db_path = "index.duckdb".into();
    assert_eq!(serve_file(&cfg), "serve.json");
}

#[test]
fn a_losing_server_does_not_delete_the_winners_advertisement() {
    assert!(!is_own_advertisement(Some(41), 42));
    assert!(is_own_advertisement(Some(42), 42));
    assert!(!is_own_advertisement(None, 42));
}

#[test]
fn each_project_gets_its_own_port() {
    let mut cfg = ProjectConfig::default();
    cfg.project.path = "/src/api".into();
    let a = auto_addr(&cfg);
    let port: u32 = a.strip_prefix("127.0.0.1:").unwrap().parse().unwrap();
    assert!((20000..60000).contains(&port), "{a}");
}

#[test]
fn requests_are_addressed_and_authorised() {
    let info = ServeInfo { addr: "127.0.0.1:9".into(), token: Some("t0k".into()), pid: None };
    let r = Remote::from_info(&info);
    assert_eq!(r.url("/status"), "http://127.0.0.1:9/status");
    assert_eq!(r.authorization().as_deref(), Some("Bearer t0k"));
    let (base, token) = r.into_parts();
    assert_eq!((base.as_str(), token.as_deref()), ("http://127.0.0.1:9", Some("t0k")));
}

#[test]
fn request_paths_encode_their_arguments() {
    assert_eq!(impact_path("a::b", 2), "/impact/a%3A%3Ab?depth=2");
    assert_eq!(read_symbol_path("Foo", 5), "/symbol/Foo?limit=5");
    assert_eq!(routes_path(None, None), "/routes");
    assert_eq!(routes_path(Some("GET"), None), "/routes?method=GET");
    assert_eq!(routes_path(None, Some("/a")), "/routes?path=%2Fa");
    assert_eq!(routes_path(Some("GET"), Some("/a")), "/routes?method=GET&path=%2Fa");
}

#[test]
fn a_failure_surfaces_the_servers_own_message() {
    assert_eq!(failure_message(500, "{\"error\":\" db locked \"}", Some(" db locked ".into())), "db locked");
    assert_eq!(failure_message(502, "bad gateway", None), "bad gateway");
    assert_eq!(failure_message(500, "  ", None), "the server returned status 500");
    assert_eq!(central_failure_message(None), "central store request failed");
}
