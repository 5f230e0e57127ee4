use devctx::mcp_state::{release_idle_models, release_stale};
use std::sync::Arc;
use std::time::{Duration, Instant};

use devctx::mcp_state::{
    is_synthetic, looks_like_path, parse_mode, shellexpand, short_label, slice_lines, unbound_help, Cached,
    IndexProgress, SearchMode,
};

#[test]
fn handing_out_a_cached_model_resets_its_clock() {
    let mut cached = Cached {
        value: Arc::new(7u32),
        last_used: Instant::now().checked_sub(Duration::from_secs(600)).expect("an instant ten minutes ago"),
    };
    assert!(cached.last_used.elapsed() >= Duration::from_secs(600));

    let handed_out = cached.touch();

    assert_eq!(*handed_out, 7, "the caller still gets the model");
    assert!(cached.last_used.elapsed() < Duration::from_secs(1), "and it no longer looks idle");
}

#[test]
fn slice_lines_ranges() {
    let c = "a\nb\nc\nd\ne";
    assert_eq!(slice_lines(c, None, None), c);
    assert_eq!(slice_lines(c, Some(2), Some(4)), "b\nc\nd");
    assert_eq!(slice_lines(c, Some(4), None), "d\ne");
    assert_eq!(slice_lines(c, None, Some(2)), "a\nb");
    assert_eq!(slice_lines(c, Some(10), Some(20)), "");
}

#[test]
fn short_label_and_synthetic() {
    assert_eq!(short_label("crate::mod::func"), "func");
    assert_eq!(short_label("pkg/Class"), "Class");
    assert_eq!(short_label("plain"), "plain");
    assert!(is_synthetic("mod::<unknown>"));
    assert!(is_synthetic("<module>"));
    assert!(!is_synthetic("mod::real"));
}

#[test]
fn search_modes_ignore_case_and_default_to_vector() {
    assert_eq!(parse_mode(Some("KeyWord")), SearchMode::Keyword);
    assert_eq!(parse_mode(Some("hybrid")), SearchMode::Hybrid);
    assert_eq!(parse_mode(Some("fuzzy")), SearchMode::Vector);
    assert_eq!(parse_mode(None), SearchMode::Vector);
}

#[test]
fn progress_counts_files_started() {
    let mut p = IndexProgress::default();
    p.start(3);
    p.file("a.rs");
    p.file("b.rs");
    assert!(p.running);
    assert_eq!((p.total, p.done, p.file.as_str()), (3, 2, "b.rs"));
    p.finish();
    assert!(!p.running);
    assert_eq!(p.done, 2, "the final counts stay for the last poll");
}

#[test]
fn a_project_is_a_path_only_when_it_looks_like_one() {
    assert!(looks_like_path("/abs"));
    assert!(looks_like_path("rel/dir"));
    assert!(looks_like_path("."));
    assert!(!looks_like_path("api"));
    assert_eq!(shellexpand("~/src/api", Some("/home/u")), "/home/u/src/api");
    assert_eq!(shellexpand("~/src/api", None), "~/src/api");
    assert_eq!(shellexpand("api", Some("/home/u")), "api");
}

#[test]
fn an_unbound_server_lists_what_it_could_bind_to() {
    let rows = Ok(vec![(Some("api".to_string()), Some("/src/api".to_string())), (None, None), (Some("web".to_string()), None)]);
    let h = unbound_help("/tmp", &rows);
    assert!(h.contains("started in /tmp, which"));
    assert!(h.contains("  · api — /src/api\n  · web — ?"));
    let h = unbound_help("/tmp", &Ok(vec![]));
    assert!(h.contains("(none registered yet"));
    let h = unbound_help("/tmp", &Err("down".to_string()));
    assert!(h.contains("(the registry could not be read: down)"));
}

#[test]
fn idle_models_are_released_and_named() {
    let mut embedder = Some(Cached { value: 1u8, last_used: Instant::now() });
    let mut reranker = Some(Cached { value: 2u8, last_used: Instant::now() });
    let kept = release_idle_models(&mut embedder, &mut reranker, Duration::from_secs(3600).as_nanos());
    assert!(kept.is_empty());
    assert!(embedder.is_some() && reranker.is_some());
    let released = release_idle_models(&mut embedder, &mut reranker, Duration::ZERO.as_nanos());
    assert_eq!(released, vec!["embedding model", "reranker"]);
    assert!(embedder.is_none() && reranker.is_none());
    let mut none: Option<Cached<u8>> = None;
    let mut warm = Some(Cached { value: 3u8, last_used: Instant::now() });
    assert_eq!(release_idle_models(&mut none, &mut warm, Duration::ZERO.as_nanos()), vec!["reranker"]);
}

#[test]
fn a_model_goes_once_it_has_sat_the_whole_window() {
    let now = Instant::now();
    let mut embedder = Some(Cached { value: 1u8, last_used: now });
    let mut reranker = Some(Cached { value: 2u8, last_used: now });
    assert!(release_stale(&mut embedder, &mut reranker, 299, 300, 300) == vec!["reranker"]);
    assert!(embedder.is_some() && reranker.is_none());
    assert!(release_stale(&mut embedder, &mut reranker, 300, 0, 300) == vec!["embedding model"]);
    assert!(embedder.is_none());
    assert!(release_stale(&mut embedder, &mut reranker, 1000, 1000, 300).is_empty());
}
