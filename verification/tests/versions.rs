use devctx::update_check::{cached_answer, latest_tag, read_cache, CHECK_EVERY_SECS};
use devctx::update_check::{cache_is_fresh, newer};

#[test]
fn versions_compare_as_numbers() {
    assert_eq!(newer("v0.1.2", "0.1.1").as_deref(), Some("v0.1.2"));
    assert_eq!(newer("v0.1.10", "0.1.9").as_deref(), Some("v0.1.10"));
    assert_eq!(newer("v0.2.0", "0.1.99").as_deref(), Some("v0.2.0"));
    assert!(newer("v0.1.1", "0.1.1").is_none());
    assert!(newer("v0.1.0", "0.1.1").is_none(), "never suggest downgrading");
    assert!(newer("not-a-version", "0.1.1").is_none());
}

#[test]
fn a_longer_version_with_the_same_prefix_is_newer() {
    assert_eq!(newer("0.1.1.1", "0.1.1").as_deref(), Some("0.1.1.1"));
    assert!(newer("0.1", "0.1.0").is_none());
    assert!(newer("99999999999999999999999.0", "1.0").is_none(), "an overflowing part reads as zero");
}

#[test]
fn a_check_is_trusted_for_a_day() {
    assert!(cache_is_fresh(1_000, 1_000));
    assert!(cache_is_fresh(1_000 + 86_399, 1_000));
    assert!(!cache_is_fresh(1_000 + 86_400, 1_000));
    assert!(cache_is_fresh(5, 1_000), "a clock that went back counts as no time");
}

#[test]
fn the_daily_check_is_answered_from_its_cache() {
    let cache = read_cache(r#"{"checked_at": 1000, "latest": "v0.2.0"}"#);
    assert_eq!(cache, Some((1000, "v0.2.0".to_string())));
    assert_eq!(read_cache(r#"{"latest": "v0.2.0"}"#), None);
    assert_eq!(read_cache("not json"), None);
    assert_eq!(cached_answer(1500, &cache, "0.1.0"), Some(Some("v0.2.0".to_string())));
    assert_eq!(cached_answer(1500, &cache, "0.2.0"), Some(None));
    assert_eq!(cached_answer(1000 + CHECK_EVERY_SECS, &cache, "0.1.0"), None, "a day old means ask again");
    assert_eq!(cached_answer(10, &cache, "0.1.0"), Some(Some("v0.2.0".to_string())), "a clock that went back is no time");
    assert_eq!(cached_answer(1500, &None, "0.1.0"), None);
    assert_eq!(latest_tag(r#"{"tag_name":"v1.2.3","name":"x"}"#).as_deref(), Some("v1.2.3"));
    assert_eq!(latest_tag(r#"{"message":"rate limited"}"#), None);
}
