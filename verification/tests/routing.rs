use devctx::routing::{
    attribution, recall_route, remember_scope, route_call, HintCache, RecallRoute, Route, SessionBinding,
    HINT_CACHE_CAP,
};

fn group() -> SessionBinding {
    SessionBinding::Group {
        name: "ACME".into(),
        default_root: "/ws/api".into(),
        default_name: "api".into(),
    }
}

#[test]
fn a_resolved_hint_decides_the_call_whatever_the_binding() {
    let hint = Some(("/ws/web", "web"));
    let expected = Route::Hinted {
        root: "/ws/web".into(),
        name: "web".into(),
    };
    assert_eq!(route_call(&SessionBinding::Unbound, hint), expected);
    assert_eq!(route_call(&SessionBinding::Project("/ws/api".into()), hint), expected);
    assert_eq!(route_call(&group(), hint), expected);
}

#[test]
fn without_a_hint_the_binding_decides() {
    assert_eq!(route_call(&SessionBinding::Unbound, None), Route::Unbound);
    assert_eq!(
        route_call(&SessionBinding::Project("/ws/api".into()), None),
        Route::Bound {
            root: "/ws/api".into()
        }
    );
}

#[test]
fn a_group_names_the_member_nobody_chose() {
    assert_eq!(
        route_call(&group(), None),
        Route::Defaulted {
            root: "/ws/api".into(),
            name: "api".into(),
        }
    );
}

#[test]
fn the_hint_cache_gives_back_what_was_put_in() {
    let mut cache: HintCache<u32> = HintCache::new();
    assert_eq!(cache.get("/ws/a"), None);
    cache.insert("/ws/a".into(), 1);
    cache.insert("/ws/b".into(), 2);
    assert_eq!(cache.get("/ws/a"), Some(&1));
    assert_eq!(cache.get("/ws/b"), Some(&2));
    assert_eq!(cache.get("/ws/c"), None);
}

#[test]
fn inserting_a_cached_root_replaces_its_value() {
    let mut cache: HintCache<u32> = HintCache::new();
    cache.insert("/ws/a".into(), 1);
    cache.insert("/ws/b".into(), 2);
    cache.insert("/ws/a".into(), 7);
    assert_eq!(cache.get("/ws/a"), Some(&7));
    assert_eq!(cache.get("/ws/b"), Some(&2));
}

#[test]
fn a_full_hint_cache_is_emptied_before_the_next_root() {
    let mut cache: HintCache<usize> = HintCache::new();
    for i in 0..HINT_CACHE_CAP {
        cache.insert(format!("/ws/p{}", i), i);
    }
    for i in 0..HINT_CACHE_CAP {
        assert_eq!(cache.get(&format!("/ws/p{}", i)), Some(&i));
    }
    cache.insert("/ws/new".into(), 99);
    assert_eq!(cache.get("/ws/new"), Some(&99));
    for i in 0..HINT_CACHE_CAP {
        assert_eq!(cache.get(&format!("/ws/p{}", i)), None);
    }
}

#[test]
fn the_hint_cache_keeps_at_most_eight_roots() {
    assert_eq!(HINT_CACHE_CAP, 8);
}

const GROUP_LOCAL: &str = "This session is bound to group `ACME`, not to one repository, so `scope: local` has no store to write to. Either name the project with `project` (a registered name, or a path inside it), or use `scope: group` to record this for the whole product.";

#[test]
fn a_group_binding_implies_the_group_scope() {
    assert_eq!(remember_scope(&group(), None, false), Ok(("group".to_string(), true)));
    assert_eq!(remember_scope(&group(), Some("group"), false), Ok(("group".to_string(), false)));
    assert_eq!(remember_scope(&group(), Some("global"), false), Ok(("global".to_string(), false)));
}

#[test]
fn a_local_memory_in_a_group_binding_needs_a_project() {
    assert_eq!(remember_scope(&group(), Some("local"), false), Err(GROUP_LOCAL.to_string()));
    assert_eq!(remember_scope(&group(), Some("local"), true), Ok(("local".to_string(), false)));
}

#[test]
fn outside_a_group_memories_default_to_local() {
    let project = SessionBinding::Project("/ws/api".into());
    assert_eq!(remember_scope(&project, None, false), Ok(("local".to_string(), false)));
    assert_eq!(remember_scope(&SessionBinding::Unbound, None, false), Ok(("local".to_string(), false)));
    assert_eq!(remember_scope(&project, Some("group"), false), Ok(("group".to_string(), false)));
}

#[test]
fn a_group_memory_is_the_groups_unless_a_project_was_named() {
    assert_eq!(attribution(&group(), None), (Some("ACME".to_string()), Some("ACME".to_string())));
    assert_eq!(attribution(&group(), Some("web")), (None, Some("web".to_string())));
    let project = SessionBinding::Project("/ws/api".into());
    assert_eq!(attribution(&project, None), (None, None));
    assert_eq!(attribution(&project, Some("web")), (None, Some("web".to_string())));
}

#[test]
fn an_unbound_recall_reaches_the_global_tier() {
    assert_eq!(recall_route(&SessionBinding::Unbound, None), RecallRoute::Global);
    assert_eq!(recall_route(&SessionBinding::Unbound, Some("all")), RecallRoute::Global);
    assert_eq!(recall_route(&SessionBinding::Unbound, Some("local")), RecallRoute::NeedsBinding);
}

#[test]
fn a_bound_recall_searches_every_tier_unless_told() {
    assert_eq!(recall_route(&group(), None), RecallRoute::Group { scope: "all".into() });
    assert_eq!(
        recall_route(&SessionBinding::Project("/ws/api".into()), Some("local")),
        RecallRoute::Bound { scope: "local".into() }
    );
    assert_eq!(
        recall_route(&SessionBinding::Project("/ws/api".into()), None),
        RecallRoute::Bound { scope: "all".into() }
    );
}
