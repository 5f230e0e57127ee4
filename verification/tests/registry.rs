use devctx::registry::{api_key_variable, plan_provider, EmbedError, ProviderPlan};
use devctx::config::{Embeddings, Offline};
use devctx::registry::{
    dimension_for, find_local, local_models, openai_dimension, openai_model_id, voyage_dimension, voyage_model_id,
    EmbedSettings, DEFAULT_LOCAL_MODEL,
};

#[test]
fn registry_keys_are_unique() {
    let models = local_models();
    for (i, a) in models.iter().enumerate() {
        for b in &models[i + 1..] {
            assert_ne!(a.key, b.key, "duplicate key {}", a.key);
        }
    }
}

#[test]
fn default_model_exists_and_is_384() {
    let m = find_local(DEFAULT_LOCAL_MODEL).unwrap();
    assert_eq!(m.dimension, 384);
    assert_eq!(m.builtin, Some("AllMiniLML6V2"));
}

#[test]
fn granite_is_user_defined() {
    let g = find_local("ml-granite").unwrap();
    assert_eq!(g.dimension, 384);
    assert_eq!(g.builtin, None);
    assert_eq!(g.hf_repo, "ibm-granite/granite-embedding-97m-multilingual-r2");
    let lg = find_local("ml-granite-lg").unwrap();
    assert_eq!(lg.dimension, 768);
    assert_eq!(lg.builtin, None);
}

#[test]
fn ml_mpnet_has_token_cap() {
    assert_eq!(find_local("ml-mpnet").unwrap().max_input_tokens, Some(128));
}

#[test]
fn api_dimensions() {
    assert_eq!(openai_dimension("small"), Some(1536));
    assert_eq!(openai_dimension("large"), Some(3072));
    assert_eq!(openai_model_id("large"), "text-embedding-3-large");
    assert_eq!(voyage_dimension("code-3"), Some(1024));
    assert_eq!(voyage_model_id("3-lite"), "voyage-3-lite");
}

#[test]
fn unknown_keys_fall_back() {
    assert!(find_local("no-such-model").is_none());
    assert_eq!(openai_dimension("huge"), None);
    assert_eq!(openai_model_id("huge"), "text-embedding-3-small");
    assert_eq!(voyage_model_id("huge"), "voyage-code-3");
}

#[test]
fn dimensions_resolve_without_loading_a_model() {
    assert_eq!(dimension_for("local", "bge-base", None), 768);
    assert_eq!(dimension_for("local", "unknown", None), 384);
    assert_eq!(dimension_for("openai", "unknown", None), 1536);
    assert_eq!(dimension_for("voyage", "3-lite", None), 512);
    assert_eq!(dimension_for("custom", "x", Some(1000)), 1000);
    assert_eq!(dimension_for("custom", "x", None), 384);
}

#[test]
fn settings_take_the_config_model_dir_over_the_environment() {
    let mut e = Embeddings::default();
    e.offline = Offline::True;
    let s = EmbedSettings::from_config(&e, &None, &Some("256".into()), &Some("/env/model".into()));
    assert!(s.offline);
    assert_eq!(s.custom_dimension, Some(256));
    assert_eq!(s.model_dir.as_deref(), Some("/env/model"));
    e.model_dir = "/cfg/model".into();
    let s = EmbedSettings::from_config(&e, &Some("http://x".into()), &Some("abc".into()), &Some("/env/model".into()));
    assert_eq!(s.model_dir.as_deref(), Some("/cfg/model"));
    assert_eq!(s.custom_dimension, None, "an unparseable dimension is no dimension");
    assert_eq!(s.endpoint.as_deref(), Some("http://x"));
}

#[test]
fn openai_provider_selected_with_key() {
    let s = EmbedSettings {
        provider: "openai".into(),
        model: "small".into(),
        api_key: Some("sk-test".into()),
        ..Default::default()
    };
    match plan_provider(&s, &None).unwrap() {
        ProviderPlan::OpenAi { model_id, dimension, key } => {
            assert_eq!(dimension, 1536);
            assert_eq!(model_id, "text-embedding-3-small");
            assert_eq!(key, "sk-test");
        }
        other => panic!("expected OpenAI, got {other:?}"),
    }
}

#[test]
fn openai_without_key_errors() {
    let s = EmbedSettings {
        provider: "openai".into(),
        model: "small".into(),
        ..Default::default()
    };
    // No ambient key: the variable's value is what the caller read, here none.
    assert!(matches!(plan_provider(&s, &None), Err(EmbedError::MissingConfig(_))));
    assert!(matches!(plan_provider(&s, &Some(String::new())), Err(EmbedError::MissingConfig(_))), "an empty key is no key");
    assert!(matches!(plan_provider(&s, &Some("sk-env".into())), Ok(ProviderPlan::OpenAi { .. })));
    assert_eq!(api_key_variable("openai"), Some("OPENAI_API_KEY"));
    assert_eq!(api_key_variable("local"), None);
}

#[test]
fn unknown_provider_errors() {
    let s = EmbedSettings {
        provider: "banana".into(),
        ..Default::default()
    };
    assert!(matches!(plan_provider(&s, &None), Err(EmbedError::UnknownProvider(_))));
}

#[test]
fn custom_requires_endpoint_and_dimension() {
    let s = EmbedSettings {
        provider: "custom".into(),
        model: "my-model".into(),
        ..Default::default()
    };
    assert!(matches!(plan_provider(&s, &None), Err(EmbedError::MissingConfig(_))));
    let ready = EmbedSettings { endpoint: Some("http://e".into()), custom_dimension: Some(512), ..s };
    assert_eq!(
        plan_provider(&ready, &None),
        Ok(ProviderPlan::Custom { endpoint: "http://e".into(), model: "my-model".into(), dimension: 512, key: String::new() })
    );
}

#[test]
fn the_local_provider_needs_nothing_and_unknown_api_models_are_refused() {
    assert_eq!(plan_provider(&EmbedSettings::default(), &None), Ok(ProviderPlan::Local));
    let s = EmbedSettings { provider: "voyage".into(), model: "nope".into(), api_key: Some("k".into()), ..Default::default() };
    assert_eq!(plan_provider(&s, &None), Err(EmbedError::UnknownModel("nope".into(), "voyage".into())));
}
