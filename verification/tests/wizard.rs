use devctx::wizard_flow::{Interview, Question};
use devctx::config::Offline;
use devctx::init_wizard::{group_answer, number_or, offline_answer, parse_exclude, NEW_GROUP};
use devctx::config::{Embeddings, ProjectConfig, Storage};
use devctx::init_wizard::assemble_config;
use devctx::config::{Indexing, Language, Reranking};
use devctx::help_map::{language_choice, text};
use devctx::init_wizard::{summary, Answers};
use devctx::prompt_ui::{
    confirm, cursor_down, cursor_up, default_value, input_answer, on_key, select, start_cursor, typed_choice, Answer, Choice, Key,
    KeyOutcome,
};
use devctx::wizard_text::Text;

#[test]
fn the_two_languages_say_different_things() {
    let en = Text::new(Language::En);
    let es = Text::new(Language::Es);
    assert_ne!(en.storage_heading(), es.storage_heading());
    assert_ne!(en.group_question(), es.group_question());
    assert_ne!(en.rerank_on(), es.rerank_on());
    assert_ne!(en.write_question(), es.write_question());
    assert_ne!(en.tiers_with_group(), es.tiers_with_group());
}

#[test]
fn the_measurements_appear_in_both_languages() {
    for t in [Text::new(Language::En), Text::new(Language::Es)] {
        assert!(t.rerank_on().contains("180"), "{}", t.rerank_on());
        assert!(t.rerank_off().contains("1–2"), "{}", t.rerank_off());
        assert!(t.hnsw_on().contains("49"), "{}", t.hnsw_on());
        assert!(t.hnsw_off().contains("84"), "{}", t.hnsw_off());
    }
}

#[test]
fn the_language_question_is_asked_in_both() {
    assert!(Text::language_question().contains("Language"));
    assert!(Text::language_question().contains("Idioma"));
    assert!(Text::language_note().contains("summaries"));
    assert!(Text::language_note().contains("resúmenes"));
}

#[test]
fn the_map_names_the_commands_that_were_hard_to_find() {
    for lang in [Language::En, Language::Es] {
        let t = text(lang);
        for cmd in ["impact", "routes", "memories export", "projects list", "symbol", "context"] {
            assert!(t.contains(cmd), "{cmd} missing from the {lang:?} map");
        }
    }
}

#[test]
fn every_group_of_commands_is_represented() {
    let t = text(Language::En);
    for cmd in ["init", "index", "search", "remember", "recall", "tui", "mcp"] {
        assert!(t.contains(cmd), "{cmd} missing");
    }
}

#[test]
fn the_two_languages_differ() {
    assert_ne!(text(Language::En), text(Language::Es));
    assert!(text(Language::Es).contains("Comandos por tarea"));
}

#[test]
fn the_environment_override_is_honoured() {
    assert_eq!(language_choice(Some("es"), Some(Language::En)), Language::Es);
    assert_eq!(language_choice(Some("en"), Some(Language::Es)), Language::En);
    assert_eq!(language_choice(Some("fr"), Some(Language::Es)), Language::Es);
    assert_eq!(language_choice(None, None), Language::En);
}

#[test]
fn the_summary_shows_every_section() {
    let a = Answers { model: Some("ml-granite".into()), group: Some("REVFA".into()), ..Default::default() };
    let s = summary("demo", &a, "ml-granite");
    for expected in ["project", "group", "model", "index", "hnsw", "keyword", "exclude", "rerank", "summary", "memories"] {
        assert!(s.contains(expected), "`{expected}` missing from:\n{s}");
    }
}

#[test]
fn the_summary_explains_where_each_kind_of_memory_will_live() {
    let a = Answers { group: Some("REVFA".into()), ..Default::default() };
    let s = summary("demo", &a, "ml-granite");
    assert!(s.contains("REVFA"), "{s}");
    assert!(s.contains("local"), "{s}");
    assert!(s.contains("group"), "{s}");
    assert!(s.contains("global"), "{s}");
}

#[test]
fn a_project_without_a_group_says_so() {
    let s = summary("solo", &Answers::default(), "minilm-l6");
    assert!(s.contains("none"), "{s}");
    assert!(!s.contains("shared with"), "nothing is shared: {s}");
    assert!(s.contains("global"), "but it still has two tiers: {s}");
}

#[test]
fn copying_a_configuration_is_summarised_as_exactly_that() {
    let a = Answers { copy_from: Some("REVFA_BackEnd".into()), ..Default::default() };
    let s = summary("demo", &a, "ml-granite");
    assert!(s.contains("copied from `REVFA_BackEnd`"), "{s}");
    assert!(!s.contains("rerank"), "nothing here was chosen: {s}");
}

#[test]
fn the_summary_is_written_in_the_chosen_language() {
    let a = Answers { language: Some(Language::Es), group: Some("REVFA".into()), ..Default::default() };
    let s = summary("demo", &a, "ml-granite");
    assert!(s.contains("memorias"), "{s}");
    assert!(s.contains("compartidas"), "{s}");
    assert!(!s.contains("shared with"), "{s}");
}

#[test]
fn a_named_index_directory_replaces_the_default() {
    let a = Answers { state_dir: Some("/mnt/big/devctx".into()), ..Default::default() };
    let s = summary("demo", &a, "ml-granite");
    assert!(s.contains("/mnt/big/devctx"), "{s}");
    assert!(!s.contains(".devctx/state"), "only one location is shown: {s}");
}

#[test]
fn the_summary_lines_are_exact() {
    let a = Answers {
        indexing: Some(Indexing { exclude: vec!["target/**".into(), "*.log".into()], branches: vec![] }),
        reranking: Some(Reranking { enabled: true, ..Default::default() }),
        ..Default::default()
    };
    let s = summary("demo", &a, "minilm-l6");
    assert_eq!(
        s,
        "  project  demo\n  group    none\n  model    minilm-l6\n  index    ./.devctx/state/index.duckdb\n  \
         hnsw     on (cosine)\n  keyword  off\n  exclude  target/**, *.log\n  rerank   bge-base (pool 100)\n  \
         summary  extractive · 200 tokens\n  memories local → this repository · global → central store"
    );
}

#[test]
fn without_a_terminal_the_default_is_taken() {
    let choices = [Choice::new("a", "A", ""), Choice::new("b", "B", "")];
    assert_eq!(select(&choices, 1, &Answer::NoTerminal), "b");
    assert!(!confirm(false, "yes", "no", &Answer::NoTerminal));
    assert!(confirm(true, "yes", "no", &Answer::NoTerminal));
    assert_eq!(default_value(&choices, 1), "b");
}

#[test]
fn an_empty_list_answers_with_nothing_rather_than_panicking() {
    assert_eq!(select(&[], 0, &Answer::NoTerminal), "");
    assert_eq!(select(&[], 0, &Answer::Picked(0)), "");
    assert_eq!(default_value(&[], 0), "");
}

#[test]
fn a_question_answers_with_what_was_picked_or_typed() {
    let choices = [Choice::new("local", "On this machine", ""), Choice::new("openai", "OpenAI", "")];
    assert_eq!(select(&choices, 0, &Answer::Picked(1)), "openai");
    assert_eq!(select(&choices, 0, &Answer::Picked(9)), "local", "an impossible pick falls back");
    assert_eq!(select(&choices, 0, &Answer::Typed("2".into())), "openai");
    assert_eq!(select(&choices, 1, &Answer::Typed("LOCAL ".into())), "local");
    assert_eq!(select(&choices, 1, &Answer::Typed("nonsense".into())), "openai");
    assert_eq!(select(&choices, 1, &Answer::Unanswered), "openai");
}

#[test]
fn a_yes_no_question_reads_numbers_letters_and_labels() {
    assert!(confirm(false, "Yes please", "No thanks", &Answer::Picked(0)));
    assert!(!confirm(true, "Yes please", "No thanks", &Answer::Picked(1)));
    assert!(confirm(false, "Yes please", "No thanks", &Answer::Typed("1".into())));
    assert!(!confirm(true, "Yes please", "No thanks", &Answer::Typed("2".into())));
    assert!(confirm(false, "Yes please", "No thanks", &Answer::Typed(" Y ".into())));
    assert!(!confirm(true, "Yes please", "No thanks", &Answer::Typed("No thanks".into())));
    assert!(confirm(true, "Yes please", "No thanks", &Answer::Typed("maybe".into())));
}

#[test]
fn the_keys_move_choose_and_stop() {
    assert_eq!(on_key(0, 3, Key::Up), KeyOutcome::Move(2));
    assert_eq!(on_key(2, 3, Key::Down), KeyOutcome::Move(0));
    assert_eq!(on_key(1, 3, Key::Enter), KeyOutcome::Choose(1));
    assert_eq!(on_key(1, 3, Key::Esc), KeyOutcome::Cancel);
    assert_eq!(on_key(1, 3, Key::Interrupt), KeyOutcome::Quit);
    assert_eq!(on_key(1, 3, Key::Other), KeyOutcome::Move(1));
}

#[test]
fn free_text_falls_back_to_its_default() {
    assert_eq!(input_answer(Some("  acme \n"), "none"), "acme");
    assert_eq!(input_answer(Some("   \n"), "none"), "none");
    assert_eq!(input_answer(None, "none"), "none");
}

#[test]
fn the_arrows_wrap_around_the_list() {
    assert_eq!(start_cursor(7, 3), 2);
    assert_eq!(start_cursor(1, 3), 1);
    assert_eq!(cursor_up(0, 3), 2);
    assert_eq!(cursor_up(2, 3), 1);
    assert_eq!(cursor_down(2, 3), 0);
    assert_eq!(cursor_down(0, 3), 1);
}

#[test]
fn a_typed_answer_picks_by_number_value_or_label() {
    let choices = [Choice::new("cosine", "cosine", ""), Choice::new("ip", "ip (inner product)", "")];
    assert_eq!(typed_choice(&choices, 0, " 2 ").as_deref(), Some("ip"));
    assert_eq!(typed_choice(&choices, 0, "IP").as_deref(), Some("ip"));
    assert_eq!(typed_choice(&choices, 1, "ip (inner product)").as_deref(), Some("ip"));
    assert_eq!(typed_choice(&choices, 1, "9").as_deref(), Some("ip"), "out of range falls back");
    assert_eq!(typed_choice(&choices, 0, "what").as_deref(), Some("cosine"));
    assert_eq!(typed_choice(&choices, 5, "what"), None);
}

#[test]
fn the_written_config_takes_answers_over_the_base() {
    let answers = Answers {
        group: Some("ACME".into()),
        state_dir: Some("/var/devctx".into()),
        storage: Some(Storage { fts: true, ..Storage::default() }),
        ..Answers::default()
    };
    let mut base = ProjectConfig::default();
    base.indexing.exclude = vec!["target/".into()];
    let emb = Embeddings { model: "ml-granite".into(), ..Embeddings::default() };
    let rr = Reranking { enabled: true, ..Reranking::default() };
    let cfg = assemble_config("api".into(), "/w/api".into(), answers, emb, rr, base);
    assert_eq!((cfg.project.name.as_str(), cfg.project.path.as_str(), cfg.project.group.as_str()), ("api", "/w/api", "ACME"));
    assert_eq!(cfg.state_dir, "/var/devctx");
    assert!(cfg.storage.fts);
    assert_eq!(cfg.indexing.exclude, vec!["target/".to_string()], "unanswered sections come from the base");
    assert_eq!(cfg.embeddings.model, "ml-granite");
    assert!(cfg.reranking.enabled);
    assert_eq!(cfg.language, Language::En);
}

#[test]
fn typed_answers_are_read_as_the_wizard_means_them() {
    assert_eq!(parse_exclude(" target/ , *.log,, "), vec!["target/".to_string(), "*.log".to_string()]);
    assert!(parse_exclude("  ").is_empty());
    assert_eq!(group_answer("", "ignored"), None);
    assert_eq!(group_answer("ACME", ""), Some("ACME".to_string()));
    assert_eq!(group_answer(NEW_GROUP, "Globex"), Some("Globex".to_string()));
    assert_eq!(group_answer(NEW_GROUP, "   "), None, "a blank new group is no group");
    assert_eq!(number_or("250", 100), 250);
    assert_eq!(number_or("lots", 100), 100);
    assert_eq!(offline_answer("true"), devctx::config::Offline::True);
    assert_eq!(offline_answer("false"), devctx::config::Offline::False);
    assert_eq!(offline_answer("auto"), devctx::config::Offline::Auto);
}

fn walk(interview: &mut Interview, answers: &[&str]) -> Vec<Question> {
    let mut asked = Vec::new();
    for a in answers {
        asked.push(interview.next().unwrap());
        interview.answer(a);
    }
    asked
}

#[test]
fn the_interview_skips_what_its_answers_make_moot() {
    let mut i = Interview::new(false);
    let asked = walk(&mut i, &["es", "bge-small", "  ", "n", "y", "target/, *.log", "", "n", "noop", "lots", "true"]);
    assert_eq!(
        asked,
        vec![
            Question::Language,
            Question::Model,
            Question::StateDir,
            Question::Hnsw,
            Question::Fts,
            Question::Exclude,
            Question::Group,
            Question::Rerank,
            Question::Summarizer,
            Question::TargetTokens,
            Question::Offline,
        ]
    );
    assert_eq!(i.next(), None);
    let a = i.answers();
    assert_eq!(a.language, Some(Language::Es));
    assert_eq!(a.model.as_deref(), Some("bge-small"));
    assert_eq!(a.state_dir, None);
    assert_eq!(a.group, None);
    assert_eq!(a.offline, Some(Offline::True));
    let st = a.storage.unwrap();
    assert!(!st.hnsw && st.fts);
    assert_eq!(st.metric, "cosine");
    assert_eq!(a.indexing.unwrap().exclude, vec!["target/".to_string(), "*.log".to_string()]);
    let r = a.reranking.unwrap();
    assert!(!r.enabled);
    assert_eq!((r.model.as_str(), r.pool), ("bge-base", 100));
    let s = a.summarization.unwrap();
    assert_eq!((s.provider.as_str(), s.target_tokens), ("noop", 200));
}

#[test]
fn the_interview_asks_follow_ups_where_they_apply() {
    let mut i = Interview::new(true);
    let asked = walk(
        &mut i,
        &["en", "", "m", "/idx", "y", "ip", "n", "", NEW_GROUP, "ACME", "y", "jina-turbo", "40", "extractive", "300", "auto"],
    );
    assert_eq!(asked[1], Question::CopyFrom);
    assert!(asked.contains(&Question::Metric));
    assert!(asked.contains(&Question::GroupName));
    assert!(asked.contains(&Question::RerankPool));
    assert_eq!(i.next(), None);
    let a = i.answers();
    assert_eq!(a.state_dir.as_deref(), Some("/idx"));
    assert_eq!(a.group.as_deref(), Some("ACME"));
    assert_eq!(a.storage.unwrap().metric, "ip");
    let r = a.reranking.unwrap();
    assert_eq!((r.enabled, r.model.as_str(), r.pool), (true, "jina-turbo", 40));
    assert_eq!(a.summarization.unwrap().target_tokens, 300);
}

#[test]
fn copying_a_project_ends_the_interview() {
    let mut i = Interview::new(true);
    walk(&mut i, &["en", "api"]);
    assert_eq!(i.next(), None);
    let a = i.answers();
    assert_eq!(a.copy_from.as_deref(), Some("api"));
    assert_eq!(a.language, Some(Language::En));
    assert!(a.model.is_none() && a.storage.is_none());
}
