//! What `devctx init` collected, and the summary it shows before writing.

use vstd::prelude::*;
use crate::config::{Embeddings, Indexing, Language, Offline, Project, ProjectConfig, Reranking, Storage, Summarization};
use crate::text::{
    chars_of, decimal, join, owned, parse_usize, parse_usize_spec, push_decimal, push_range, push_str, same_text, split,
    split_chars, trim, trim_bounds, views,
};
use crate::wizard_text::{in_lang, Text};

verus! {

/// Everything the wizard collected. `None` means "leave the default alone".
#[derive(Debug, Clone)]
pub struct Answers {
    /// Copy every setting from this registered project instead of asking.
    pub copy_from: Option<String>,
    pub model: Option<String>,
    pub state_dir: Option<String>,
    pub group: Option<String>,
    pub language: Option<Language>,
    pub offline: Option<Offline>,
    pub storage: Option<Storage>,
    pub indexing: Option<Indexing>,
    pub reranking: Option<Reranking>,
    pub summarization: Option<Summarization>,
}

impl Default for Answers {
    fn default() -> (a: Self)
        ensures
            a.copy_from is None,
            a.model is None,
            a.state_dir is None,
            a.group is None,
            a.language is None,
            a.offline is None,
            a.storage is None,
            a.indexing is None,
            a.reranking is None,
            a.summarization is None,
    {
        Answers {
            copy_from: None,
            model: None,
            state_dir: None,
            group: None,
            language: None,
            offline: None,
            storage: None,
            indexing: None,
            reranking: None,
            summarization: None,
        }
    }
}

/// The exclude patterns, in order.
pub open spec fn string_views(v: Seq<String>) -> Seq<Seq<char>> {
    Seq::new(v.len(), |i: int| v[i]@)
}

/// `on` or `off` in `lang`.
pub open spec fn onoff(lang: Language, b: bool) -> Seq<char> {
    if b { in_lang(lang, "on"@, "sí"@) } else { in_lang(lang, "off"@, "no"@) }
}

/// The summary's language.
pub open spec fn lang_of(a: Answers) -> Language {
    match a.language { Some(x) => x, None => Language::En }
}

/// `  project  {name}`.
pub open spec fn line_project(l: Language, name: Seq<char>) -> Seq<char> {
    "  "@ + in_lang(l, "project "@, "proyecto"@) + " "@ + name
}

/// The group line: the group and what it shares, or `none`.
pub open spec fn line_group(l: Language, a: Answers) -> Seq<char> {
    let group = match a.group {
        Some(g) => g@ + "  "@ + in_lang(
            l,
            "→ memories shared with that product's repositories"@,
            "→ memorias compartidas con los repositorios de ese producto"@,
        ),
        None => in_lang(l, "none"@, "ninguno"@),
    };
    "\n  "@ + in_lang(l, "group   "@, "grupo   "@) + " "@ + group
}

/// The model line.
pub open spec fn line_model(l: Language, model: Seq<char>) -> Seq<char> {
    "\n  "@ + in_lang(l, "model   "@, "modelo  "@) + " "@ + model
}

/// The index line: the named directory, or the default location.
pub open spec fn line_index(l: Language, a: Answers) -> Seq<char> {
    let index = match a.state_dir {
        Some(d) => d@,
        None => "./.devctx/state/index.duckdb"@,
    };
    "\n  "@ + in_lang(l, "index   "@, "índice  "@) + " "@ + index
}

/// The HNSW line: on or off, and the metric.
pub open spec fn line_hnsw(l: Language, a: Answers) -> Seq<char> {
    let hnsw = match a.storage { Some(s) => s.hnsw, None => true };
    let metric = match a.storage { Some(s) => s.metric@, None => "cosine"@ };
    "\n  hnsw     "@ + onoff(l, hnsw) + " ("@ + metric + ")"@
}

/// The keyword-index line.
pub open spec fn line_keyword(l: Language, a: Answers) -> Seq<char> {
    let fts = match a.storage { Some(s) => s.fts, None => false };
    "\n  "@ + in_lang(l, "keyword "@, "keyword "@) + " "@ + onoff(l, fts)
}

/// The exclude line: the patterns, or `none`.
pub open spec fn line_exclude(l: Language, a: Answers) -> Seq<char> {
    let excl = match a.indexing { Some(ix) => string_views(ix.exclude@), None => seq![] };
    let exclude = if excl.len() == 0 { in_lang(l, "none"@, "ninguno"@) } else { join(excl, ", "@) };
    "\n  "@ + in_lang(l, "exclude "@, "excluir "@) + " "@ + exclude
}

/// The rerank line: the model and its pool when on, else `off`.
pub open spec fn line_rerank(l: Language, a: Answers) -> Seq<char> {
    let rerank = match a.reranking {
        Some(r) => if r.enabled {
            r.model@ + " (pool "@ + decimal(r.pool as nat) + ")"@
        } else {
            in_lang(l, "off"@, "no"@)
        },
        None => in_lang(l, "off"@, "no"@),
    };
    "\n  "@ + in_lang(l, "rerank  "@, "reorden "@) + " "@ + rerank
}

/// The summarization line: provider and target length.
pub open spec fn line_summarizer(l: Language, a: Answers) -> Seq<char> {
    let provider = match a.summarization { Some(s) => s.provider@, None => "extractive"@ };
    let target = match a.summarization { Some(s) => s.target_tokens as nat, None => 200 };
    "\n  "@ + in_lang(l, "summary "@, "resumen "@) + " "@ + provider + " · "@ + decimal(target) + " tokens"@
}

/// The memories line: where each tier of memory lives.
pub open spec fn line_memories(l: Language, a: Answers) -> Seq<char> {
    let tiers = if a.group is Some {
        in_lang(
            l,
            "local → this repository · group → central store · global → central store"@,
            "local → este repositorio · grupo → store central · global → store central"@,
        )
    } else {
        in_lang(l, "local → this repository · global → central store"@, "local → este repositorio · global → store central"@)
    };
    "\n  "@ + in_lang(l, "memories"@, "memorias"@) + " "@ + tiers
}

/// The summary's lines when the answers choose every setting here.
pub open spec fn full_summary(name: Seq<char>, a: Answers, model: Seq<char>) -> Seq<char> {
    let l = lang_of(a);
    line_project(l, name) + line_group(l, a) + line_model(l, model) + line_index(l, a) + line_hnsw(l, a)
        + line_keyword(l, a) + line_exclude(l, a) + line_rerank(l, a) + line_summarizer(l, a)
        + line_memories(l, a)
}

/// What the summary says: only where the configuration was copied from, when
/// it was; otherwise every section, including the ones left at their default.
pub open spec fn summary_spec(name: Seq<char>, a: Answers, model: Seq<char>) -> Seq<char> {
    let l = lang_of(a);
    match a.copy_from {
        Some(src) => line_project(l, name) + "\n  config   "@ + in_lang(l, "copied from"@, "copiada de"@)
            + " `"@ + src@ + "`"@,
        None => full_summary(name, a, model),
    }
}

fn push_parts(s: &mut String, parts: &Vec<String>)
    ensures
        final(s)@ == old(s)@ + join(string_views(parts@), ", "@),
{
    let ghost start = s@;
    let mut i: usize = 0;
    while i < parts.len()
        invariant
            i <= parts@.len(),
            s@ == start + join(string_views(parts@).take(i as int), ", "@),
        decreases parts@.len() - i,
    {
        let ghost prev = string_views(parts@).take(i as int);
        let ghost next = string_views(parts@).take(i + 1);
        assert(next.drop_last() =~= prev);
        if i > 0 {
            push_str(s, ", ");
        }
        push_str(s, parts[i].as_str());
        proof {
            if i == 0 {
                assert(next =~= seq![parts@[0]@]);
            }
        }
        assert(s@ =~= start + join(next, ", "@));
        i = i + 1;
    }
    assert(string_views(parts@).take(parts@.len() as int) =~= string_views(parts@));
}

fn text_group(t: &Text, a: &Answers) -> (r: String)
    ensures
        r@ == line_group(t.lang, *a),
{
    let mut s = String::new();
    push_str(&mut s, "\n  ");
    push_str(&mut s, t.label_group());
    push_str(&mut s, " ");
    match &a.group {
        Some(g) => {
            push_str(&mut s, g.as_str());
            push_str(&mut s, "  ");
            push_str(&mut s, t.shared_with_group());
        },
        None => push_str(&mut s, t.none()),
    }
    s
}

fn text_index(t: &Text, a: &Answers) -> (r: String)
    ensures
        r@ == line_index(t.lang, *a),
{
    let mut s = String::new();
    push_str(&mut s, "\n  ");
    push_str(&mut s, t.label_index());
    push_str(&mut s, " ");
    match &a.state_dir {
        Some(d) => push_str(&mut s, d.as_str()),
        None => push_str(&mut s, "./.devctx/state/index.duckdb"),
    }
    s
}

fn text_storage(t: &Text, a: &Answers) -> (r: String)
    ensures
        r@ == line_hnsw(t.lang, *a) + line_keyword(t.lang, *a),
{
    let (hnsw, fts) = match &a.storage {
        Some(st) => (st.hnsw, st.fts),
        None => (true, false),
    };
    let mut s = String::new();
    push_str(&mut s, "\n  hnsw     ");
    push_str(&mut s, if hnsw { t.on() } else { t.off() });
    push_str(&mut s, " (");
    match &a.storage {
        Some(st) => push_str(&mut s, st.metric.as_str()),
        None => push_str(&mut s, "cosine"),
    }
    push_str(&mut s, ")");
    push_str(&mut s, "\n  ");
    push_str(&mut s, t.label_keyword());
    push_str(&mut s, " ");
    push_str(&mut s, if fts { t.on() } else { t.off() });
    s
}

fn text_exclude(t: &Text, a: &Answers) -> (r: String)
    ensures
        r@ == line_exclude(t.lang, *a),
{
    let mut s = String::new();
    push_str(&mut s, "\n  ");
    push_str(&mut s, t.label_exclude());
    push_str(&mut s, " ");
    match &a.indexing {
        Some(ix) => {
            if ix.exclude.len() == 0 {
                push_str(&mut s, t.none());
            } else {
                push_parts(&mut s, &ix.exclude);
            }
        },
        None => push_str(&mut s, t.none()),
    }
    s
}

fn text_rerank(t: &Text, a: &Answers) -> (r: String)
    ensures
        r@ == line_rerank(t.lang, *a),
{
    let mut s = String::new();
    push_str(&mut s, "\n  ");
    push_str(&mut s, t.label_rerank());
    push_str(&mut s, " ");
    match &a.reranking {
        Some(r) => {
            if r.enabled {
                push_str(&mut s, r.model.as_str());
                push_str(&mut s, " (pool ");
                push_decimal(&mut s, r.pool as u64);
                push_str(&mut s, ")");
            } else {
                push_str(&mut s, t.off());
            }
        },
        None => push_str(&mut s, t.off()),
    }
    s
}

fn text_summarizer(t: &Text, a: &Answers) -> (r: String)
    ensures
        r@ == line_summarizer(t.lang, *a),
{
    let mut s = String::new();
    push_str(&mut s, "\n  ");
    push_str(&mut s, t.label_summary());
    push_str(&mut s, " ");
    match &a.summarization {
        Some(sm) => {
            push_str(&mut s, sm.provider.as_str());
            push_str(&mut s, " · ");
            push_decimal(&mut s, sm.target_tokens as u64);
        },
        None => {
            push_str(&mut s, "extractive");
            push_str(&mut s, " · ");
            push_decimal(&mut s, 200);
        },
    }
    push_str(&mut s, " tokens");
    s
}

fn text_memories(t: &Text, a: &Answers) -> (r: String)
    ensures
        r@ == line_memories(t.lang, *a),
{
    let mut s = String::new();
    push_str(&mut s, "\n  ");
    push_str(&mut s, t.label_memories());
    push_str(&mut s, " ");
    push_str(&mut s, if a.group.is_some() { t.tiers_with_group() } else { t.tiers_without_group() });
    s
}

/// What will be written, in the terms the decisions were made in, and in the
/// language that was chosen.
///
/// Every section is shown, including the ones nobody changed: a setting
/// omitted because it kept its default is exactly the kind that gets
/// discovered months later. A copied configuration is summarised as only
/// that, since nothing else was decided here.
pub fn summary(name: &str, a: &Answers, model: &str) -> (s: String)
    ensures
        s@ == summary_spec(name@, *a, model@),
{
    let lang = match a.language {
        Some(l) => l,
        None => Language::En,
    };
    let t = Text::new(lang);
    let mut s = String::new();
    push_str(&mut s, "  ");
    push_str(&mut s, t.label_project());
    push_str(&mut s, " ");
    push_str(&mut s, name);
    let ghost p = s@;
    assert(p =~= line_project(lang, name@));
    if let Some(src) = &a.copy_from {
        push_str(&mut s, "\n  config   ");
        push_str(&mut s, t.copied_from());
        push_str(&mut s, " `");
        push_str(&mut s, src.as_str());
        push_str(&mut s, "`");
        return s;
    }
    let g = text_group(&t, a);
    push_str(&mut s, g.as_str());
    let mut m = String::new();
    push_str(&mut m, "\n  ");
    push_str(&mut m, t.label_model());
    push_str(&mut m, " ");
    push_str(&mut m, model);
    assert(m@ =~= line_model(lang, model@));
    push_str(&mut s, m.as_str());
    let ix = text_index(&t, a);
    push_str(&mut s, ix.as_str());
    let st = text_storage(&t, a);
    push_str(&mut s, st.as_str());
    let ex = text_exclude(&t, a);
    push_str(&mut s, ex.as_str());
    let rr = text_rerank(&t, a);
    push_str(&mut s, rr.as_str());
    let sm = text_summarizer(&t, a);
    push_str(&mut s, sm.as_str());
    let me = text_memories(&t, a);
    push_str(&mut s, me.as_str());
    assert(s@ =~= full_summary(name@, *a, model@));
    s
}

/// The config `devctx init` writes for the repository at `root`, named
/// `name`: its group and index directory as answered; the embeddings and
/// reranking already resolved from the machine's defaults, a copied project
/// and the answers; and every other section as answered, else as in `base`
/// (the project copied from, or the built-in defaults).
pub fn assemble_config(
    name: String,
    root: String,
    answers: Answers,
    embeddings: Embeddings,
    reranking: Reranking,
    base: ProjectConfig,
) -> (c: ProjectConfig)
    ensures
        c.project.name == name,
        c.project.path == root,
        c.project.group@ == match answers.group { Some(g) => g@, None => seq![] },
        c.state_dir == match answers.state_dir { Some(s) => s, None => base.state_dir },
        c.language == match answers.language { Some(l) => l, None => base.language },
        c.embeddings == embeddings,
        c.storage == match answers.storage { Some(s) => s, None => base.storage },
        c.indexing == match answers.indexing { Some(i) => i, None => base.indexing },
        c.reranking == reranking,
        c.summarization == match answers.summarization { Some(s) => s, None => base.summarization },
{
    let group = match answers.group {
        Some(g) => g,
        None => String::new(),
    };
    ProjectConfig {
        project: Project { name, path: root, group },
        state_dir: match answers.state_dir {
            Some(s) => s,
            None => base.state_dir,
        },
        language: match answers.language {
            Some(l) => l,
            None => base.language,
        },
        embeddings,
        storage: match answers.storage {
            Some(s) => s,
            None => base.storage,
        },
        indexing: match answers.indexing {
            Some(i) => i,
            None => base.indexing,
        },
        reranking,
        summarization: match answers.summarization {
            Some(s) => s,
            None => base.summarization,
        },
    }
}

/// The trimmed, non-blank entries of a comma-separated list.
pub open spec fn entries(parts: Seq<Seq<char>>) -> Seq<Seq<char>>
    decreases parts.len(),
{
    if parts.len() == 0 {
        seq![]
    } else {
        let rest = entries(parts.drop_last());
        let t = trim(parts.last());
        if t.len() > 0 { rest.push(t) } else { rest }
    }
}

/// The ignore patterns typed as a comma-separated list: each trimmed, blank
/// ones dropped.
pub fn parse_exclude(input: &str) -> (r: Vec<String>)
    ensures
        string_views(r@) == entries(split(input@, ',')),
{
    let v = chars_of(input);
    let parts = split_chars(v.as_slice(), ',');
    let ghost ps = split(input@, ',');
    assert(views(parts@) == ps);
    let mut out: Vec<String> = Vec::new();
    let mut i: usize = 0;
    while i < parts.len()
        invariant
            i <= parts@.len(),
            views(parts@) == ps,
            string_views(out@) == entries(ps.take(i as int)),
        decreases parts@.len() - i,
    {
        assert(ps.take(i + 1).drop_last() =~= ps.take(i as int));
        assert(ps.take(i + 1).last() == parts@[i as int]@);
        let (b, e) = trim_bounds(parts[i].as_slice());
        if b < e {
            let ghost prev = out@;
            let mut t = String::new();
            push_range(&mut t, parts[i].as_slice(), b, e);
            out.push(t);
            assert(string_views(out@) =~= string_views(prev).push(trim(parts@[i as int]@)));
        } else {
            assert(trim(parts@[i as int]@).len() == 0);
        }
        i = i + 1;
    }
    assert(ps.take(parts@.len() as int) =~= ps);
    out
}

/// The value the group list offers for "a new group", whose name is then
/// typed.
pub const NEW_GROUP: &'static str = "\u{1}new";

/// The group picked from the list: none (the empty value), a new one (its
/// typed name, unless blank), or one already in use.
pub fn group_answer(picked: &str, typed: &str) -> (r: Option<String>)
    ensures
        picked@.len() == 0 ==> r is None,
        picked@ == NEW_GROUP@ ==> if trim(typed@).len() > 0 { r matches Some(g) && g@ == typed@ } else { r is None },
        picked@.len() > 0 && picked@ != NEW_GROUP@ ==> (r matches Some(g) && g@ == picked@),
{
    proof {
        reveal_strlit("\u{1}new");
        assert(NEW_GROUP@.len() > 0);
    }
    if picked.is_empty() {
        None
    } else if same_text(picked, NEW_GROUP) {
        let v = chars_of(typed);
        let (b, e) = trim_bounds(v.as_slice());
        if b < e { Some(owned(typed)) } else { None }
    } else {
        Some(owned(picked))
    }
}

/// A number typed in answer, or `default` when what was typed is not one.
pub fn number_or(input: &str, default: usize) -> (n: usize)
    ensures
        n == match parse_usize_spec(input@) {
            Some(x) => x,
            None => default,
        },
{
    match parse_usize(input) {
        Some(x) => x,
        None => default,
    }
}

/// The offline policy picked: `true` never goes online, `false` always may,
/// anything else decides automatically.
pub fn offline_answer(picked: &str) -> (o: Offline)
    ensures
        o == if picked@ == "true"@ { Offline::True } else if picked@ == "false"@ { Offline::False } else { Offline::Auto },
{
    if same_text(picked, "true") {
        Offline::True
    } else if same_text(picked, "false") {
        Offline::False
    } else {
        Offline::Auto
    }
}

} // verus!
