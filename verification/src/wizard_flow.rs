//! The order of `devctx init`'s questions and what each answer means: a step
//! from the state of the interview and one answer to the next state, and the
//! answers it collected. The terminal is asked elsewhere; every decision
//! about what comes next, which default stands and what a blank answer means
//! is made here.

use vstd::prelude::*;
use crate::config::{Indexing, Language, Offline, Reranking, Storage, Summarization};
use crate::init_wizard::{entries, group_answer, number_or, offline_answer, parse_exclude, string_views, Answers, NEW_GROUP};
use crate::registry::opt_view;
use crate::text::{chars_of, owned, parse_usize_spec, same_text, split, trim, trim_bounds};

verus! {

/// A question of the interview.
#[derive(Debug, Clone, Copy, PartialEq, Eq, Structural)]
pub enum Question {
    /// Which language the rest is asked in.
    Language,
    /// Whether to copy a registered project's configuration instead.
    CopyFrom,
    /// The embedding model.
    Model,
    /// Where the index is kept (blank for the default).
    StateDir,
    /// Whether to build the approximate-search index (`y` or `n`).
    Hnsw,
    /// Its distance metric.
    Metric,
    /// Whether to build the keyword index (`y` or `n`).
    Fts,
    /// What to keep out of the index, comma-separated.
    Exclude,
    /// Which group the project's memories are shared with.
    Group,
    /// The name of a new group.
    GroupName,
    /// Whether to rerank results (`y` or `n`).
    Rerank,
    /// The reranking model.
    RerankModel,
    /// How many candidates the reranker is shown.
    RerankPool,
    /// The summarizer.
    Summarizer,
    /// The summary length in tokens.
    TargetTokens,
    /// The offline policy.
    Offline,
}

/// The interview as far as it has come.
pub ghost struct FlowView {
    pub next: Option<Question>,
    pub has_projects: bool,
    pub lang: Language,
    pub copy_from: Option<Seq<char>>,
    pub model: Option<Seq<char>>,
    pub state_dir: Option<Seq<char>>,
    pub hnsw: bool,
    pub metric: Seq<char>,
    pub fts: bool,
    pub exclude: Seq<Seq<char>>,
    pub group: Option<Seq<char>>,
    pub rerank_enabled: bool,
    pub rerank_model: Seq<char>,
    pub rerank_pool: usize,
    pub sum_provider: Seq<char>,
    pub sum_target: usize,
    pub offline: Offline,
}

/// Where the interview starts: the language first, every setting at its
/// default.
pub open spec fn start_spec(has_projects: bool) -> FlowView {
    FlowView {
        next: Some(Question::Language),
        has_projects,
        lang: Language::En,
        copy_from: None,
        model: None,
        state_dir: None,
        hnsw: true,
        metric: "cosine"@,
        fts: false,
        exclude: Seq::empty(),
        group: None,
        rerank_enabled: false,
        rerank_model: "bge-base"@,
        rerank_pool: 100,
        sum_provider: "extractive"@,
        sum_target: 200,
        offline: Offline::Auto,
    }
}

/// What one answer does to the interview. The copy question is asked only
/// when there are projects to copy from, and a pick ends the interview; the
/// metric is asked only with the approximate-search index; a new group is
/// asked its name; the reranking model and pool only when reranking; a number
/// that is not one keeps the default; after the offline policy, nothing.
pub open spec fn step_spec(v: FlowView, a: Seq<char>) -> FlowView {
    match v.next {
        None => v,
        Some(Question::Language) => FlowView {
            lang: if a == "es"@ { Language::Es } else { Language::En },
            next: Some(if v.has_projects { Question::CopyFrom } else { Question::Model }),
            ..v
        },
        Some(Question::CopyFrom) => if a.len() > 0 {
            FlowView { copy_from: Some(a), next: None, ..v }
        } else {
            FlowView { next: Some(Question::Model), ..v }
        },
        Some(Question::Model) => FlowView { model: Some(a), next: Some(Question::StateDir), ..v },
        Some(Question::StateDir) => FlowView {
            state_dir: if trim(a).len() > 0 { Some(a) } else { None },
            next: Some(Question::Hnsw),
            ..v
        },
        Some(Question::Hnsw) => FlowView {
            hnsw: a == "y"@,
            next: Some(if a == "y"@ { Question::Metric } else { Question::Fts }),
            ..v
        },
        Some(Question::Metric) => FlowView { metric: a, next: Some(Question::Fts), ..v },
        Some(Question::Fts) => FlowView { fts: a == "y"@, next: Some(Question::Exclude), ..v },
        Some(Question::Exclude) => FlowView { exclude: entries(split(a, ',')), next: Some(Question::Group), ..v },
        Some(Question::Group) => if a == NEW_GROUP@ {
            FlowView { next: Some(Question::GroupName), ..v }
        } else {
            FlowView { group: if a.len() == 0 { None } else { Some(a) }, next: Some(Question::Rerank), ..v }
        },
        Some(Question::GroupName) => FlowView {
            group: if trim(a).len() > 0 { Some(a) } else { None },
            next: Some(Question::Rerank),
            ..v
        },
        Some(Question::Rerank) => FlowView {
            rerank_enabled: a == "y"@,
            next: Some(if a == "y"@ { Question::RerankModel } else { Question::Summarizer }),
            ..v
        },
        Some(Question::RerankModel) => FlowView { rerank_model: a, next: Some(Question::RerankPool), ..v },
        Some(Question::RerankPool) => FlowView {
            rerank_pool: match parse_usize_spec(a) {
                Some(x) => x,
                None => v.rerank_pool,
            },
            next: Some(Question::Summarizer),
            ..v
        },
        Some(Question::Summarizer) => FlowView { sum_provider: a, next: Some(Question::TargetTokens), ..v },
        Some(Question::TargetTokens) => FlowView {
            sum_target: match parse_usize_spec(a) {
                Some(x) => x,
                None => v.sum_target,
            },
            next: Some(Question::Offline),
            ..v
        },
        Some(Question::Offline) => FlowView {
            offline: if a == "true"@ { Offline::True } else if a == "false"@ { Offline::False } else { Offline::Auto },
            next: None,
            ..v
        },
    }
}

/// Where a question stands in the interview's order.
pub open spec fn order(q: Question) -> int {
    match q {
        Question::Language => 0,
        Question::CopyFrom => 1,
        Question::Model => 2,
        Question::StateDir => 3,
        Question::Hnsw => 4,
        Question::Metric => 5,
        Question::Fts => 6,
        Question::Exclude => 7,
        Question::Group => 8,
        Question::GroupName => 9,
        Question::Rerank => 10,
        Question::RerankModel => 11,
        Question::RerankPool => 12,
        Question::Summarizer => 13,
        Question::TargetTokens => 14,
        Question::Offline => 15,
    }
}

/// The interview only moves forward: whatever is answered, the next question
/// comes later in its order, or the interview is over. So it never asks a
/// question twice and ends after at most sixteen answers.
pub proof fn law_interview_moves_forward(v: FlowView, a: Seq<char>)
    requires
        v.next is Some,
    ensures
        match step_spec(v, a).next {
            Some(q) => order(q) > order(v.next->0),
            None => true,
        },
{
}

/// The interview as far as it has come.
pub struct Interview {
    next: Option<Question>,
    has_projects: bool,
    lang: Language,
    copy_from: Option<String>,
    model: Option<String>,
    state_dir: Option<String>,
    hnsw: bool,
    metric: String,
    fts: bool,
    exclude: Vec<String>,
    group: Option<String>,
    rerank_enabled: bool,
    rerank_model: String,
    rerank_pool: usize,
    sum_provider: String,
    sum_target: usize,
    offline: Offline,
}

impl Interview {
    /// The interview as a value.
    pub closed spec fn view(&self) -> FlowView {
        FlowView {
            next: self.next,
            has_projects: self.has_projects,
            lang: self.lang,
            copy_from: opt_view(self.copy_from),
            model: opt_view(self.model),
            state_dir: opt_view(self.state_dir),
            hnsw: self.hnsw,
            metric: self.metric@,
            fts: self.fts,
            exclude: string_views(self.exclude@),
            group: opt_view(self.group),
            rerank_enabled: self.rerank_enabled,
            rerank_model: self.rerank_model@,
            rerank_pool: self.rerank_pool,
            sum_provider: self.sum_provider@,
            sum_target: self.sum_target,
            offline: self.offline,
        }
    }

    /// A new interview; `has_projects` says whether there are registered
    /// projects to offer copying from.
    pub fn new(has_projects: bool) -> (i: Self)
        ensures
            i.view() == start_spec(has_projects),
    {
        let i = Interview {
            next: Some(Question::Language),
            has_projects,
            lang: Language::En,
            copy_from: None,
            model: None,
            state_dir: None,
            hnsw: true,
            metric: owned("cosine"),
            fts: false,
            exclude: Vec::new(),
            group: None,
            rerank_enabled: false,
            rerank_model: owned("bge-base"),
            rerank_pool: 100,
            sum_provider: owned("extractive"),
            sum_target: 200,
            offline: Offline::Auto,
        };
        assert(string_views(i.exclude@) =~= Seq::<Seq<char>>::empty());
        i
    }

    /// The question to ask next, or `None` when the interview is over.
    pub fn next(&self) -> (q: Option<Question>)
        ensures
            q == self.view().next,
    {
        self.next
    }

    /// The language the interview is in.
    pub fn language(&self) -> (l: Language)
        ensures
            l == self.view().lang,
    {
        self.lang
    }

    /// Take the answer to the current question: a picked choice's value, a
    /// typed line, or `y`/`n` for a yes-or-no question.
    pub fn answer(&mut self, a: &str)
        ensures
            final(self).view() == step_spec(old(self).view(), a@),
    {
        proof {
            reveal_strlit("es");
            reveal_strlit("y");
            reveal_strlit("true");
            reveal_strlit("false");
        }
        match self.next {
            None => {},
            Some(Question::Language) => {
                self.lang = if same_text(a, "es") { Language::Es } else { Language::En };
                self.next = Some(if self.has_projects { Question::CopyFrom } else { Question::Model });
            },
            Some(Question::CopyFrom) => {
                if a.is_empty() {
                    self.next = Some(Question::Model);
                } else {
                    self.copy_from = Some(owned(a));
                    self.next = None;
                }
            },
            Some(Question::Model) => {
                self.model = Some(owned(a));
                self.next = Some(Question::StateDir);
            },
            Some(Question::StateDir) => {
                let v = chars_of(a);
                let (b, e) = trim_bounds(v.as_slice());
                self.state_dir = if b < e { Some(owned(a)) } else { None };
                self.next = Some(Question::Hnsw);
            },
            Some(Question::Hnsw) => {
                let yes = same_text(a, "y");
                self.hnsw = yes;
                self.next = Some(if yes { Question::Metric } else { Question::Fts });
            },
            Some(Question::Metric) => {
                self.metric = owned(a);
                self.next = Some(Question::Fts);
            },
            Some(Question::Fts) => {
                self.fts = same_text(a, "y");
                self.next = Some(Question::Exclude);
            },
            Some(Question::Exclude) => {
                self.exclude = parse_exclude(a);
                self.next = Some(Question::Group);
            },
            Some(Question::Group) => {
                if same_text(a, NEW_GROUP) {
                    self.next = Some(Question::GroupName);
                } else {
                    self.group = group_answer(a, "");
                    self.next = Some(Question::Rerank);
                }
            },
            Some(Question::GroupName) => {
                self.group = group_answer(NEW_GROUP, a);
                self.next = Some(Question::Rerank);
            },
            Some(Question::Rerank) => {
                let yes = same_text(a, "y");
                self.rerank_enabled = yes;
                self.next = Some(if yes { Question::RerankModel } else { Question::Summarizer });
            },
            Some(Question::RerankModel) => {
                self.rerank_model = owned(a);
                self.next = Some(Question::RerankPool);
            },
            Some(Question::RerankPool) => {
                self.rerank_pool = number_or(a, self.rerank_pool);
                self.next = Some(Question::Summarizer);
            },
            Some(Question::Summarizer) => {
                self.sum_provider = owned(a);
                self.next = Some(Question::TargetTokens);
            },
            Some(Question::TargetTokens) => {
                self.sum_target = number_or(a, self.sum_target);
                self.next = Some(Question::Offline);
            },
            Some(Question::Offline) => {
                self.offline = offline_answer(a);
                self.next = None;
            },
        }
    }

    /// What the interview collected: only the copied project and the
    /// language when a project was picked to copy from; otherwise every
    /// setting as answered, with the defaults for what was not asked.
    pub fn answers(&self) -> (a: Answers)
        ensures
            self.view().copy_from is Some ==> {
                &&& opt_view(a.copy_from) == self.view().copy_from
                &&& a.language == Some(self.view().lang)
                &&& a.model is None && a.state_dir is None && a.group is None && a.offline is None
                &&& a.storage is None && a.indexing is None && a.reranking is None && a.summarization is None
            },
            self.view().copy_from is None ==> {
                &&& a.copy_from is None
                &&& opt_view(a.model) == self.view().model
                &&& opt_view(a.state_dir) == self.view().state_dir
                &&& opt_view(a.group) == self.view().group
                &&& a.language == Some(self.view().lang)
                &&& a.offline == Some(self.view().offline)
                &&& a.storage matches Some(st) && st.db_path@.len() == 0 && st.hnsw == self.view().hnsw
                    && st.metric@ == self.view().metric && st.fts == self.view().fts
                &&& a.indexing matches Some(ix) && string_views(ix.exclude@) == self.view().exclude
                    && ix.branches@.len() == 0
                &&& a.reranking matches Some(r) && r.enabled == self.view().rerank_enabled
                    && r.model@ == self.view().rerank_model && r.model_dir@.len() == 0
                    && r.pool == self.view().rerank_pool
                &&& a.summarization matches Some(s) && s.provider@ == self.view().sum_provider
                    && s.require_local && s.target_tokens == self.view().sum_target && s.model@ == "gpt-4o-mini"@
            },
    {
        match &self.copy_from {
            Some(c) => Answers {
                copy_from: Some(owned(c.as_str())),
                model: None,
                state_dir: None,
                group: None,
                language: Some(self.lang),
                offline: None,
                storage: None,
                indexing: None,
                reranking: None,
                summarization: None,
            },
            None => {
                let mut exclude: Vec<String> = Vec::new();
                let mut k: usize = 0;
                while k < self.exclude.len()
                    invariant
                        k <= self.exclude@.len(),
                        string_views(exclude@) == string_views(self.exclude@).take(k as int),
                    decreases self.exclude@.len() - k,
                {
                    let ghost prev = exclude@;
                    let x = owned(self.exclude[k].as_str());
                    exclude.push(x);
                    assert(string_views(exclude@) =~= string_views(prev).push(x@));
                    assert(string_views(self.exclude@).take(k + 1) =~= string_views(self.exclude@).take(k as int).push(
                        self.exclude@[k as int]@,
                    ));
                    k = k + 1;
                }
                assert(string_views(self.exclude@).take(self.exclude@.len() as int) =~= string_views(self.exclude@));
                Answers {
                    copy_from: None,
                    model: match &self.model {
                        Some(m) => Some(owned(m.as_str())),
                        None => None,
                    },
                    state_dir: match &self.state_dir {
                        Some(d) => Some(owned(d.as_str())),
                        None => None,
                    },
                    group: match &self.group {
                        Some(g) => Some(owned(g.as_str())),
                        None => None,
                    },
                    language: Some(self.lang),
                    offline: Some(self.offline),
                    storage: Some(Storage {
                        db_path: String::new(),
                        hnsw: self.hnsw,
                        metric: owned(self.metric.as_str()),
                        fts: self.fts,
                    }),
                    indexing: Some(Indexing { exclude, branches: Vec::new() }),
                    reranking: Some(Reranking {
                        enabled: self.rerank_enabled,
                        model: owned(self.rerank_model.as_str()),
                        model_dir: String::new(),
                        pool: self.rerank_pool,
                    }),
                    summarization: Some(Summarization {
                        provider: owned(self.sum_provider.as_str()),
                        require_local: true,
                        target_tokens: self.sum_target,
                        model: owned("gpt-4o-mini"),
                    }),
                }
            },
        }
    }
}

} // verus!
