//! Project configuration: the `.devctx/config.yaml` schema, its defaults, and
//! the choices derived from it.

use vstd::prelude::*;
use crate::path::{join_path, lemma_parent_shorter, parent_of, parent_path, path_join};
use crate::text::{trim, trimmed};
use crate::text::{owned, same_text};

verus! {

/// Relative path of the config file inside a project.
pub const CONFIG_FILE_NAME: &'static str = ".devctx/config.yaml";

/// UI / summary language.
#[derive(Debug, Clone, Copy, PartialEq, Eq, Structural)]
pub enum Language {
    /// English (default).
    En,
    /// Spanish.
    Es,
}

impl Default for Language {
    fn default() -> (l: Self)
        ensures
            l == Language::En,
    {
        Language::En
    }
}

/// Offline policy for model/network access.
#[derive(Debug, Clone, Copy, PartialEq, Eq, Structural)]
pub enum Offline {
    /// Decide automatically based on availability (default).
    Auto,
    /// Force offline.
    True,
    /// Force online.
    False,
}

impl Default for Offline {
    fn default() -> (o: Self)
        ensures
            o == Offline::Auto,
    {
        Offline::Auto
    }
}

/// `project:` section.
#[derive(Debug, Clone)]
pub struct Project {
    /// Human-friendly project name.
    pub name: String,
    /// Absolute path to the project root.
    pub path: String,
    /// Group this repository belongs to: a product built from several
    /// repositories that share knowledge without it being universal. Empty
    /// means the repository stands alone.
    pub group: String,
}

impl Default for Project {
    fn default() -> (p: Self)
        ensures
            p.name@.len() == 0,
            p.path@.len() == 0,
            p.group@.len() == 0,
    {
        Project { name: String::new(), path: String::new(), group: String::new() }
    }
}

/// `embeddings:` section.
#[derive(Debug, Clone)]
pub struct Embeddings {
    /// Provider key: `local` (default), `openai`, `voyage`, `custom`.
    pub provider: String,
    /// Model key from the registry (e.g. `minilm-l6`, `ml-granite`).
    pub model: String,
    /// Directory holding a user-defined ONNX model; empty falls back to the
    /// `DEVCTX_MODEL_DIR` environment variable.
    pub model_dir: String,
    /// Offline policy.
    pub offline: Offline,
}

impl Default for Embeddings {
    fn default() -> (e: Self)
        ensures
            e.provider@ == "local"@,
            e.model@ == "minilm-l6"@,
            e.model_dir@.len() == 0,
            e.offline == Offline::Auto,
    {
        Embeddings {
            provider: owned("local"),
            model: owned("minilm-l6"),
            model_dir: String::new(),
            offline: Offline::Auto,
        }
    }
}

impl Embeddings {
    /// A copy of this section, field for field.
    pub fn duplicate(&self) -> (e: Self)
        ensures
            e.provider@ == self.provider@,
            e.model@ == self.model@,
            e.model_dir@ == self.model_dir@,
            e.offline == self.offline,
    {
        Embeddings {
            provider: owned(self.provider.as_str()),
            model: owned(self.model.as_str()),
            model_dir: owned(self.model_dir.as_str()),
            offline: self.offline,
        }
    }
}

/// `storage:` section. Solo-local: a single DuckDB file.
#[derive(Debug, Clone)]
pub struct Storage {
    /// Path to the DuckDB database file. Empty => derived from `state_dir`.
    pub db_path: String,
    /// Build an HNSW index for approximate nearest-neighbour search (on by
    /// default: measurably faster with recall unchanged).
    pub hnsw: bool,
    /// Distance metric for the HNSW index: `cosine` (default) or `ip`.
    pub metric: String,
    /// Build a BM25 full-text index, enabling keyword search.
    pub fts: bool,
}

impl Default for Storage {
    fn default() -> (s: Self)
        ensures
            s.db_path@.len() == 0,
            s.hnsw,
            s.metric@ == "cosine"@,
            !s.fts,
    {
        Storage { db_path: String::new(), hnsw: true, metric: owned("cosine"), fts: false }
    }
}

/// `indexing:` section.
#[derive(Debug, Clone)]
pub struct Indexing {
    /// Paths to keep out of the index, written as `.gitignore` patterns.
    pub exclude: Vec<String>,
    /// The branches to keep indexed, in priority order; the first is the
    /// default. Empty means "whatever is checked out".
    pub branches: Vec<String>,
}

impl Default for Indexing {
    fn default() -> (i: Self)
        ensures
            i.exclude@.len() == 0,
            i.branches@.len() == 0,
    {
        Indexing { exclude: Vec::new(), branches: Vec::new() }
    }
}

/// Whether `branch` is one of `branches`.
pub open spec fn listed_branch(branches: Seq<String>, branch: Seq<char>) -> bool {
    exists|i: int| 0 <= i < branches.len() && (#[trigger] branches[i])@ == branch
}

impl Indexing {
    /// The branch to act on when none was named: the first configured one.
    /// `None` means "use whatever is checked out".
    pub fn default_branch(&self) -> (r: Option<&str>)
        ensures
            self.branches@.len() == 0 ==> r is None,
            self.branches@.len() > 0 ==> (r matches Some(b) && b@ == self.branches@[0]@),
    {
        if self.branches.len() == 0 {
            None
        } else {
            Some(self.branches[0].as_str())
        }
    }

    /// Whether `branch` is one this repository keeps indexed. An empty list
    /// keeps everything, so a repository that never configured branches does
    /// not suddenly have its index declared invalid.
    pub fn tracks(&self, branch: &str) -> (b: bool)
        ensures
            b == (self.branches@.len() == 0 || listed_branch(self.branches@, branch@)),
    {
        if self.branches.len() == 0 {
            return true;
        }
        let mut i: usize = 0;
        while i < self.branches.len()
            invariant
                i <= self.branches@.len(),
                forall|j: int| 0 <= j < i ==> (#[trigger] self.branches@[j])@ != branch@,
            decreases self.branches@.len() - i,
        {
            if same_text(self.branches[i].as_str(), branch) {
                return true;
            }
            i = i + 1;
        }
        false
    }
}

/// `reranking:` section.
#[derive(Debug, Clone)]
pub struct Reranking {
    /// Whether to rerank search results with a cross-encoder (off by default:
    /// it costs seconds and gigabytes for a reordering the retriever mostly
    /// had right).
    pub enabled: bool,
    /// Reranker model key, or `custom` to load one from `model_dir`.
    pub model: String,
    /// Directory holding a user-supplied cross-encoder.
    pub model_dir: String,
    /// How many candidates the cross-encoder is shown.
    pub pool: usize,
}

impl Default for Reranking {
    fn default() -> (r: Self)
        ensures
            !r.enabled,
            r.model@ == "bge-base"@,
            r.model_dir@.len() == 0,
            r.pool == 100,
    {
        Reranking { enabled: false, model: owned("bge-base"), model_dir: String::new(), pool: 100 }
    }
}

/// `summarization:` section.
#[derive(Debug, Clone)]
pub struct Summarization {
    /// Provider: `extractive` (default), `openai`, `noop`.
    pub provider: String,
    /// Block non-local providers (privacy guard).
    pub require_local: bool,
    /// Target summary length in tokens.
    pub target_tokens: usize,
    /// Model id for API providers.
    pub model: String,
}

impl Default for Summarization {
    fn default() -> (s: Self)
        ensures
            s.provider@ == "extractive"@,
            s.require_local,
            s.target_tokens == 200,
            s.model@ == "gpt-4o-mini"@,
    {
        Summarization {
            provider: owned("extractive"),
            require_local: true,
            target_tokens: 200,
            model: owned("gpt-4o-mini"),
        }
    }
}

/// The full project configuration, mirroring `.devctx/config.yaml`.
#[derive(Debug, Clone)]
pub struct ProjectConfig {
    /// `project:` section.
    pub project: Project,
    /// Directory holding DevCtxEngine state (DuckDB, caches). Empty => default.
    pub state_dir: String,
    /// UI / summary language.
    pub language: Language,
    /// `embeddings:` section.
    pub embeddings: Embeddings,
    /// `storage:` section.
    pub storage: Storage,
    /// `indexing:` section.
    pub indexing: Indexing,
    /// `reranking:` section.
    pub reranking: Reranking,
    /// `summarization:` section.
    pub summarization: Summarization,
}

impl Default for ProjectConfig {
    fn default() -> (c: Self)
        ensures
            c.project.name@.len() == 0,
            c.project.path@.len() == 0,
            c.project.group@.len() == 0,
            c.state_dir@.len() == 0,
            c.language == Language::En,
            c.embeddings.provider@ == "local"@,
            c.embeddings.model@ == "minilm-l6"@,
            c.embeddings.model_dir@.len() == 0,
            c.embeddings.offline == Offline::Auto,
            c.storage.db_path@.len() == 0,
            c.storage.hnsw,
            c.storage.metric@ == "cosine"@,
            !c.storage.fts,
            c.indexing.exclude@.len() == 0,
            c.indexing.branches@.len() == 0,
            !c.reranking.enabled,
            c.reranking.model@ == "bge-base"@,
            c.reranking.pool == 100,
            c.summarization.provider@ == "extractive"@,
            c.summarization.require_local,
            c.summarization.target_tokens == 200,
    {
        ProjectConfig {
            project: Project::default(),
            state_dir: String::new(),
            language: Language::default(),
            embeddings: Embeddings::default(),
            storage: Storage::default(),
            indexing: Indexing::default(),
            reranking: Reranking::default(),
            summarization: Summarization::default(),
        }
    }
}

/// The database file a configuration resolves to: an explicit
/// `storage.db_path`, else `{state_dir}/index.duckdb`, else
/// `.devctx/state/index.duckdb` under the project path (or `.`).
pub open spec fn db_path_spec(db_path: Seq<char>, state_dir: Seq<char>, project_path: Seq<char>) -> Seq<char> {
    if db_path.len() > 0 {
        db_path
    } else if state_dir.len() > 0 {
        join_path(state_dir, "index.duckdb"@)
    } else {
        let base = if project_path.len() == 0 { "."@ } else { project_path };
        join_path(join_path(join_path(base, ".devctx"@), "state"@), "index.duckdb"@)
    }
}

impl ProjectConfig {
    /// Resolve the effective DuckDB database file path.
    ///
    /// Priority: explicit `storage.db_path` > `{state_dir}/index.duckdb` >
    /// `.devctx/state/index.duckdb` relative to `project.path`.
    pub fn db_path(&self) -> (p: String)
        ensures
            p@ == db_path_spec(self.storage.db_path@, self.state_dir@, self.project.path@),
    {
        if !self.storage.db_path.as_str().is_empty() {
            return owned(self.storage.db_path.as_str());
        }
        if !self.state_dir.as_str().is_empty() {
            return path_join(self.state_dir.as_str(), "index.duckdb");
        }
        let base = if self.project.path.as_str().is_empty() {
            owned(".")
        } else {
            owned(self.project.path.as_str())
        };
        let a = path_join(base.as_str(), ".devctx");
        let b = path_join(a.as_str(), "state");
        path_join(b.as_str(), "index.duckdb")
    }
}

/// `dir` and each of its ancestors up to the root, nearest first.
pub open spec fn ancestors(dir: Seq<char>) -> Seq<Seq<char>>
    decreases dir.len(),
{
    match parent_path(dir) {
        Some(p) => {
            proof {
                lemma_parent_shorter(dir);
            }
            seq![dir] + ancestors(p)
        },
        None => seq![dir],
    }
}

/// Where the config of a project containing `dir` may be, nearest first.
pub open spec fn config_candidates_spec(dir: Seq<char>) -> Seq<Seq<char>> {
    ancestors(dir).map_values(|d: Seq<char>| join_path(d, CONFIG_FILE_NAME@))
}

/// The places a config is looked for from `dir` (canonicalized by the
/// caller): `dir` itself, then each directory above it up to the root. The
/// first that is a file is the project's config.
pub fn config_candidates(dir: &str) -> (r: Vec<String>)
    ensures
        r@.map_values(|s: String| s@) == config_candidates_spec(dir@),
{
    let mut out: Vec<String> = Vec::new();
    let mut cur = owned(dir);
    loop
        invariant_except_break
            out@.map_values(|s: String| s@) + config_candidates_spec(cur@) == config_candidates_spec(dir@),
        ensures
            out@.map_values(|s: String| s@) == config_candidates_spec(dir@),
        decreases cur@.len(),
    {
        let ghost before = out@;
        let ghost here = cur@;
        out.push(path_join(cur.as_str(), CONFIG_FILE_NAME));
        proof {
            assert(out@.map_values(|s: String| s@) =~= before.map_values(|s: String| s@).push(join_path(here, CONFIG_FILE_NAME@)));
        }
        match parent_of(cur.as_str()) {
            Some(p) => {
                proof {
                    lemma_parent_shorter(here);
                    assert(ancestors(here) == seq![here] + ancestors(p@));
                    assert(config_candidates_spec(here) =~= seq![join_path(here, CONFIG_FILE_NAME@)] + config_candidates_spec(p@));
                    assert(out@.map_values(|s: String| s@) + config_candidates_spec(p@) =~=
                        before.map_values(|s: String| s@) + config_candidates_spec(here));
                }
                cur = p;
            },
            None => {
                proof {
                    assert(ancestors(here) == seq![here]);
                    assert(config_candidates_spec(here) =~= seq![join_path(here, CONFIG_FILE_NAME@)]);
                    assert(out@.map_values(|s: String| s@) =~= before.map_values(|s: String| s@) + config_candidates_spec(here));
                    assert(out@.map_values(|s: String| s@) == config_candidates_spec(dir@));
                }
                break;
            },
        }
    }
    out
}

/// The main worktree of the repository a directory belongs to, from what
/// `git rev-parse --git-common-dir` printed there (`None` where git failed):
/// in a linked worktree that is the absolute path of the main worktree's
/// `.git`, whose parent is the root wanted; a relative answer means this is
/// the main worktree itself.
pub fn main_worktree(common_dir: Option<&str>) -> (r: Option<String>)
    ensures
        match common_dir {
            Some(out) => {
                let c = trim(out@);
                if c.len() > 0 && c[0] == '/' {
                    match parent_path(c) {
                        Some(p) => r matches Some(x) && x@ == p,
                        None => r is None,
                    }
                } else {
                    r is None
                }
            },
            None => r is None,
        },
{
    match common_dir {
        Some(out) => {
            let c = trimmed(out);
            let v = crate::text::chars_of(c.as_str());
            if v.len() > 0 && v[0] == '/' {
                parent_of(c.as_str())
            } else {
                None
            }
        },
        None => None,
    }
}

/// `main` or `master`, whichever the repository has (`main` first), as the
/// sensible first entry of `indexing.branches`; neither means the caller
/// falls back to the checked-out branch rather than invent one.
pub fn detect_default_branch(has_main: bool, has_master: bool) -> (r: Option<&'static str>)
    ensures
        r matches Some(b) ==> (has_main && b@ == "main"@) || (!has_main && has_master && b@ == "master"@),
        r is None <==> !has_main && !has_master,
{
    if has_main {
        Some("main")
    } else if has_master {
        Some("master")
    } else {
        None
    }
}

} // verus!
