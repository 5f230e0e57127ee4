//! The central store's own logic: its configuration, where it lives, how a
//! client finds its daemon, and the decisions registering a repository makes.
//! The database and the network are the caller's business.

use vstd::prelude::*;
use vstd::utf8::encode_utf8;
use crate::config::{Embeddings, Language, Offline, Project, ProjectConfig, Reranking, Storage, Summarization, Indexing, db_path_spec};
use crate::dirs::{DirEnv, set_value, home_spec};
use crate::path::{file_name, file_name_of, join_path, path_join};
use crate::registry::{dimension_for, dimension_spec, EmbedSettings, opt_view};
use crate::text::{decimal, decimal_string, owned, push_char, push_decimal, push_str, same_text};

verus! {

/// `memory:` section — pins the vector space every global memory lives in.
#[derive(Debug, Clone)]
pub struct Memory {
    /// Provider used to embed global memories.
    pub provider: String,
    /// Model key used to embed global memories.
    pub model: String,
    /// Directory holding a user-defined ONNX model; empty falls back to
    /// `defaults.embeddings.model_dir`, then to `DEVCTX_MODEL_DIR`.
    pub model_dir: String,
}

impl Default for Memory {
    fn default() -> (m: Self)
        ensures
            m.provider@ == "local"@,
            m.model@ == "minilm-l6"@,
            m.model_dir@.len() == 0,
    {
        Memory { provider: owned("local"), model: owned("minilm-l6"), model_dir: String::new() }
    }
}

/// `defaults:` section — what a newly registered project inherits.
#[derive(Debug, Clone)]
pub struct Defaults {
    /// Default `embeddings:` for new projects.
    pub embeddings: Embeddings,
    /// Default `reranking:` for new projects.
    pub reranking: Reranking,
    /// Default `language:` for new projects; `None` means no preference, which
    /// is not the same as preferring the built-in.
    pub language: Option<Language>,
    /// Default `storage:` for new projects, `None` for the same reason.
    pub storage: Option<Storage>,
}

impl Default for Defaults {
    fn default() -> (d: Self)
        ensures
            d.embeddings.provider@ == "local"@,
            d.embeddings.model@ == "minilm-l6"@,
            d.embeddings.model_dir@.len() == 0,
            d.embeddings.offline == Offline::Auto,
            !d.reranking.enabled,
            d.reranking.model@ == "bge-base"@,
            d.reranking.pool == 100,
            d.language is None,
            d.storage is None,
    {
        Defaults {
            embeddings: Embeddings::default(),
            reranking: Reranking::default(),
            language: None,
            storage: None,
        }
    }
}

/// `reindex:` section — the daemon's optional background refresh.
#[derive(Debug, Clone)]
pub struct Reindex {
    /// Seconds between sweeps. `0` (the default) disables it entirely.
    pub every_seconds: u64,
}

impl Default for Reindex {
    fn default() -> (r: Self)
        ensures
            r.every_seconds == 0,
    {
        Reindex { every_seconds: 0 }
    }
}

/// The full central configuration.
#[derive(Debug, Clone)]
pub struct CentralConfig {
    /// `memory:` section.
    pub memory: Memory,
    /// `defaults:` section.
    pub defaults: Defaults,
    /// `reindex:` section.
    pub reindex: Reindex,
}

impl Default for CentralConfig {
    fn default() -> (c: Self)
        ensures
            c.memory.provider@ == "local"@,
            c.memory.model@ == "minilm-l6"@,
            c.memory.model_dir@.len() == 0,
            c.defaults.embeddings.provider@ == "local"@,
            c.defaults.embeddings.model@ == "minilm-l6"@,
            c.defaults.embeddings.model_dir@.len() == 0,
            c.defaults.embeddings.offline == Offline::Auto,
            !c.defaults.reranking.enabled,
            c.defaults.reranking.model@ == "bge-base"@,
            c.defaults.language is None,
            c.defaults.storage is None,
            c.reindex.every_seconds == 0,
    {
        CentralConfig { memory: Memory::default(), defaults: Defaults::default(), reindex: Reindex::default() }
    }
}

impl CentralConfig {
    /// Vector dimension of the central memory space, resolved without loading
    /// the model. `custom` is the dimension configured for the `custom`
    /// provider (`DEVCTX_EMBED_DIMENSION`), if any.
    pub fn memory_dimension(&self, custom: Option<usize>) -> (d: usize)
        ensures
            d == dimension_spec(self.memory.provider@, self.memory.model@, custom),
    {
        dimension_for(self.memory.provider.as_str(), self.memory.model.as_str(), custom)
    }

    /// Whether a project's embeddings land in the central memory's vector
    /// space, so the embedder it already loaded can be reused.
    pub fn shares_vector_space(&self, e: &Embeddings) -> (b: bool)
        ensures
            b == (e.provider@ == self.memory.provider@ && e.model@ == self.memory.model@),
    {
        same_text(e.provider.as_str(), self.memory.provider.as_str()) && same_text(
            e.model.as_str(),
            self.memory.model.as_str(),
        )
    }

    /// Settings for the embedder that owns the global vector space: the
    /// memory's provider and model, and its model directory (or the default
    /// embeddings' one when it names none). The environment values are as in
    /// [`EmbedSettings::from_config`].
    pub fn memory_embed_settings(
        &self,
        endpoint: &Option<String>,
        dimension: &Option<String>,
        model_dir: &Option<String>,
    ) -> (s: EmbedSettings)
        ensures
            s.provider@ == self.memory.provider@,
            s.model@ == self.memory.model@,
            !s.offline,
            opt_view(s.model_dir) == if self.memory.model_dir@.len() > 0 {
                Some(self.memory.model_dir@)
            } else if self.defaults.embeddings.model_dir@.len() > 0 {
                Some(self.defaults.embeddings.model_dir@)
            } else {
                opt_view(*model_dir)
            },
    {
        let dir = if self.memory.model_dir.as_str().is_empty() {
            owned(self.defaults.embeddings.model_dir.as_str())
        } else {
            owned(self.memory.model_dir.as_str())
        };
        let e = Embeddings {
            provider: owned(self.memory.provider.as_str()),
            model: owned(self.memory.model.as_str()),
            model_dir: dir,
            offline: Offline::Auto,
        };
        EmbedSettings::from_config(&e, endpoint, dimension, model_dir)
    }
}

/// What can go wrong deciding about the central store.
#[derive(Debug)]
pub enum CentralError {
    /// Neither `$HOME` nor `$USERPROFILE` is set, so XDG paths cannot be
    /// derived.
    NoHome,
    /// The central database was created for a different embedding model.
    DimensionMismatch {
        /// The central database.
        path: String,
        /// Dimension recorded on disk.
        found: usize,
        /// Dimension the current config resolves to.
        expected: usize,
    },
    /// The repository has no `.devctx/config.yaml` and creating one was not
    /// requested.
    NotInitialized(String),
    /// A relative repository path reached the registry.
    RelativePath(String),
    /// Another repository is already registered under this name.
    NameTaken {
        /// The contested name.
        name: String,
        /// Where the existing project lives.
        path: String,
    },
    /// No project is registered under this name.
    UnknownProject(String),
    /// Talking to the central daemon failed, or it returned an error.
    Request(String),
}

impl CentralError {
    /// The error as the user reads it.
    pub fn message(&self) -> (m: String)
        ensures
            m@ == match self {
                CentralError::NoHome => "cannot determine the home directory; set DEVCTX_HOME to choose a central store location"@,
                CentralError::DimensionMismatch { path, found, expected } => "central store at "@ + path@ + " holds "@
                    + decimal(*found as nat) + "-dimensional vectors but `memory.model` resolves to "@ + decimal(
                    *expected as nat,
                )
                    + "; changing the central memory model requires re-creating the store (its existing vectors cannot be compared against the new model)"@,
                CentralError::NotInitialized(p) => p@
                    + " is not a DevCtxEngine project (run `devctx init` there, or pass --init)"@,
                CentralError::RelativePath(p) => "repository path `"@ + p@
                    + "` must be absolute (it is resolved by whoever holds the store, not the caller)"@,
                CentralError::NameTaken { name, path } => "project name `"@ + name@ + "` is already taken by "@ + path@
                    + "; pass --name to choose another"@,
                CentralError::UnknownProject(n) => "no registered project named `"@ + n@ + "`"@,
                CentralError::Request(m) => m@,
            },
    {
        let mut s = String::new();
        match self {
            CentralError::NoHome => {
                push_str(&mut s, "cannot determine the home directory; set DEVCTX_HOME to choose a central store location");
            },
            CentralError::DimensionMismatch { path, found, expected } => {
                push_str(&mut s, "central store at ");
                push_str(&mut s, path.as_str());
                push_str(&mut s, " holds ");
                push_decimal(&mut s, *found as u64);
                push_str(&mut s, "-dimensional vectors but `memory.model` resolves to ");
                push_decimal(&mut s, *expected as u64);
                push_str(
                    &mut s,
                    "; changing the central memory model requires re-creating the store (its existing vectors cannot be compared against the new model)",
                );
            },
            CentralError::NotInitialized(p) => {
                push_str(&mut s, p.as_str());
                push_str(&mut s, " is not a DevCtxEngine project (run `devctx init` there, or pass --init)");
            },
            CentralError::RelativePath(p) => {
                push_str(&mut s, "repository path `");
                push_str(&mut s, p.as_str());
                push_str(&mut s, "` must be absolute (it is resolved by whoever holds the store, not the caller)");
            },
            CentralError::NameTaken { name, path } => {
                push_str(&mut s, "project name `");
                push_str(&mut s, name.as_str());
                push_str(&mut s, "` is already taken by ");
                push_str(&mut s, path.as_str());
                push_str(&mut s, "; pass --name to choose another");
            },
            CentralError::UnknownProject(n) => {
                push_str(&mut s, "no registered project named `");
                push_str(&mut s, n.as_str());
                push_str(&mut s, "`");
            },
            CentralError::Request(m) => {
                push_str(&mut s, m.as_str());
            },
        }
        s
    }
}

/// Resolved locations of everything the central store owns.
#[derive(Debug, Clone, PartialEq, Eq)]
pub struct CentralPaths {
    /// Directory holding the database and the discovery file.
    pub dir: String,
    /// The central config file.
    pub config: String,
    /// The central DuckDB file.
    pub db: String,
    /// Discovery file advertising the central daemon.
    pub serve_file: String,
}

/// The central home's data directory: `$XDG_DATA_HOME/devctx`, else
/// `~/.local/share/devctx`.
pub open spec fn central_data_spec(env: DirEnv) -> Option<Seq<char>> {
    if set_value(env.xdg_data_home) is Some {
        Some(join_path(set_value(env.xdg_data_home).unwrap(), "devctx"@))
    } else {
        match home_spec(env) {
            Some(h) => Some(join_path(join_path(join_path(h, ".local"@), "share"@), "devctx"@)),
            None => None,
        }
    }
}

/// The central home's config directory: `$XDG_CONFIG_HOME/devctx`, else
/// `~/.config/devctx`.
pub open spec fn central_config_spec(env: DirEnv) -> Option<Seq<char>> {
    if set_value(env.xdg_config_home) is Some {
        Some(join_path(set_value(env.xdg_config_home).unwrap(), "devctx"@))
    } else {
        match home_spec(env) {
            Some(h) => Some(join_path(join_path(h, ".config"@), "devctx"@)),
            None => None,
        }
    }
}

impl CentralPaths {
    /// Put config, database and discovery file together under one directory.
    pub fn rooted_at(dir: &str) -> (p: Self)
        ensures
            p.dir@ == dir@,
            p.config@ == join_path(dir@, "config.yaml"@),
            p.db@ == join_path(dir@, "central.duckdb"@),
            p.serve_file@ == join_path(dir@, "serve.json"@),
    {
        CentralPaths {
            config: path_join(dir, "config.yaml"),
            db: path_join(dir, "central.duckdb"),
            serve_file: path_join(dir, "serve.json"),
            dir: owned(dir),
        }
    }

    /// Resolve from the environment, as read by the caller: `DEVCTX_HOME`
    /// puts everything under one directory; otherwise the data follows XDG
    /// (`~/.local/share/devctx`) and the config sits with the user's other
    /// configs (`~/.config/devctx/config.yaml`). Without a home to derive
    /// those from, `NoHome`.
    pub fn resolve(env: &DirEnv) -> (r: Result<Self, CentralError>)
        ensures
            set_value(env.devctx_home) is Some ==> (r matches Ok(p) && p.dir@ == set_value(env.devctx_home).unwrap()
                && p.config@ == join_path(p.dir@, "config.yaml"@) && p.db@ == join_path(p.dir@, "central.duckdb"@)
                && p.serve_file@ == join_path(p.dir@, "serve.json"@)),
            set_value(env.devctx_home) is None && central_data_spec(*env) is Some && central_config_spec(*env) is Some
                ==> (r matches Ok(p) && p.dir@ == central_data_spec(*env).unwrap()
                && p.config@ == join_path(central_config_spec(*env).unwrap(), "config.yaml"@)
                && p.db@ == join_path(p.dir@, "central.duckdb"@)
                && p.serve_file@ == join_path(p.dir@, "serve.json"@)),
            set_value(env.devctx_home) is None && (central_data_spec(*env) is None || central_config_spec(*env) is None)
                ==> (r matches Err(CentralError::NoHome)),
    {
        if let Some(home) = env_value(&env.devctx_home) {
            return Ok(CentralPaths::rooted_at(home.as_str()));
        }
        let data = match env_value(&env.xdg_data_home) {
            Some(d) => path_join(d.as_str(), "devctx"),
            None => match home_value(env) {
                Some(h) => {
                    let a = path_join(h.as_str(), ".local");
                    let b = path_join(a.as_str(), "share");
                    path_join(b.as_str(), "devctx")
                },
                None => {
                    return Err(CentralError::NoHome);
                },
            },
        };
        let config = match env_value(&env.xdg_config_home) {
            Some(d) => path_join(d.as_str(), "devctx"),
            None => match home_value(env) {
                Some(h) => {
                    let a = path_join(h.as_str(), ".config");
                    path_join(a.as_str(), "devctx")
                },
                None => {
                    return Err(CentralError::NoHome);
                },
            },
        };
        Ok(CentralPaths {
            config: path_join(config.as_str(), "config.yaml"),
            db: path_join(data.as_str(), "central.duckdb"),
            serve_file: path_join(data.as_str(), "serve.json"),
            dir: data,
        })
    }
}

fn env_value(v: &Option<String>) -> (r: Option<String>)
    ensures
        match set_value(*v) {
            Some(s) => r matches Some(x) && x@ == s,
            None => r is None,
        },
{
    match v {
        Some(s) => if s.as_str().is_empty() { None } else { Some(owned(s.as_str())) },
        None => None,
    }
}

fn home_value(env: &DirEnv) -> (r: Option<String>)
    ensures
        match home_spec(*env) {
            Some(s) => r matches Some(x) && x@ == s,
            None => r is None,
        },
{
    if env.home.is_some() {
        env_value(&env.home)
    } else {
        env_value(&env.userprofile)
    }
}

/// The store's width on disk must match what the config resolves to: a
/// changed `memory.model` is refused with an explanation rather than
/// corrupting the store. A store with no vectors yet has no width to check.
pub fn check_dimension(db: &str, found: Option<usize>, expected: usize) -> (r: Result<(), CentralError>)
    ensures
        match found {
            Some(f) => if f != expected {
                r matches Err(CentralError::DimensionMismatch { path, found: ff, expected: ee }) && path@ == db@ && ff
                    == f && ee == expected
            } else {
                r is Ok
            },
            None => r is Ok,
        },
{
    match found {
        Some(f) => {
            if f != expected {
                Err(CentralError::DimensionMismatch { path: owned(db), found: f, expected })
            } else {
                Ok(())
            }
        },
        None => Ok(()),
    }
}

/// What `devctx serve --central` advertises so clients can find it.
#[derive(Debug, Clone)]
pub struct ServeInfo {
    /// `host:port` the daemon is bound to.
    pub addr: String,
    /// Bearer token it requires (if any).
    pub token: Option<String>,
    /// Owner process id (informational).
    pub pid: Option<u32>,
}

/// Path of the discovery file advertising the central daemon.
pub fn serve_file(paths: &CentralPaths) -> (p: String)
    ensures
        p@ == paths.serve_file@,
{
    owned(paths.serve_file.as_str())
}

/// FNV-1a over `bytes`.
pub open spec fn fnv1a(bytes: Seq<u8>) -> u64
    decreases bytes.len(),
{
    if bytes.len() == 0 {
        0xcbf29ce484222325u64
    } else {
        (fnv1a(bytes.drop_last()) ^ (bytes.last() as u64)).wrapping_mul(0x100000001b3u64)
    }
}

/// FNV-1a of the bytes of `s`.
pub fn fnv1a_of(s: &str) -> (h: u64)
    ensures
        h == fnv1a(encode_utf8(s@)),
{
    let bytes = s.as_bytes();
    let mut h: u64 = 0xcbf29ce484222325;
    let mut i: usize = 0;
    while i < bytes.len()
        invariant
            bytes@ == encode_utf8(s@),
            i <= bytes@.len(),
            h == fnv1a(bytes@.take(i as int)),
        decreases bytes@.len() - i,
    {
        assert(bytes@.take(i + 1).drop_last() =~= bytes@.take(i as int));
        h = h ^ (bytes[i] as u64);
        h = h.wrapping_mul(0x100000001b3);
        i = i + 1;
    }
    assert(bytes@.take(bytes@.len() as int) =~= bytes@);
    h
}

/// The loopback address a daemon for this central home binds to: a port in
/// 60000..65000 picked by hashing the home directory, so two different homes
/// never fight over a port, and clear of the per-project band below it.
pub open spec fn central_addr_spec(dir: Seq<char>) -> Seq<char> {
    "127.0.0.1:"@ + decimal((60000 + fnv1a(encode_utf8(dir)) % 5000) as nat)
}

/// The address a daemon for this home should bind to.
pub fn default_addr(paths: &CentralPaths) -> (a: String)
    ensures
        a@ == central_addr_spec(paths.dir@),
{
    let h = fnv1a_of(paths.dir.as_str());
    let port: u16 = 60000 + (h % 5000) as u16;
    let mut a = owned("127.0.0.1:");
    push_decimal(&mut a, port as u64);
    a
}

/// A reachable central daemon: where to send requests, and the token they
/// carry.
pub struct CentralClient {
    base: String,
    token: Option<String>,
}

impl CentralClient {
    /// A client for the daemon advertised by `info`.
    pub fn from_info(info: &ServeInfo) -> (c: Self)
        ensures
            c.base_spec() == "http://"@ + info.addr@,
            c.token_spec() == opt_view(info.token),
    {
        let mut base = owned("http://");
        push_str(&mut base, info.addr.as_str());
        let token = match &info.token {
            Some(t) => Some(owned(t.as_str())),
            None => None,
        };
        CentralClient { base, token }
    }

    /// The daemon's base URL.
    pub closed spec fn base_spec(&self) -> Seq<char> {
        self.base@
    }

    /// The token requests carry.
    pub closed spec fn token_spec(&self) -> Option<Seq<char>> {
        opt_view(self.token)
    }

    /// The full URL of `path` on the daemon.
    pub fn url(&self, path: &str) -> (u: String)
        ensures
            u@ == self.base_spec() + path@,
    {
        let mut u = owned(self.base.as_str());
        push_str(&mut u, path);
        u
    }

    /// The `Authorization` header value, when the daemon requires a token.
    pub fn authorization(&self) -> (h: Option<String>)
        ensures
            match self.token_spec() {
                Some(t) => h matches Some(v) && v@ == "Bearer "@ + t,
                None => h is None,
            },
    {
        match &self.token {
            Some(t) => {
                let mut v = owned("Bearer ");
                push_str(&mut v, t.as_str());
                Some(v)
            },
            None => None,
        }
    }
}

/// Whether a byte is left as it is in a URL path segment.
pub open spec fn unreserved(b: u8) -> bool {
    (65 <= b <= 90) || (97 <= b <= 122) || (48 <= b <= 57) || b == 45 || b == 95 || b == 46 || b == 126
}

/// An uppercase hexadecimal digit for `n < 16`.
pub open spec fn hex_upper(n: nat) -> char {
    if n < 10 { ((n + 48) as u8) as char } else { ((n + 55) as u8) as char }
}

/// Percent-encoding of a path segment: unreserved bytes as they are, every
/// other byte as `%XX`.
pub open spec fn percent_encode(bytes: Seq<u8>) -> Seq<char>
    decreases bytes.len(),
{
    if bytes.len() == 0 {
        seq![]
    } else {
        let b = bytes.last();
        percent_encode(bytes.drop_last()) + if unreserved(b) {
            seq![b as char]
        } else {
            seq!['%', hex_upper((b / 16) as nat), hex_upper((b % 16) as nat)]
        }
    }
}

fn hex_upper_char(n: u8) -> (c: char)
    requires
        n < 16,
    ensures
        c == hex_upper(n as nat),
{
    if n < 10 { (n + 48) as char } else { (n + 55) as char }
}

/// Minimal percent-encoding for a path segment.
pub fn urlencode(s: &str) -> (r: String)
    ensures
        r@ == percent_encode(encode_utf8(s@)),
{
    let bytes = s.as_bytes();
    let mut out = String::new();
    let mut i: usize = 0;
    while i < bytes.len()
        invariant
            bytes@ == encode_utf8(s@),
            i <= bytes@.len(),
            out@ == percent_encode(bytes@.take(i as int)),
        decreases bytes@.len() - i,
    {
        let b = bytes[i];
        assert(bytes@.take(i + 1).drop_last() =~= bytes@.take(i as int));
        let ghost before = out@;
        if (65 <= b && b <= 90) || (97 <= b && b <= 122) || (48 <= b && b <= 57) || b == 45 || b == 95 || b == 46
            || b == 126 {
            push_char(&mut out, b as char);
        } else {
            push_char(&mut out, '%');
            push_char(&mut out, hex_upper_char(b / 16));
            push_char(&mut out, hex_upper_char(b % 16));
        }
        assert(out@ =~= percent_encode(bytes@.take(i + 1)));
        i = i + 1;
    }
    assert(bytes@.take(bytes@.len() as int) =~= bytes@);
    out
}


/// One registry row.
#[derive(Debug, Clone)]
pub struct ProjectRecord {
    pub name: String,
    pub path: String,
    pub config_path: String,
    pub db_path: String,
    pub embed_provider: String,
    pub embed_model: String,
    pub embed_dim: i64,
    pub description: String,
    pub tags: String,
    pub last_commit: String,
    pub last_branch: String,
    pub last_indexed_at: String,
    pub file_count: i64,
    pub symbol_count: i64,
    pub chunk_count: i64,
    pub registered_at: String,
    pub updated_at: String,
    pub active: bool,
}

/// Inputs for registering a repository.
#[derive(Debug, Clone)]
pub struct RegisterRequest {
    /// Repository root (need not be canonical).
    pub root: String,
    /// Explicit project name; defaults to the config's name, then the
    /// directory.
    pub name: Option<String>,
    /// Free-text description, so an agent can pick a project without opening
    /// it.
    pub description: String,
    /// Comma-separated tags.
    pub tags: String,
    /// Write a `.devctx/config.yaml` from the central defaults when the
    /// repository has none, instead of refusing.
    pub create_config: bool,
    /// Caller-provided timestamp.
    pub now: String,
}

/// `SystemTime` from std.
#[verifier::external_type_specification]
#[verifier::external_body]
pub struct ExSystemTime(std::time::SystemTime);

/// `SystemTime::now` from std: the current time of the system clock.
#[verifier::external_body]
fn system_now() -> std::time::SystemTime {
    std::time::SystemTime::now()
}

/// `SystemTime::duration_since(UNIX_EPOCH)` from std, in whole seconds:
/// `None` when the time lies before the epoch. Which number comes back
/// depends on the clock, so nothing is stated about it.
#[verifier::external_body]
fn seconds_since_epoch(t: std::time::SystemTime) -> Option<u64> {
    t.duration_since(std::time::UNIX_EPOCH).ok().map(|d| d.as_secs())
}

/// The stamp a clock reading gives: the whole seconds since the Unix epoch in
/// decimal, or empty for a clock that reads before the epoch.
pub fn stamp_of(secs: Option<u64>) -> (s: String)
    ensures
        s@ == match secs {
            Some(n) => decimal(n as nat),
            None => Seq::<char>::empty(),
        },
{
    match secs {
        Some(n) => decimal_string(n),
        None => String::new(),
    }
}

/// Seconds since the Unix epoch, as a string — the timestamp format the rest
/// of the store uses; empty when the clock reads before the epoch. The
/// clock is read here; [`stamp_of`] states what each reading gives.
pub fn now_stamp() -> (s: String)
    ensures
        s@.len() == 0 || exists|n: nat| s@ == decimal(n),
{
    stamp_of(seconds_since_epoch(system_now()))
}

impl Default for RegisterRequest {
    fn default() -> (r: Self)
        ensures
            r.root@ == "."@,
            r.name is None,
            r.description@.len() == 0,
            r.tags@.len() == 0,
            !r.create_config,
            r.now@.len() == 0 || exists|n: nat| r.now@ == decimal(n),
    {
        RegisterRequest {
            root: owned("."),
            name: None,
            description: String::new(),
            tags: String::new(),
            create_config: false,
            now: now_stamp(),
        }
    }
}

/// A registry path must be absolute: the daemon's working directory is not
/// the caller's, so resolving a relative one would register the wrong
/// repository.
pub fn check_absolute(root: &str) -> (r: Result<(), CentralError>)
    ensures
        root@.len() > 0 && root@[0] == '/' ==> r is Ok,
        !(root@.len() > 0 && root@[0] == '/') ==> (r matches Err(CentralError::RelativePath(p)) && p@ == root@),
{
    let v = crate::text::chars_of(root);
    if v.len() > 0 && v[0] == '/' {
        Ok(())
    } else {
        Err(CentralError::RelativePath(owned(root)))
    }
}

/// A directory's name, or `project` when it has none.
pub open spec fn dir_name_spec(root: Seq<char>) -> Seq<char> {
    match file_name(root) {
        Some(n) => n,
        None => "project"@,
    }
}

/// A directory's name, or `project` when it has none.
pub fn dir_name(root: &str) -> (r: String)
    ensures
        r@ == dir_name_spec(root@),
{
    match file_name_of(root) {
        Some(n) => n,
        None => owned("project"),
    }
}

/// The name a repository is registered under: the one asked for, else the
/// one its config gives, else its directory's name (empty names do not count).
pub open spec fn chosen_name_spec(asked: Option<Seq<char>>, configured: Seq<char>, root: Seq<char>) -> Seq<char> {
    if asked is Some && asked.unwrap().len() > 0 {
        asked.unwrap()
    } else if configured.len() > 0 {
        configured
    } else {
        dir_name_spec(root)
    }
}

/// The name a repository is registered under.
pub fn chosen_name(asked: &Option<String>, configured: &str, root: &str) -> (r: String)
    ensures
        r@ == chosen_name_spec(opt_view(*asked), configured@, root@),
{
    match asked {
        Some(n) => {
            if !n.as_str().is_empty() {
                return owned(n.as_str());
            }
        },
        None => {},
    }
    if !configured.is_empty() {
        owned(configured)
    } else {
        dir_name(root)
    }
}

/// A project config seeded from the central defaults: named as asked (or
/// after its directory), placed at `root`, in no group — group membership is
/// a deliberate statement, not something to inherit — with the default
/// embeddings and reranking, and everything else at the built-in default.
pub fn project_config_for(central: &CentralConfig, root: &str, name: &Option<String>) -> (c: ProjectConfig)
    ensures
        c.project.name@ == chosen_name_spec(opt_view(*name), seq![], root@),
        c.project.path@ == root@,
        c.project.group@.len() == 0,
        c.state_dir@.len() == 0,
        c.language == Language::En,
        c.embeddings.provider@ == central.defaults.embeddings.provider@,
        c.embeddings.model@ == central.defaults.embeddings.model@,
        c.embeddings.model_dir@ == central.defaults.embeddings.model_dir@,
        c.embeddings.offline == central.defaults.embeddings.offline,
        c.reranking.enabled == central.defaults.reranking.enabled,
        c.reranking.model@ == central.defaults.reranking.model@,
        c.reranking.model_dir@ == central.defaults.reranking.model_dir@,
        c.reranking.pool == central.defaults.reranking.pool,
        c.storage.db_path@.len() == 0,
        c.storage.hnsw,
        c.storage.metric@ == "cosine"@,
        c.indexing.branches@.len() == 0,
        c.indexing.exclude@.len() == 0,
{
    let e = &central.defaults.embeddings;
    let r = &central.defaults.reranking;
    let nm = chosen_name(name, "", root);
    proof {
        reveal_strlit("");
    }
    ProjectConfig {
        project: Project { name: nm, path: owned(root), group: String::new() },
        state_dir: String::new(),
        language: Language::En,
        embeddings: Embeddings {
            provider: owned(e.provider.as_str()),
            model: owned(e.model.as_str()),
            model_dir: owned(e.model_dir.as_str()),
            offline: e.offline,
        },
        storage: Storage::default(),
        indexing: Indexing::default(),
        reranking: Reranking {
            enabled: r.enabled,
            model: owned(r.model.as_str()),
            model_dir: owned(r.model_dir.as_str()),
            pool: r.pool,
        },
        summarization: Summarization::default(),
    }
}

/// A caller-supplied value, else what was already stored, so a plain
/// re-registration does not wipe a description set earlier.
pub open spec fn pick_spec(incoming: Seq<char>, previous: Option<Seq<char>>) -> Seq<char> {
    if incoming.len() > 0 {
        incoming
    } else {
        match previous {
            Some(p) => p,
            None => seq![],
        }
    }
}

/// Prefer a caller-supplied value, falling back to what was already stored.
pub fn pick(incoming: &str, previous: Option<&String>) -> (r: String)
    ensures
        r@ == pick_spec(incoming@, match previous { Some(p) => Some(p@), None => None }),
{
    if !incoming.is_empty() {
        return owned(incoming);
    }
    match previous {
        Some(p) => owned(p.as_str()),
        None => String::new(),
    }
}

/// Refuse a name another repository already holds, rather than silently
/// repointing it.
pub fn name_conflict(name: &str, path: &str, existing: &Option<ProjectRecord>) -> (r: Option<CentralError>)
    ensures
        match existing {
            Some(e) => if e.path@ != path@ {
                r matches Some(CentralError::NameTaken { name: n, path: p }) && n@ == name@ && p@ == e.path@
            } else {
                r is None
            },
            None => r is None,
        },
{
    match existing {
        Some(e) => {
            if !same_text(e.path.as_str(), path) {
                Some(CentralError::NameTaken { name: owned(name), path: owned(e.path.as_str()) })
            } else {
                None
            }
        },
        None => None,
    }
}

/// The row to drop when a repository is re-registered under a new name: its
/// old one, so renaming moves the row instead of duplicating it.
pub fn replaced_name(name: &str, previous: &Option<ProjectRecord>) -> (r: Option<String>)
    ensures
        match previous {
            Some(p) => if p.name@ != name@ {
                r matches Some(n) && n@ == p.name@
            } else {
                r is None
            },
            None => r is None,
        },
{
    match previous {
        Some(p) => {
            if !same_text(p.name.as_str(), name) {
                Some(owned(p.name.as_str()))
            } else {
                None
            }
        },
        None => None,
    }
}

/// `r` is the row registering a repository writes. Re-registering the same
/// path carries the existing entry forward: its description and tags unless
/// new ones are given, its index statistics, and its registration time.
pub open spec fn is_registration_record(
    req: RegisterRequest,
    name: Seq<char>,
    path: Seq<char>,
    config_path: Seq<char>,
    cfg: ProjectConfig,
    custom: Option<usize>,
    previous: Option<ProjectRecord>,
    r: ProjectRecord,
) -> bool {
    &&& r.name@ == name
    &&& r.path@ == path
    &&& r.config_path@ == config_path
    &&& r.db_path@ == db_path_spec(cfg.storage.db_path@, cfg.state_dir@, cfg.project.path@)
    &&& r.embed_provider@ == cfg.embeddings.provider@
    &&& r.embed_model@ == cfg.embeddings.model@
    &&& r.embed_dim == dimension_spec(cfg.embeddings.provider@, cfg.embeddings.model@, custom) as i64
    &&& r.description@ == pick_spec(req.description@, match previous { Some(p) => Some(p.description@), None => None })
    &&& r.tags@ == pick_spec(req.tags@, match previous { Some(p) => Some(p.tags@), None => None })
    &&& r.updated_at@ == req.now@
    &&& r.active
    &&& match previous {
        Some(p) => {
            &&& r.last_commit@ == p.last_commit@
            &&& r.last_branch@ == p.last_branch@
            &&& r.last_indexed_at@ == p.last_indexed_at@
            &&& r.file_count == p.file_count
            &&& r.symbol_count == p.symbol_count
            &&& r.chunk_count == p.chunk_count
            &&& r.registered_at@ == p.registered_at@
        },
        None => {
            &&& r.last_commit@.len() == 0
            &&& r.last_branch@.len() == 0
            &&& r.last_indexed_at@.len() == 0
            &&& r.file_count == 0
            &&& r.symbol_count == 0
            &&& r.chunk_count == 0
            &&& r.registered_at@ == req.now@
        },
    }
}

/// The row registering a repository writes (see [`is_registration_record`]).
pub fn registration_record(
    req: &RegisterRequest,
    name: String,
    path: &str,
    config_path: &str,
    cfg: &ProjectConfig,
    custom: Option<usize>,
    previous: &Option<ProjectRecord>,
) -> (r: ProjectRecord)
    ensures
        is_registration_record(*req, name@, path@, config_path@, *cfg, custom, *previous, r),
{
    let dim = dimension_for(cfg.embeddings.provider.as_str(), cfg.embeddings.model.as_str(), custom);
    let prev_desc = match previous {
        Some(p) => Some(&p.description),
        None => None,
    };
    let prev_tags = match previous {
        Some(p) => Some(&p.tags),
        None => None,
    };
    let description = pick(req.description.as_str(), prev_desc);
    let tags = pick(req.tags.as_str(), prev_tags);
    let (last_commit, last_branch, last_indexed_at, file_count, symbol_count, chunk_count, registered_at) =
        match previous {
        Some(p) => (
            owned(p.last_commit.as_str()),
            owned(p.last_branch.as_str()),
            owned(p.last_indexed_at.as_str()),
            p.file_count,
            p.symbol_count,
            p.chunk_count,
            owned(p.registered_at.as_str()),
        ),
        None => (String::new(), String::new(), String::new(), 0i64, 0i64, 0i64, owned(req.now.as_str())),
    };
    ProjectRecord {
        name,
        path: owned(path),
        config_path: owned(config_path),
        db_path: cfg.db_path(),
        embed_provider: owned(cfg.embeddings.provider.as_str()),
        embed_model: owned(cfg.embeddings.model.as_str()),
        embed_dim: dim as i64,
        description,
        tags,
        last_commit,
        last_branch,
        last_indexed_at,
        file_count,
        symbol_count,
        chunk_count,
        registered_at,
        updated_at: owned(req.now.as_str()),
        active: true,
    }
}

/// What adopting a project's model as the machine default did to the shared
/// memory model.
#[derive(Debug, Clone, Copy, PartialEq, Eq, Structural)]
pub enum Adoption {
    /// The shared memory model was already this one.
    AlreadyShared,
    /// The shared memory model now is this one too.
    Repointed,
    /// Shared memories exist under another model, so that model stays; only
    /// new projects inherit this one.
    KeptExisting,
}

/// Make a project's embeddings the machine default for new projects, and the
/// model shared memories are embedded with — unless memories already live in
/// another model's vector space (`has_memories`, which a caller that cannot
/// tell must pass as `true`), in which case that space is left alone.
pub fn adopt_as_machine_default(cfg: &mut CentralConfig, embeddings: &Embeddings, has_memories: bool) -> (r: Adoption)
    ensures
        final(cfg).defaults.embeddings.provider@ == embeddings.provider@,
        final(cfg).defaults.embeddings.model@ == embeddings.model@,
        final(cfg).defaults.embeddings.model_dir@ == embeddings.model_dir@,
        final(cfg).defaults.embeddings.offline == embeddings.offline,
        final(cfg).defaults.reranking == old(cfg).defaults.reranking,
        final(cfg).defaults.language == old(cfg).defaults.language,
        final(cfg).defaults.storage == old(cfg).defaults.storage,
        final(cfg).reindex == old(cfg).reindex,
        r == if old(cfg).memory.model@ == embeddings.model@ {
            Adoption::AlreadyShared
        } else if has_memories {
            Adoption::KeptExisting
        } else {
            Adoption::Repointed
        },
        r == Adoption::KeptExisting ==> final(cfg).memory == old(cfg).memory,
        r != Adoption::KeptExisting ==> final(cfg).memory.provider@ == embeddings.provider@
            && final(cfg).memory.model@ == embeddings.model@
            && final(cfg).memory.model_dir@ == embeddings.model_dir@,
{
    let already = same_text(cfg.memory.model.as_str(), embeddings.model.as_str());
    cfg.defaults.embeddings = embeddings.duplicate();
    if !already && has_memories {
        Adoption::KeptExisting
    } else {
        cfg.memory.provider = owned(embeddings.provider.as_str());
        cfg.memory.model = owned(embeddings.model.as_str());
        cfg.memory.model_dir = owned(embeddings.model_dir.as_str());
        if already { Adoption::AlreadyShared } else { Adoption::Repointed }
    }
}

/// The registration that refreshing a project amounts to: its recorded root,
/// name, description and tags, registered again so an edit to its config
/// reaches the registry — and never writing a config it does not have.
pub fn refresh_request(existing: &ProjectRecord, now: &str) -> (r: RegisterRequest)
    ensures
        r.root@ == existing.path@,
        r.name matches Some(n) && n@ == existing.name@,
        r.description@ == existing.description@,
        r.tags@ == existing.tags@,
        !r.create_config,
        r.now@ == now@,
{
    RegisterRequest {
        root: owned(existing.path.as_str()),
        name: Some(owned(existing.name.as_str())),
        description: owned(existing.description.as_str()),
        tags: owned(existing.tags.as_str()),
        create_config: false,
        now: owned(now),
    }
}

/// What registering a repository does to the registry.
pub struct Registration {
    /// The row to write.
    pub record: ProjectRecord,
    /// The repository's old row to drop first, when it is being renamed.
    pub drop: Option<String>,
}

/// Register the repository at `path` under `name`, given the row that name
/// already has (`by_name`) and the row this path already has (`by_path`):
/// refused when the name belongs to another repository; otherwise the row to
/// write, carrying the path's existing entry forward, and the old row to drop
/// when the repository is being renamed — so re-registering never creates a
/// second row.
pub fn register_decision(
    req: &RegisterRequest,
    name: String,
    path: &str,
    config_path: &str,
    cfg: &ProjectConfig,
    custom: Option<usize>,
    by_name: &Option<ProjectRecord>,
    by_path: &Option<ProjectRecord>,
) -> (r: Result<Registration, CentralError>)
    ensures
        match by_name {
            Some(e) => e.path@ != path@ ==> (r matches Err(CentralError::NameTaken { name: n, path: p })
                && n@ == name@ && p@ == e.path@),
            None => true,
        },
        !(by_name matches Some(e) && e.path@ != path@) ==> (r matches Ok(reg)
            && is_registration_record(*req, name@, path@, config_path@, *cfg, custom, *by_path, reg.record)
            && match by_path {
                Some(p) => if p.name@ != name@ { reg.drop matches Some(d) && d@ == p.name@ } else { reg.drop is None },
                None => reg.drop is None,
            }),
{
    match name_conflict(name.as_str(), path, by_name) {
        Some(e) => return Err(e),
        None => {},
    }
    let drop = replaced_name(name.as_str(), by_path);
    let record = registration_record(req, name, path, config_path, cfg, custom, by_path);
    Ok(Registration { record, drop })
}

/// The registry after a registration: the old row dropped, if any, then the
/// new row written under its name.
pub open spec fn apply_registration(registry: Map<Seq<char>, ProjectRecord>, reg: Registration) -> Map<Seq<char>, ProjectRecord> {
    let kept = match reg.drop {
        Some(d) => registry.remove(d@),
        None => registry,
    };
    kept.insert(reg.record.name@, reg.record)
}

/// Every row is filed under its own name, and no two rows share a path.
pub open spec fn registry_consistent(registry: Map<Seq<char>, ProjectRecord>) -> bool {
    &&& forall|n: Seq<char>| #[trigger] registry.contains_key(n) ==> registry[n].name@ == n
    &&& forall|a: Seq<char>, b: Seq<char>|
        #[trigger] registry.contains_key(a) && #[trigger] registry.contains_key(b) && registry[a].path@ == registry[b].path@
            ==> a == b
}

/// The row the registry holds for `path`, if any.
pub open spec fn row_for_path(registry: Map<Seq<char>, ProjectRecord>, path: Seq<char>, row: Option<ProjectRecord>) -> bool {
    match row {
        Some(p) => registry.contains_key(p.name@) && registry[p.name@] == p && p.path@ == path,
        None => forall|n: Seq<char>| #[trigger] registry.contains_key(n) ==> registry[n].path@ != path,
    }
}

/// Re-registering a repository — under its old name or a new one — never
/// creates a second row: afterwards exactly one row has its path, filed under
/// the name asked for, and the registry stays consistent.
pub proof fn law_registration_keeps_one_row_per_path(
    registry: Map<Seq<char>, ProjectRecord>,
    req: RegisterRequest,
    name: Seq<char>,
    path: Seq<char>,
    config_path: Seq<char>,
    cfg: ProjectConfig,
    custom: Option<usize>,
    by_path: Option<ProjectRecord>,
    reg: Registration,
)
    requires
        registry_consistent(registry),
        row_for_path(registry, path, by_path),
        registry.contains_key(name) ==> registry[name].path@ == path,
        is_registration_record(req, name, path, config_path, cfg, custom, by_path, reg.record),
        match by_path {
            Some(p) => if p.name@ != name { reg.drop matches Some(d) && d@ == p.name@ } else { reg.drop is None },
            None => reg.drop is None,
        },
    ensures
        ({
            let after = apply_registration(registry, reg);
            &&& registry_consistent(after)
            &&& after.contains_key(name) && after[name].path@ == path
            &&& forall|n: Seq<char>| #[trigger] after.contains_key(n) && after[n].path@ == path ==> n == name
        }),
{
    let after = apply_registration(registry, reg);
    let kept = match reg.drop {
        Some(d) => registry.remove(d@),
        None => registry,
    };
    assert forall|n: Seq<char>| #[trigger] after.contains_key(n) && after[n].path@ == path implies n == name by {
        if n != name {
            assert(kept.contains_key(n));
            assert(registry.contains_key(n));
            match by_path {
                Some(p) => {
                    assert(registry[p.name@].path@ == path);
                    assert(n == p.name@);
                },
                None => {},
            }
        }
    }
    assert forall|a: Seq<char>| #[trigger] after.contains_key(a) implies after[a].name@ == a by {
        if a != name {
            assert(registry.contains_key(a));
        }
    }
    assert forall|a: Seq<char>, b: Seq<char>|
        #[trigger] after.contains_key(a) && #[trigger] after.contains_key(b) && after[a].path@ == after[b].path@
        implies a == b by {
        if a != name && b != name {
            assert(registry.contains_key(a) && registry.contains_key(b));
        } else if a == name && b != name {
            assert(after[b].path@ == path);
        } else if b == name && a != name {
            assert(after[a].path@ == path);
        }
    }
}

} // verus!
