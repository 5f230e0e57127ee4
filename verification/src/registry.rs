//! The embedding model registry: model keys mapped to dimensions and
//! backends, and the dimension a provider/model pair has without loading it.

use vstd::prelude::*;
use crate::config::{Embeddings, Offline};
use crate::text::{owned, parse_usize, parse_usize_spec, same_text};

verus! {

/// Specification of a locally-runnable embedding model.
#[derive(Debug, Clone, Copy, PartialEq, Eq)]
pub struct LocalModelSpec {
    /// Registry key (e.g. `minilm-l6`).
    pub key: &'static str,
    /// Output vector dimension.
    pub dimension: usize,
    /// HuggingFace repo id.
    pub hf_repo: &'static str,
    /// fastembed built-in model identifier, or `None` for a user-defined ONNX
    /// model loaded from a local directory.
    pub builtin: Option<&'static str>,
    /// Encoder input token cap, if the model has a notably small one.
    pub max_input_tokens: Option<usize>,
}

/// A registry entry, as plain values.
pub struct ModelFacts {
    pub key: Seq<char>,
    pub dimension: nat,
    pub hf_repo: Seq<char>,
    pub builtin: Option<Seq<char>>,
    pub max_input_tokens: Option<nat>,
}

/// The entry as plain values.
pub open spec fn facts(m: LocalModelSpec) -> ModelFacts {
    ModelFacts {
        key: m.key@,
        dimension: m.dimension as nat,
        hf_repo: m.hf_repo@,
        builtin: match m.builtin { Some(b) => Some(b@), None => None },
        max_input_tokens: match m.max_input_tokens { Some(n) => Some(n as nat), None => None },
    }
}

/// One registry entry.
pub open spec fn entry(
    key: Seq<char>,
    dimension: nat,
    hf_repo: Seq<char>,
    builtin: Option<Seq<char>>,
    max_input_tokens: Option<nat>,
) -> ModelFacts {
    ModelFacts { key, dimension, hf_repo, builtin, max_input_tokens }
}

/// The full local model registry, in order. Dimensions match the ONNX models
/// exactly; the two Granite models are user-defined ONNX, with no built-in.
pub open spec fn registry() -> Seq<ModelFacts> {
    seq![
        entry("minilm-l6"@, 384, "sentence-transformers/all-MiniLM-L6-v2"@, Some("AllMiniLML6V2"@), None),
        entry("minilm-l12"@, 384, "sentence-transformers/all-MiniLM-L12-v2"@, Some("AllMiniLML12V2"@), None),
        entry("bge-small"@, 384, "BAAI/bge-small-en-v1.5"@, Some("BGESmallENV15"@), None),
        entry("bge-base"@, 768, "BAAI/bge-base-en-v1.5"@, Some("BGEBaseENV15"@), None),
        entry("ml-minilm"@, 384, "sentence-transformers/paraphrase-multilingual-MiniLM-L12-v2"@, Some("ParaphraseMLMiniLML12V2"@), None),
        entry("ml-mpnet"@, 768, "sentence-transformers/paraphrase-multilingual-mpnet-base-v2"@, Some("ParaphraseMLMpnetBaseV2"@), Some(128)),
        entry("ml-granite"@, 384, "ibm-granite/granite-embedding-97m-multilingual-r2"@, None, None),
        entry("ml-granite-lg"@, 768, "ibm-granite/granite-embedding-311m-multilingual-r2"@, None, None),
    ]
}

/// The default local model key.
pub const DEFAULT_LOCAL_MODEL: &'static str = "minilm-l6";

/// The full local model registry.
pub fn local_models() -> (r: Vec<LocalModelSpec>)
    ensures
        r@.len() == registry().len(),
        forall|i: int| 0 <= i < r@.len() ==> facts(#[trigger] r@[i]) == registry()[i],
{
    let mut r: Vec<LocalModelSpec> = Vec::new();
    r.push(LocalModelSpec {
        key: "minilm-l6",
        dimension: 384,
        hf_repo: "sentence-transformers/all-MiniLM-L6-v2",
        builtin: Some("AllMiniLML6V2"),
        max_input_tokens: None,
    });
    r.push(LocalModelSpec {
        key: "minilm-l12",
        dimension: 384,
        hf_repo: "sentence-transformers/all-MiniLM-L12-v2",
        builtin: Some("AllMiniLML12V2"),
        max_input_tokens: None,
    });
    r.push(LocalModelSpec {
        key: "bge-small",
        dimension: 384,
        hf_repo: "BAAI/bge-small-en-v1.5",
        builtin: Some("BGESmallENV15"),
        max_input_tokens: None,
    });
    r.push(LocalModelSpec {
        key: "bge-base",
        dimension: 768,
        hf_repo: "BAAI/bge-base-en-v1.5",
        builtin: Some("BGEBaseENV15"),
        max_input_tokens: None,
    });
    r.push(LocalModelSpec {
        key: "ml-minilm",
        dimension: 384,
        hf_repo: "sentence-transformers/paraphrase-multilingual-MiniLM-L12-v2",
        builtin: Some("ParaphraseMLMiniLML12V2"),
        max_input_tokens: None,
    });
    r.push(LocalModelSpec {
        key: "ml-mpnet",
        dimension: 768,
        hf_repo: "sentence-transformers/paraphrase-multilingual-mpnet-base-v2",
        builtin: Some("ParaphraseMLMpnetBaseV2"),
        max_input_tokens: Some(128),
    });
    r.push(LocalModelSpec {
        key: "ml-granite",
        dimension: 384,
        hf_repo: "ibm-granite/granite-embedding-97m-multilingual-r2",
        builtin: None,
        max_input_tokens: None,
    });
    r.push(LocalModelSpec {
        key: "ml-granite-lg",
        dimension: 768,
        hf_repo: "ibm-granite/granite-embedding-311m-multilingual-r2",
        builtin: None,
        max_input_tokens: None,
    });
    assert(r@.len() == 8);
    r
}

/// `i` is the first registry entry whose key is `key`.
pub open spec fn first_with_key(key: Seq<char>, i: int) -> bool {
    0 <= i < registry().len() && registry()[i].key == key && forall|j: int|
        0 <= j < i ==> (#[trigger] registry()[j]).key != key
}

/// Whether some registry entry has `key`.
pub open spec fn has_key(key: Seq<char>) -> bool {
    exists|i: int| 0 <= i < registry().len() && (#[trigger] registry()[i]).key == key
}

/// Look up a local model spec by key.
pub fn find_local(key: &str) -> (r: Option<LocalModelSpec>)
    ensures
        has_key(key@) ==> (r matches Some(m) && exists|i: int| first_with_key(key@, i) && facts(m) == #[trigger] registry()[i]),
        !has_key(key@) ==> r is None,
{
    let models = local_models();
    let mut i: usize = 0;
    while i < models.len()
        invariant
            models@.len() == registry().len(),
            forall|j: int| 0 <= j < models@.len() ==> facts(#[trigger] models@[j]) == registry()[j],
            i <= models@.len(),
            forall|j: int| 0 <= j < i ==> (#[trigger] registry()[j]).key != key@,
        decreases models@.len() - i,
    {
        let m = models[i];
        assert(facts(models@[i as int]) == registry()[i as int]);
        if same_text(m.key, key) {
            assert(first_with_key(key@, i as int));
            return Some(m);
        }
        i = i + 1;
    }
    None
}

/// The registry's keys are unique, so a key names exactly one model.
pub proof fn law_registry_keys_unique(i: int, j: int)
    requires
        0 <= i < j < registry().len(),
    ensures
        registry()[i].key != registry()[j].key,
{
    reveal_strlit("minilm-l6");
    reveal_strlit("minilm-l12");
    reveal_strlit("bge-small");
    reveal_strlit("bge-base");
    reveal_strlit("ml-minilm");
    reveal_strlit("ml-mpnet");
    reveal_strlit("ml-granite");
    reveal_strlit("ml-granite-lg");
    let a = registry()[i].key;
    let b = registry()[j].key;
    if a.len() == b.len() {
        if a[0] == b[0] {
            assert(a[1] != b[1] || a[3] != b[3]);
        }
    }
}

/// The dimension of an OpenAI embedding model key (`small`/`large`/`ada`).
pub open spec fn openai_dimension_spec(k: Seq<char>) -> Option<nat> {
    if k == "small"@ { Some(1536) } else if k == "large"@ { Some(3072) } else if k == "ada"@ { Some(1536) } else { None }
}

/// Dimension of an OpenAI embedding model key (`small`/`large`/`ada`).
pub fn openai_dimension(model_key: &str) -> (r: Option<usize>)
    ensures
        match openai_dimension_spec(model_key@) {
            Some(d) => r == Some(d as usize),
            None => r is None,
        },
{
    if same_text(model_key, "small") {
        Some(1536)
    } else if same_text(model_key, "large") {
        Some(3072)
    } else if same_text(model_key, "ada") {
        Some(1536)
    } else {
        None
    }
}

/// The API model id of an OpenAI model key (`text-embedding-3-small` for any
/// key it does not know).
pub open spec fn openai_model_id_spec(k: Seq<char>) -> Seq<char> {
    if k == "large"@ {
        "text-embedding-3-large"@
    } else if k == "ada"@ {
        "text-embedding-ada-002"@
    } else {
        "text-embedding-3-small"@
    }
}

/// Map an OpenAI model key to its API model id.
pub fn openai_model_id(model_key: &str) -> (r: &'static str)
    ensures
        r@ == openai_model_id_spec(model_key@),
{
    if same_text(model_key, "large") {
        "text-embedding-3-large"
    } else if same_text(model_key, "ada") {
        "text-embedding-ada-002"
    } else {
        "text-embedding-3-small"
    }
}

/// The dimension of a Voyage embedding model key.
pub open spec fn voyage_dimension_spec(k: Seq<char>) -> Option<nat> {
    if k == "code-3"@ { Some(1024) } else if k == "3-lite"@ { Some(512) } else if k == "3"@ { Some(1024) } else { None }
}

/// Dimension of a Voyage embedding model key.
pub fn voyage_dimension(model_key: &str) -> (r: Option<usize>)
    ensures
        match voyage_dimension_spec(model_key@) {
            Some(d) => r == Some(d as usize),
            None => r is None,
        },
{
    if same_text(model_key, "code-3") {
        Some(1024)
    } else if same_text(model_key, "3-lite") {
        Some(512)
    } else if same_text(model_key, "3") {
        Some(1024)
    } else {
        None
    }
}

/// The API model id of a Voyage model key (`voyage-code-3` for any key it
/// does not know).
pub open spec fn voyage_model_id_spec(k: Seq<char>) -> Seq<char> {
    if k == "3-lite"@ {
        "voyage-3-lite"@
    } else if k == "3"@ {
        "voyage-3"@
    } else {
        "voyage-code-3"@
    }
}

/// Map a Voyage model key to its API model id.
pub fn voyage_model_id(model_key: &str) -> (r: &'static str)
    ensures
        r@ == voyage_model_id_spec(model_key@),
{
    if same_text(model_key, "3-lite") {
        "voyage-3-lite"
    } else if same_text(model_key, "3") {
        "voyage-3"
    } else {
        "voyage-code-3"
    }
}

/// The dimension of the local model `key`, or 384 when the registry does not
/// know it.
pub open spec fn local_dimension_spec(key: Seq<char>) -> nat {
    if has_key(key) {
        registry()[choose|i: int| first_with_key(key, i)].dimension
    } else {
        384
    }
}

/// The vector dimension of a provider/model pair, resolved from the registry
/// without loading the model: OpenAI and Voyage by their tables (1536 and
/// 1024 when the key is unknown), `custom` from the configured dimension
/// (384 without one), anything else from the local registry (384 when
/// unknown).
pub open spec fn dimension_spec(provider: Seq<char>, model: Seq<char>, custom: Option<usize>) -> nat {
    if provider == "openai"@ {
        match openai_dimension_spec(model) { Some(d) => d, None => 1536 }
    } else if provider == "voyage"@ {
        match voyage_dimension_spec(model) { Some(d) => d, None => 1024 }
    } else if provider == "custom"@ {
        match custom { Some(d) => d as nat, None => 384 }
    } else {
        local_dimension_spec(model)
    }
}

proof fn lemma_first_with_key_unique(key: Seq<char>, i: int, j: int)
    requires
        first_with_key(key, i),
        first_with_key(key, j),
    ensures
        i == j,
{
    if i < j {
        assert(registry()[i].key != key);
    }
    if j < i {
        assert(registry()[j].key != key);
    }
}

/// The vector dimension for a provider/model pair, without loading the model.
/// `custom` is the dimension configured for the `custom` provider (read from
/// `DEVCTX_EMBED_DIMENSION` by the caller), if any.
pub fn dimension_for(provider: &str, model: &str, custom: Option<usize>) -> (d: usize)
    ensures
        d == dimension_spec(provider@, model@, custom),
{
    if same_text(provider, "openai") {
        match openai_dimension(model) {
            Some(d) => d,
            None => 1536,
        }
    } else if same_text(provider, "voyage") {
        match voyage_dimension(model) {
            Some(d) => d,
            None => 1024,
        }
    } else if same_text(provider, "custom") {
        match custom {
            Some(d) => d,
            None => 384,
        }
    } else {
        match find_local(model) {
            Some(m) => {
                proof {
                    let i = choose|i: int| first_with_key(model@, i) && facts(m) == #[trigger] registry()[i];
                    let k = choose|i: int| first_with_key(model@, i);
                    lemma_first_with_key_unique(model@, i, k);
                }
                m.dimension
            },
            None => 384,
        }
    }
}


/// Resolved settings for constructing an embedding provider.
#[derive(Debug, Clone, Default)]
pub struct EmbedSettings {
    /// `local` | `openai` | `voyage` | `custom`.
    pub provider: String,
    /// Model key within the provider.
    pub model: String,
    /// Force offline (no network model download).
    pub offline: bool,
    /// API key (API providers).
    pub api_key: Option<String>,
    /// Base endpoint for the `custom` provider.
    pub endpoint: Option<String>,
    /// Vector dimension for the `custom` provider.
    pub custom_dimension: Option<usize>,
    /// Directory holding a user-defined ONNX model and tokenizer.
    pub model_dir: Option<String>,
}

/// An optional string's contents.
pub open spec fn opt_view(o: Option<String>) -> Option<Seq<char>> {
    match o {
        Some(s) => Some(s@),
        None => None,
    }
}

fn clone_opt(o: &Option<String>) -> (r: Option<String>)
    ensures
        opt_view(r) == opt_view(*o),
{
    match o {
        Some(s) => Some(owned(s.as_str())),
        None => None,
    }
}

impl EmbedSettings {
    /// Settings from the project config and the environment, as read by the
    /// caller: `endpoint` is `DEVCTX_EMBED_ENDPOINT`, `dimension` is
    /// `DEVCTX_EMBED_DIMENSION` and `model_dir` is `DEVCTX_MODEL_DIR` (`None`
    /// when unset).
    ///
    /// Offline only when the config forces it; the configured model directory
    /// wins over the environment's; a dimension that does not parse is no
    /// dimension at all.
    pub fn from_config(
        cfg: &Embeddings,
        endpoint: &Option<String>,
        dimension: &Option<String>,
        model_dir: &Option<String>,
    ) -> (s: EmbedSettings)
        ensures
            s.provider@ == cfg.provider@,
            s.model@ == cfg.model@,
            s.offline == (cfg.offline == Offline::True),
            s.api_key is None,
            opt_view(s.endpoint) == opt_view(*endpoint),
            s.custom_dimension == match dimension {
                Some(d) => parse_usize_spec(d@),
                None => None,
            },
            opt_view(s.model_dir) == if cfg.model_dir@.len() == 0 {
                opt_view(*model_dir)
            } else {
                Some(cfg.model_dir@)
            },
    {
        let offline = match cfg.offline {
            Offline::True => true,
            _ => false,
        };
        let custom_dimension = match dimension {
            Some(d) => parse_usize(d.as_str()),
            None => None,
        };
        let dir = if cfg.model_dir.as_str().is_empty() {
            clone_opt(model_dir)
        } else {
            Some(owned(cfg.model_dir.as_str()))
        };
        EmbedSettings {
            provider: owned(cfg.provider.as_str()),
            model: owned(cfg.model.as_str()),
            offline,
            api_key: None,
            endpoint: clone_opt(endpoint),
            custom_dimension,
            model_dir: dir,
        }
    }
}
/// Why no embedding provider can be built.
#[derive(Debug, Clone, PartialEq, Eq)]
pub enum EmbedError {
    /// The provider has no model by this key.
    UnknownModel(String, String),
    /// A setting the provider needs is missing (an API key's variable, the
    /// custom endpoint or dimension).
    MissingConfig(String),
    /// No provider by this name.
    UnknownProvider(String),
}

/// Which provider to build, with what it needs.
#[derive(Debug, Clone, PartialEq, Eq)]
pub enum ProviderPlan {
    /// A model run on this machine.
    Local,
    /// OpenAI's API, with its model id, dimension and key.
    OpenAi { model_id: String, dimension: usize, key: String },
    /// Voyage's API, likewise.
    Voyage { model_id: String, dimension: usize, key: String },
    /// A user-run endpoint speaking OpenAI's protocol.
    Custom { endpoint: String, model: String, dimension: usize, key: String },
}

proof fn lemma_provider_names_differ()
    ensures
        "local"@.len() > 0 && "openai"@.len() > 0 && "voyage"@.len() > 0 && "custom"@.len() > 0,
        "local"@ != "openai"@ && "local"@ != "voyage"@ && "local"@ != "custom"@,
        "openai"@ != "voyage"@ && "openai"@ != "custom"@ && "voyage"@ != "custom"@,
{
    reveal_strlit("local");
    reveal_strlit("openai");
    reveal_strlit("voyage");
    reveal_strlit("custom");
    assert("local"@[0] == 'l' && "openai"@[0] == 'o' && "voyage"@[0] == 'v' && "custom"@[0] == 'c');
}

/// The environment variable an API provider's key falls back to.
pub fn api_key_variable(provider: &str) -> (v: Option<&'static str>)
    ensures
        provider@ == "openai"@ ==> (v matches Some(x) && x@ == "OPENAI_API_KEY"@),
        provider@ == "voyage"@ ==> (v matches Some(x) && x@ == "VOYAGE_API_KEY"@),
        provider@ != "openai"@ && provider@ != "voyage"@ ==> v is None,
{
    proof {
        lemma_provider_names_differ();
    }
    if same_text(provider, "openai") {
        Some("OPENAI_API_KEY")
    } else if same_text(provider, "voyage") {
        Some("VOYAGE_API_KEY")
    } else {
        None
    }
}

/// The key an API provider uses: the configured one, else the value of its
/// environment variable; an empty key counts as none.
pub open spec fn effective_key(configured: Option<Seq<char>>, from_env: Option<Seq<char>>) -> Option<Seq<char>> {
    let k = match configured {
        Some(c) => Some(c),
        None => from_env,
    };
    match k {
        Some(x) => if x.len() > 0 { Some(x) } else { None },
        None => None,
    }
}

fn key_of(configured: &Option<String>, from_env: &Option<String>) -> (r: Option<String>)
    ensures
        opt_view(r) == effective_key(opt_view(*configured), opt_view(*from_env)),
{
    let k = match configured {
        Some(c) => Some(owned(c.as_str())),
        None => clone_opt(from_env),
    };
    match k {
        Some(x) => if x.as_str().is_empty() { None } else { Some(x) },
        None => None,
    }
}

/// Which provider the settings call for (see [`ProviderPlan`]), given the
/// value of the provider's key variable (`from_env`, read by the caller from
/// [`api_key_variable`]): `local` (or nothing) runs here; `openai` and
/// `voyage` need a key and a model they know; `custom` needs an endpoint and
/// a dimension, its key being optional; any other name is refused.
pub fn plan_provider(s: &EmbedSettings, from_env: &Option<String>) -> (r: Result<ProviderPlan, EmbedError>)
    ensures
        (s.provider@ == "local"@ || s.provider@.len() == 0) ==> r == Ok::<ProviderPlan, EmbedError>(ProviderPlan::Local),
        s.provider@ == "openai"@ ==> match effective_key(opt_view(s.api_key), opt_view(*from_env)) {
            None => r matches Err(EmbedError::MissingConfig(v)) && v@ == "OPENAI_API_KEY"@,
            Some(k) => match openai_dimension_spec(s.model@) {
                None => r matches Err(EmbedError::UnknownModel(m, p)) && m@ == s.model@ && p@ == "openai"@,
                Some(d) => r matches Ok(ProviderPlan::OpenAi { model_id, dimension, key })
                    && model_id@ == openai_model_id_spec(s.model@) && dimension == d && key@ == k,
            },
        },
        s.provider@ == "voyage"@ ==> match effective_key(opt_view(s.api_key), opt_view(*from_env)) {
            None => r matches Err(EmbedError::MissingConfig(v)) && v@ == "VOYAGE_API_KEY"@,
            Some(k) => match voyage_dimension_spec(s.model@) {
                None => r matches Err(EmbedError::UnknownModel(m, p)) && m@ == s.model@ && p@ == "voyage"@,
                Some(d) => r matches Ok(ProviderPlan::Voyage { model_id, dimension, key })
                    && model_id@ == voyage_model_id_spec(s.model@) && dimension == d && key@ == k,
            },
        },
        s.provider@ == "custom"@ ==> match (opt_view(s.endpoint), s.custom_dimension) {
            (None, _) => r matches Err(EmbedError::MissingConfig(v)) && v@ == "custom endpoint"@,
            (Some(_), None) => r matches Err(EmbedError::MissingConfig(v)) && v@ == "custom dimension"@,
            (Some(e), Some(d)) => r matches Ok(ProviderPlan::Custom { endpoint, model, dimension, key })
                && endpoint@ == e && model@ == s.model@ && dimension == d
                && key@ == match opt_view(s.api_key) { Some(k) => k, None => seq![] },
        },
        !(s.provider@ == "local"@ || s.provider@.len() == 0 || s.provider@ == "openai"@ || s.provider@ == "voyage"@
            || s.provider@ == "custom"@) ==> (r matches Err(EmbedError::UnknownProvider(p)) && p@ == s.provider@),
{
    proof {
        lemma_provider_names_differ();
    }
    let p = s.provider.as_str();
    if same_text(p, "local") || p.is_empty() {
        return Ok(ProviderPlan::Local);
    }
    if same_text(p, "openai") || same_text(p, "voyage") {
        let openai = same_text(p, "openai");
        let key = match key_of(&s.api_key, from_env) {
            Some(k) => k,
            None => {
                return Err(EmbedError::MissingConfig(owned(if openai { "OPENAI_API_KEY" } else { "VOYAGE_API_KEY" })));
            },
        };
        let m = s.model.as_str();
        if openai {
            return match openai_dimension(m) {
                Some(d) => Ok(ProviderPlan::OpenAi { model_id: owned(openai_model_id(m)), dimension: d, key }),
                None => Err(EmbedError::UnknownModel(owned(m), owned("openai"))),
            };
        } else {
            return match voyage_dimension(m) {
                Some(d) => Ok(ProviderPlan::Voyage { model_id: owned(voyage_model_id(m)), dimension: d, key }),
                None => Err(EmbedError::UnknownModel(owned(m), owned("voyage"))),
            };
        }
    }
    if same_text(p, "custom") {
        let endpoint = match &s.endpoint {
            Some(e) => owned(e.as_str()),
            None => {
                return Err(EmbedError::MissingConfig(owned("custom endpoint")));
            },
        };
        let dimension = match s.custom_dimension {
            Some(d) => d,
            None => {
                return Err(EmbedError::MissingConfig(owned("custom dimension")));
            },
        };
        let key = match &s.api_key {
            Some(k) => owned(k.as_str()),
            None => String::new(),
        };
        return Ok(ProviderPlan::Custom { endpoint, model: owned(s.model.as_str()), dimension, key });
    }
    Err(EmbedError::UnknownProvider(owned(p)))
}

/// The vector width a store is built for follows the provider's own table of
/// models: an OpenAI or Voyage model listed there gets exactly its listed
/// width (so `large` is 3072 wide, not the small model's 1536), and a custom
/// endpoint gets the width it was configured with.
pub proof fn law_dimension_follows_model_table(model: Seq<char>, custom: Option<usize>)
    ensures
        openai_dimension_spec(model) matches Some(d) ==> dimension_spec("openai"@, model, custom) == d,
        voyage_dimension_spec(model) matches Some(d) ==> dimension_spec("voyage"@, model, custom) == d,
        custom matches Some(d) ==> dimension_spec("custom"@, model, custom) == d,
{
    lemma_provider_names_differ();
}

} // verus!
