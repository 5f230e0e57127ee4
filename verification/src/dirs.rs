//! Where DevCtxEngine keeps its own files.
//!
//! The central store and the downloaded models are shared by every project on
//! the machine, so both live under one user-level directory rather than inside
//! whichever checkout happened to be the working directory.

use vstd::prelude::*;
use crate::path::{join_path, path_join};
use crate::text::owned;

verus! {

/// Relocates everything DevCtxEngine owns — central store and model cache — to
/// one directory. Primarily for tests and CI.
pub const HOME_ENV: &'static str = "DEVCTX_HOME";

/// Overrides just the model cache.
pub const MODEL_CACHE_ENV: &'static str = "DEVCTX_MODEL_CACHE";

/// The environment variables the directories are derived from, as read by the
/// caller (`None` for an unset variable).
pub struct DirEnv {
    /// `DEVCTX_HOME`.
    pub devctx_home: Option<String>,
    /// `DEVCTX_MODEL_CACHE`.
    pub model_cache: Option<String>,
    /// `XDG_DATA_HOME`.
    pub xdg_data_home: Option<String>,
    /// `XDG_CONFIG_HOME`.
    pub xdg_config_home: Option<String>,
    /// `HOME`.
    pub home: Option<String>,
    /// `USERPROFILE`.
    pub userprofile: Option<String>,
}

/// A variable's value when it is set and not empty.
pub open spec fn set_value(v: Option<String>) -> Option<Seq<char>> {
    match v {
        Some(s) => if s@.len() > 0 { Some(s@) } else { None },
        None => None,
    }
}

/// The user's home: `HOME`, else `USERPROFILE` (the first that is set), when
/// not empty.
pub open spec fn home_spec(env: DirEnv) -> Option<Seq<char>> {
    let v = if env.home is Some { env.home } else { env.userprofile };
    set_value(v)
}

/// [`data_dir`]'s answer.
pub open spec fn data_dir_spec(env: DirEnv) -> Option<Seq<char>> {
    if set_value(env.devctx_home) is Some {
        set_value(env.devctx_home)
    } else if set_value(env.xdg_data_home) is Some {
        Some(join_path(set_value(env.xdg_data_home).unwrap(), "devctx"@))
    } else {
        match home_spec(env) {
            Some(h) => Some(join_path(join_path(join_path(h, ".local"@), "share"@), "devctx"@)),
            None => None,
        }
    }
}

/// [`config_dir`]'s answer.
pub open spec fn config_dir_spec(env: DirEnv) -> Option<Seq<char>> {
    if set_value(env.devctx_home) is Some {
        set_value(env.devctx_home)
    } else if set_value(env.xdg_config_home) is Some {
        Some(join_path(set_value(env.xdg_config_home).unwrap(), "devctx"@))
    } else {
        match home_spec(env) {
            Some(h) => Some(join_path(join_path(h, ".config"@), "devctx"@)),
            None => None,
        }
    }
}

/// [`model_cache_dir`]'s answer.
pub open spec fn model_cache_dir_spec(env: DirEnv) -> Option<Seq<char>> {
    if set_value(env.model_cache) is Some {
        set_value(env.model_cache)
    } else {
        match data_dir_spec(env) {
            Some(d) => Some(join_path(d, "models"@)),
            None => None,
        }
    }
}

fn env_dir(v: &Option<String>) -> (r: Option<String>)
    ensures
        match set_value(*v) {
            Some(s) => r matches Some(x) && x@ == s,
            None => r is None,
        },
{
    match v {
        Some(s) => if s.as_str().is_empty() { None } else { Some(owned(s.as_str())) },
        None => None,
    }
}

fn home_dir(env: &DirEnv) -> (r: Option<String>)
    ensures
        match home_spec(*env) {
            Some(s) => r matches Some(x) && x@ == s,
            None => r is None,
        },
{
    if env.home.is_some() {
        env_dir(&env.home)
    } else {
        env_dir(&env.userprofile)
    }
}

/// The directory holding DevCtxEngine's own data: `DEVCTX_HOME`, then
/// `$XDG_DATA_HOME/devctx`, then `~/.local/share/devctx`; `None` when no home
/// can be determined at all.
pub fn data_dir(env: &DirEnv) -> (r: Option<String>)
    ensures
        match data_dir_spec(*env) {
            Some(s) => r matches Some(x) && x@ == s,
            None => r is None,
        },
{
    if let Some(home) = env_dir(&env.devctx_home) {
        return Some(home);
    }
    if let Some(xdg) = env_dir(&env.xdg_data_home) {
        return Some(path_join(xdg.as_str(), "devctx"));
    }
    match home_dir(env) {
        Some(h) => {
            let a = path_join(h.as_str(), ".local");
            let b = path_join(a.as_str(), "share");
            Some(path_join(b.as_str(), "devctx"))
        },
        None => None,
    }
}

/// The user's config directory for DevCtxEngine: `DEVCTX_HOME`, then
/// `$XDG_CONFIG_HOME/devctx`, then `~/.config/devctx`.
pub fn config_dir(env: &DirEnv) -> (r: Option<String>)
    ensures
        match config_dir_spec(*env) {
            Some(s) => r matches Some(x) && x@ == s,
            None => r is None,
        },
{
    if let Some(home) = env_dir(&env.devctx_home) {
        return Some(home);
    }
    if let Some(xdg) = env_dir(&env.xdg_config_home) {
        return Some(path_join(xdg.as_str(), "devctx"));
    }
    match home_dir(env) {
        Some(h) => {
            let a = path_join(h.as_str(), ".config");
            Some(path_join(a.as_str(), "devctx"))
        },
        None => None,
    }
}

/// Where downloaded models are cached: `DEVCTX_MODEL_CACHE`, else `models`
/// under the data directory. Deliberately not per project: the models are the
/// same whoever asks and run to hundreds of megabytes each.
pub fn model_cache_dir(env: &DirEnv) -> (r: Option<String>)
    ensures
        match model_cache_dir_spec(*env) {
            Some(s) => r matches Some(x) && x@ == s,
            None => r is None,
        },
{
    if let Some(explicit) = env_dir(&env.model_cache) {
        return Some(explicit);
    }
    match data_dir(env) {
        Some(d) => Some(path_join(d.as_str(), "models")),
        None => None,
    }
}

/// Unless the model cache is relocated on its own, it hangs off the data
/// directory: it sits beside the central store, never inside a repository.
pub proof fn law_model_cache_beside_data(env: DirEnv)
    requires
        set_value(env.model_cache) is None,
    ensures
        match data_dir_spec(env) {
            Some(d) => model_cache_dir_spec(env) == Some(join_path(d, "models"@)),
            None => model_cache_dir_spec(env) is None,
        },
{
}

} // verus!
