//! The servers' request gate and background sweep: which requests a bearer
//! token must accompany, which ones count as activity for the idle timer, and
//! which registered projects have moved since they were last indexed.

use vstd::prelude::*;
use crate::text::{chars_of, owned, parse_u64, parse_u64_spec, same_text, starts_with, starts_with_chars};

verus! {

/// `header` is `Bearer ` followed by exactly `token`.
pub open spec fn bearer_matches(header: Seq<char>, token: Seq<char>) -> bool {
    starts_with(header, "Bearer "@) && header.skip(7) == token
}

/// Whether an `Authorization` header carries `token` as a bearer token.
pub fn carries_bearer(header: &str, token: &str) -> (b: bool)
    ensures
        b == bearer_matches(header@, token@),
{
    let h = chars_of(header);
    let p = chars_of("Bearer ");
    let t = chars_of(token);
    proof {
        reveal_strlit("Bearer ");
    }
    if !starts_with_chars(h.as_slice(), p.as_slice()) {
        return false;
    }
    if h.len() - 7 != t.len() {
        assert(h@.skip(7).len() != t@.len());
        return false;
    }
    let hl = h.len();
    let mut i: usize = 0;
    while i < t.len()
        invariant
            hl == h@.len(),
            h@ == header@,
            t@ == token@,
            h@.len() >= 7,
            h@.len() - 7 == t@.len(),
            i <= t@.len(),
            forall|j: int| 0 <= j < i ==> h@[j + 7] == t@[j],
        decreases t@.len() - i,
    {
        if h[i + 7] != t[i] {
            assert(h@.skip(7)[i as int] != t@[i as int]);
            return false;
        }
        i = i + 1;
    }
    assert(h@.skip(7) =~= t@);
    true
}

/// Whether a request is served: one to an open path always is, and any
/// other only when it carries the configured token, if there is one.
pub open spec fn admits(exempt: bool, token: Option<Seq<char>>, authorization: Option<Seq<char>>) -> bool {
    exempt || match token {
        None => true,
        Some(t) => match authorization {
            Some(h) => bearer_matches(h, t),
            None => false,
        },
    }
}

fn gate(exempt: bool, token: Option<&str>, authorization: Option<&str>) -> (b: bool)
    ensures
        b == admits(
            exempt,
            match token { Some(t) => Some(t@), None => None },
            match authorization { Some(h) => Some(h@), None => None },
        ),
{
    if exempt {
        return true;
    }
    match token {
        None => true,
        Some(t) => match authorization {
            Some(h) => carries_bearer(h, t),
            None => false,
        },
    }
}

/// Whether the central daemon serves a request to `path`: `/health` is open,
/// everything else needs the configured token, if there is one.
pub fn central_admits(path: &str, token: Option<&str>, authorization: Option<&str>) -> (b: bool)
    ensures
        b == admits(
            path@ == "/health"@,
            match token { Some(t) => Some(t@), None => None },
            match authorization { Some(h) => Some(h@), None => None },
        ),
{
    gate(same_text(path, "/health"), token, authorization)
}

/// A project server's open paths: health, and the dashboard shell with its
/// static assets, so the page always loads.
pub open spec fn project_exempt(path: Seq<char>) -> bool {
    path == "/health"@ || path == "/"@ || starts_with(path, "/assets/"@)
}

/// Whether a project server serves a request to `path`: its open paths
/// always, everything else only with the configured token, if there is one.
pub fn project_admits(path: &str, token: Option<&str>, authorization: Option<&str>) -> (b: bool)
    ensures
        b == admits(
            project_exempt(path@),
            match token { Some(t) => Some(t@), None => None },
            match authorization { Some(h) => Some(h@), None => None },
        ),
{
    let v = chars_of(path);
    let assets = chars_of("/assets/");
    let exempt = same_text(path, "/health") || same_text(path, "/") || starts_with_chars(v.as_slice(), assets.as_slice());
    gate(exempt, token, authorization)
}

/// Whether a request keeps a server from idling out: all but health checks,
/// which a client's polling would otherwise turn into immortality.
pub fn counts_as_activity(path: &str) -> (b: bool)
    ensures
        b == (path@ != "/health"@),
{
    !same_text(path, "/health")
}

/// The registered projects (name, path, last indexed commit) whose HEAD
/// (`heads`, one per project; `None` where git could not say) has moved
/// since, as name and path, in registry order.
pub open spec fn stale_spec(projects: Seq<(String, String, String)>, heads: Seq<Option<String>>) -> Seq<(Seq<char>, Seq<char>)>
    decreases projects.len(),
{
    if projects.len() == 0 {
        seq![]
    } else {
        let n = projects.len() - 1;
        let rest = stale_spec(projects.drop_last(), heads);
        match heads[n] {
            Some(h) => if h@ != projects[n].2@ { rest.push((projects[n].0@, projects[n].1@)) } else { rest },
            None => rest,
        }
    }
}

/// The projects the background sweep re-indexes (see [`stale_spec`]).
pub fn stale_projects(projects: &Vec<(String, String, String)>, heads: &Vec<Option<String>>) -> (r: Vec<(String, String)>)
    requires
        heads@.len() == projects@.len(),
    ensures
        r@.map_values(|p: (String, String)| (p.0@, p.1@)) == stale_spec(projects@, heads@),
{
    let mut out: Vec<(String, String)> = Vec::new();
    let mut i: usize = 0;
    while i < projects.len()
        invariant
            heads@.len() == projects@.len(),
            i <= projects@.len(),
            out@.map_values(|p: (String, String)| (p.0@, p.1@)) == stale_spec(projects@.take(i as int), heads@),
        decreases projects@.len() - i,
    {
        let ghost prev = out@;
        assert(projects@.take(i + 1).drop_last() =~= projects@.take(i as int));
        assert(projects@.take(i + 1)[i as int] == projects@[i as int]);
        match &heads[i] {
            Some(h) => {
                if !same_text(h.as_str(), projects[i].2.as_str()) {
                    out.push((owned(projects[i].0.as_str()), owned(projects[i].1.as_str())));
                    assert(out@.map_values(|p: (String, String)| (p.0@, p.1@)) =~=
                        prev.map_values(|p: (String, String)| (p.0@, p.1@)).push((projects@[i as int].0@, projects@[i as int].1@)));
                }
            },
            None => {},
        }
        i = i + 1;
    }
    assert(projects@.take(i as int) =~= projects@);
    out
}

/// How long a loaded model may go unused, in seconds, when
/// `DEVCTX_MODEL_IDLE_SECS` says nothing (or nothing readable).
pub const DEFAULT_MODEL_IDLE_SECS: u64 = 300;

/// How long an unused model is kept, in seconds, given the value of
/// `DEVCTX_MODEL_IDLE_SECS`: its number, else the default; `0` keeps models
/// for the life of the process (`None`).
pub fn model_idle_secs(setting: Option<&str>) -> (r: Option<u64>)
    ensures
        ({
            let secs = match setting {
                Some(v) => match parse_u64_spec(v@) {
                    Some(n) => n,
                    None => DEFAULT_MODEL_IDLE_SECS,
                },
                None => DEFAULT_MODEL_IDLE_SECS,
            };
            r == if secs > 0 { Some(secs) } else { None::<u64> }
        }),
{
    let secs = match setting {
        Some(v) => match parse_u64(v) {
            Some(n) => n,
            None => DEFAULT_MODEL_IDLE_SECS,
        },
        None => DEFAULT_MODEL_IDLE_SECS,
    };
    if secs > 0 { Some(secs) } else { None }
}

} // verus!
