//! Server mode, client side: where a project's server advertises itself, the
//! address it binds to, and how requests to it are addressed and their
//! failures reported. The HTTP traffic itself is the caller's business.

use vstd::prelude::*;
use vstd::utf8::encode_utf8;
use crate::central::{fnv1a, fnv1a_of, percent_encode, urlencode};
use crate::config::{ProjectConfig, db_path_spec};
use crate::path::{join_path, parent_of, parent_path, path_join};
use crate::json::{json_str_member, str_member};
use crate::registry::opt_view;
use crate::text::{decimal, owned, push_decimal, push_str, trim, trimmed};

verus! {

/// Advertised by `devctx serve`, next to the database file.
#[derive(Debug, Clone)]
pub struct ServeInfo {
    /// `host:port` the server is bound to.
    pub addr: String,
    /// Bearer token required by the server (if any).
    pub token: Option<String>,
    /// Owner process id (informational).
    pub pid: Option<u32>,
}

/// A snapshot of the indexing run happening inside the server.
#[derive(Debug)]
pub struct IndexProgress {
    /// Whether a run is in flight right now.
    pub running: bool,
    /// Which run these counts belong to (zero from a server that predates the
    /// field, which reads as "always the same run").
    pub run: u64,
    /// Changes the run expects to process.
    pub total: usize,
    /// Changes it has started on.
    pub done: usize,
    /// The file it reached last.
    pub file: String,
}

impl Default for IndexProgress {
    fn default() -> (p: Self)
        ensures
            !p.running,
            p.run == 0,
            p.total == 0,
            p.done == 0,
            p.file@.len() == 0,
    {
        IndexProgress { running: false, run: 0, total: 0, done: 0, file: String::new() }
    }
}

/// Where the discovery file lives: `serve.json` beside the database file (in
/// `.` when the database path has no parent).
pub open spec fn serve_file_spec(db: Seq<char>) -> Seq<char> {
    let dir = match parent_path(db) {
        Some(d) => d,
        None => "."@,
    };
    join_path(dir, "serve.json"@)
}

/// Path of the discovery file (`serve.json`) next to the DB.
pub fn serve_file(cfg: &ProjectConfig) -> (p: String)
    ensures
        p@ == serve_file_spec(db_path_spec(cfg.storage.db_path@, cfg.state_dir@, cfg.project.path@)),
{
    let db = cfg.db_path();
    let dir = match parent_of(db.as_str()) {
        Some(d) => d,
        None => owned("."),
    };
    path_join(dir.as_str(), "serve.json")
}

/// The loopback address a project's server binds to: a port in
/// 20000..60000 picked by hashing the project path, so servers of different
/// projects do not collide on one port.
pub open spec fn project_addr_spec(project_path: Seq<char>) -> Seq<char> {
    "127.0.0.1:"@ + decimal((20000 + fnv1a(encode_utf8(project_path)) % 40000) as nat)
}

/// A deterministic loopback address per project.
pub fn auto_addr(cfg: &ProjectConfig) -> (a: String)
    ensures
        a@ == project_addr_spec(cfg.project.path@),
{
    let h = fnv1a_of(cfg.project.path.as_str());
    let port: u16 = 20000 + (h % 40000) as u16;
    let mut a = owned("127.0.0.1:");
    push_decimal(&mut a, port as u64);
    a
}

/// Whether a discovery file advertising `advertised` belongs to the process
/// `own`: only then may that process remove it, so a server that failed to
/// start never deletes the advertisement of the one that beat it.
pub fn is_own_advertisement(advertised: Option<u32>, own: u32) -> (b: bool)
    ensures
        b == (advertised == Some(own)),
{
    match advertised {
        Some(pid) => pid == own,
        None => false,
    }
}

/// A reachable server we can route requests to.
#[derive(Clone)]
pub struct Remote {
    base: String,
    token: Option<String>,
}

impl Remote {
    /// A client for the server advertised by `info`.
    pub fn from_info(info: &ServeInfo) -> (r: Self)
        ensures
            r.base_spec() == "http://"@ + info.addr@,
            r.token_spec() == opt_view(info.token),
    {
        let mut base = owned("http://");
        push_str(&mut base, info.addr.as_str());
        let token = match &info.token {
            Some(t) => Some(owned(t.as_str())),
            None => None,
        };
        Remote { base, token }
    }

    /// The server's base URL.
    pub closed spec fn base_spec(&self) -> Seq<char> {
        self.base@
    }

    /// The token requests carry.
    pub closed spec fn token_spec(&self) -> Option<Seq<char>> {
        opt_view(self.token)
    }

    /// Consume into `(base_url, token)` — for handing the connection on.
    pub fn into_parts(self) -> (r: (String, Option<String>))
        ensures
            r.0@ == self.base_spec(),
            opt_view(r.1) == self.token_spec(),
    {
        (self.base, self.token)
    }

    /// The base URL.
    pub fn base(&self) -> (b: &str)
        ensures
            b@ == self.base_spec(),
    {
        self.base.as_str()
    }

    /// The full URL of `path` on the server.
    pub fn url(&self, path: &str) -> (u: String)
        ensures
            u@ == self.base_spec() + path@,
    {
        let mut u = owned(self.base.as_str());
        push_str(&mut u, path);
        u
    }

    /// The `Authorization` header value, when the server requires a token.
    pub fn authorization(&self) -> (h: Option<String>)
        ensures
            match self.token_spec() {
                Some(t) => h matches Some(v) && v@ == "Bearer "@ + t,
                None => h is None,
            },
    {
        match &self.token {
            Some(t) => {
                let mut v = owned("Bearer ");
                push_str(&mut v, t.as_str());
                Some(v)
            },
            None => None,
        }
    }
}

/// The request path asking for what a change to `symbol` would reach.
pub fn impact_path(symbol: &str, depth: usize) -> (p: String)
    ensures
        p@ == "/impact/"@ + percent_encode(encode_utf8(symbol@)) + "?depth="@ + decimal(depth as nat),
{
    let mut p = owned("/impact/");
    let e = urlencode(symbol);
    push_str(&mut p, e.as_str());
    push_str(&mut p, "?depth=");
    push_decimal(&mut p, depth as u64);
    p
}

/// The request path reading a symbol by name.
pub fn read_symbol_path(name: &str, limit: usize) -> (p: String)
    ensures
        p@ == "/symbol/"@ + percent_encode(encode_utf8(name@)) + "?limit="@ + decimal(limit as nat),
{
    let mut p = owned("/symbol/");
    let e = urlencode(name);
    push_str(&mut p, e.as_str());
    push_str(&mut p, "?limit=");
    push_decimal(&mut p, limit as u64);
    p
}

/// The request path listing routes, filtered by method and path when given:
/// `/routes`, `/routes?method=..`, `/routes?path=..` or both joined by `&`.
pub open spec fn routes_path_spec(method: Option<Seq<char>>, path: Option<Seq<char>>) -> Seq<char> {
    let m = match method {
        Some(x) => Some("method="@ + percent_encode(encode_utf8(x))),
        None => None,
    };
    let q = match path {
        Some(x) => Some("path="@ + percent_encode(encode_utf8(x))),
        None => None,
    };
    "/routes"@ + match (m, q) {
        (Some(a), Some(b)) => "?"@ + a + "&"@ + b,
        (Some(a), None) => "?"@ + a,
        (None, Some(b)) => "?"@ + b,
        (None, None) => seq![],
    }
}

/// The request path listing routes.
pub fn routes_path(method: Option<&str>, path: Option<&str>) -> (p: String)
    ensures
        p@ == routes_path_spec(
            match method { Some(x) => Some(x@), None => None },
            match path { Some(x) => Some(x@), None => None },
        ),
{
    let mut p = owned("/routes");
    match method {
        Some(m) => {
            push_str(&mut p, "?method=");
            let e = urlencode(m);
            push_str(&mut p, e.as_str());
        },
        None => {},
    }
    match path {
        Some(x) => {
            if method.is_some() {
                push_str(&mut p, "&path=");
            } else {
                push_str(&mut p, "?path=");
            }
            let e = urlencode(x);
            push_str(&mut p, e.as_str());
        },
        None => {},
    }
    proof {
        reveal_strlit("?method=");
        reveal_strlit("method=");
        reveal_strlit("?");
        reveal_strlit("&path=");
        reveal_strlit("?path=");
        reveal_strlit("path=");
        reveal_strlit("&");
    }
    assert(p@ =~= routes_path_spec(
        match method { Some(x) => Some(x@), None => None },
        match path { Some(x) => Some(x@), None => None },
    ));
    p
}

/// What a failed request reports, from its status and body: the server's own
/// `error` message (or the body when it has none), trimmed; a generic line
/// naming the status when that is empty.
pub open spec fn failure_message_spec(code: u16, body: Seq<char>, field: Option<Seq<char>>) -> Seq<char> {
    let msg = match field {
        Some(m) => m,
        None => body,
    };
    if trim(msg).len() == 0 {
        "the server returned status "@ + decimal(code as nat)
    } else {
        trim(msg)
    }
}

/// What a failed request reports, given its status, its body and the
/// `error` field of the body when it is a JSON object with one: the server's
/// own explanation, so a routed command does not throw it away.
pub fn failure_message(code: u16, body: &str, field: Option<String>) -> (m: String)
    ensures
        m@ == failure_message_spec(code, body@, opt_view(field)),
{
    let msg = match field {
        Some(m) => m,
        None => owned(body),
    };
    let t = trimmed(msg.as_str());
    if t.as_str().is_empty() {
        let mut s = owned("the server returned status ");
        push_decimal(&mut s, code as u64);
        s
    } else {
        t
    }
}

/// What a failed central request reports, given the `error` field of the
/// daemon's reply: that message, or a generic line when it gave none.
pub fn central_failure_message(field: Option<String>) -> (m: String)
    ensures
        m@ == match opt_view(field) {
            Some(e) => e,
            None => "central store request failed"@,
        },
{
    match field {
        Some(e) => e,
        None => owned("central store request failed"),
    }
}

/// What a request that failed with status `code` reports, given the body the
/// server sent: [`failure_message`] of the body's `error` member.
pub fn request_failure(code: u16, body: &str) -> (m: String)
    ensures
        m@ == failure_message_spec(code, body@, json_str_member(body@, "error"@)),
{
    let field = str_member(body, "error");
    failure_message(code, body, field)
}

/// What a failed central request reports, given the body the daemon sent:
/// [`central_failure_message`] of the body's `error` member.
pub fn central_request_failure(body: &str) -> (m: String)
    ensures
        m@ == match json_str_member(body@, "error"@) {
            Some(e) => e,
            None => "central store request failed"@,
        },
{
    let field = str_member(body, "error");
    central_failure_message(field)
}

} // verus!
