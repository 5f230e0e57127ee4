//! How an MCP session reaches a shared server when it does not own the
//! database: the connection it was handed, the project it speaks for, and how
//! its routed calls are addressed and their failures reported.

use vstd::prelude::*;
use crate::central::urlencode;
use crate::registry::opt_view;
use crate::json::{json_str_member, str_member};
use crate::text::{decimal, owned, push_decimal, push_str};

verus! {

/// Connection to a shared server the MCP routes through.
pub struct ServerConn {
    /// Base URL, e.g. `http://127.0.0.1:20111`.
    pub base: String,
    /// Bearer token, if the server requires one.
    pub token: Option<String>,
}

/// The bound project as the agent needs to see it: which project a session
/// is in, and its group, decide where a memory is saved.
#[derive(Clone, Default)]
pub struct ProjectIdentity {
    pub name: String,
    pub group: String,
}

/// A thin client for the shared server's endpoints.
pub struct RemoteClient {
    base: String,
    token: Option<String>,
}

impl RemoteClient {
    /// The client a routed session uses for `conn`.
    pub fn from_conn(conn: ServerConn) -> (c: Self)
        ensures
            c.base_spec() == conn.base@,
            c.token_spec() == opt_view(conn.token),
    {
        RemoteClient { base: conn.base, token: conn.token }
    }

    /// The server's base URL.
    pub closed spec fn base_spec(&self) -> Seq<char> {
        self.base@
    }

    /// The token requests carry.
    pub closed spec fn token_spec(&self) -> Option<Seq<char>> {
        opt_view(self.token)
    }

    /// The full URL of `path` on the server.
    pub fn url(&self, path: &str) -> (u: String)
        ensures
            u@ == self.base_spec() + path@,
    {
        let mut u = owned(self.base.as_str());
        push_str(&mut u, path);
        u
    }

    /// The `Authorization` header value, when the server requires a token.
    pub fn authorization(&self) -> (h: Option<String>)
        ensures
            match self.token_spec() {
                Some(t) => h matches Some(v) && v@ == "Bearer "@ + t,
                None => h is None,
            },
    {
        match &self.token {
            Some(t) => {
                let mut v = owned("Bearer ");
                push_str(&mut v, t.as_str());
                Some(v)
            },
            None => None,
        }
    }
}

/// What a routed call that failed with status `code` reports: the server's
/// own `error` message, else the body as sent, and a line naming the status
/// when that is empty.
pub open spec fn routed_failure_spec(code: u16, body: Seq<char>, field: Option<Seq<char>>) -> Seq<char> {
    let msg = match field {
        Some(m) => m,
        None => body,
    };
    if msg.len() == 0 {
        "server returned status "@ + decimal(code as nat)
    } else {
        msg
    }
}

/// [`routed_failure_spec`], given the body's `error` member when it has one.
pub fn routed_failure_message(code: u16, body: &str, field: Option<String>) -> (m: String)
    ensures
        m@ == routed_failure_spec(code, body@, opt_view(field)),
{
    let msg = match field {
        Some(m) => m,
        None => owned(body),
    };
    if msg.as_str().is_empty() {
        let mut s = owned("server returned status ");
        push_decimal(&mut s, code as u64);
        s
    } else {
        msg
    }
}

/// What a routed call that failed with status `code` reports, given the body
/// the server sent.
pub fn routed_failure(code: u16, body: &str) -> (m: String)
    ensures
        m@ == routed_failure_spec(code, body@, json_str_member(body@, "error"@)),
{
    let field = str_member(body, "error");
    routed_failure_message(code, body, field)
}

/// The request path for the recent memories of `scope`, at most `limit`.
pub fn memory_context_path(scope: &str, limit: usize) -> (p: String)
    ensures
        p@ == "/memory/context?scope="@ + scope@ + "&limit="@ + decimal(limit as nat),
{
    let mut p = owned("/memory/context?scope=");
    push_str(&mut p, scope);
    push_str(&mut p, "&limit=");
    push_decimal(&mut p, limit as u64);
    p
}

/// The request path for memories recorded about `symbol`.
pub fn memories_by_symbol_path(symbol: &str, limit: usize) -> (p: String)
    ensures
        p@ == "/memories/by-symbol/"@ + crate::central::percent_encode(vstd::utf8::encode_utf8(symbol@)) + "?limit="@ + decimal(limit as nat),
{
    let mut p = owned("/memories/by-symbol/");
    let e = urlencode(symbol);
    push_str(&mut p, e.as_str());
    push_str(&mut p, "?limit=");
    push_decimal(&mut p, limit as u64);
    p
}

/// The request path for memories recorded about `file`.
pub fn memories_by_file_path(file: &str, limit: usize) -> (p: String)
    ensures
        p@ == "/memories/by-file/"@ + crate::central::percent_encode(vstd::utf8::encode_utf8(file@)) + "?limit="@ + decimal(limit as nat),
{
    let mut p = owned("/memories/by-file/");
    let e = urlencode(file);
    push_str(&mut p, e.as_str());
    push_str(&mut p, "?limit=");
    push_decimal(&mut p, limit as u64);
    p
}

/// The request path for the code one memory concerns.
pub fn memory_refs_path(memory_id: &str) -> (p: String)
    ensures
        p@ == "/memory/"@ + crate::central::percent_encode(vstd::utf8::encode_utf8(memory_id@)) + "/refs"@,
{
    let mut p = owned("/memory/");
    let e = urlencode(memory_id);
    push_str(&mut p, e.as_str());
    push_str(&mut p, "/refs");
    p
}

/// The request path for the references to `symbol`.
pub fn references_path(symbol: &str) -> (p: String)
    ensures
        p@ == "/references/"@ + crate::central::percent_encode(vstd::utf8::encode_utf8(symbol@)),
{
    let mut p = owned("/references/");
    let e = urlencode(symbol);
    push_str(&mut p, e.as_str());
    p
}

} // verus!
