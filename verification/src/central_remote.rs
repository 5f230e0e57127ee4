//! The central daemon as the command line addresses it: its discovery file,
//! its address, and a client for it.

use vstd::prelude::*;
use crate::central::{central_addr_spec, CentralPaths};
use crate::remote::ServeInfo;
use crate::registry::opt_view;
use crate::text::{owned, push_str};

verus! {

/// A reachable central daemon.
pub struct CentralRemote {
    base: String,
    token: Option<String>,
}

impl CentralRemote {
    /// A client for the central daemon advertised by `info`.
    pub fn from_info(info: &ServeInfo) -> (r: Self)
        ensures
            r.base_spec() == "http://"@ + info.addr@,
            r.token_spec() == opt_view(info.token),
    {
        let mut base = owned("http://");
        push_str(&mut base, info.addr.as_str());
        let token = match &info.token {
            Some(t) => Some(owned(t.as_str())),
            None => None,
        };
        CentralRemote { base, token }
    }

    /// The daemon's base URL.
    pub closed spec fn base_spec(&self) -> Seq<char> {
        self.base@
    }

    /// The token requests carry.
    pub closed spec fn token_spec(&self) -> Option<Seq<char>> {
        opt_view(self.token)
    }

    /// The full URL of `path` on the daemon.
    pub fn url(&self, path: &str) -> (u: String)
        ensures
            u@ == self.base_spec() + path@,
    {
        let mut u = owned(self.base.as_str());
        push_str(&mut u, path);
        u
    }

    /// The `Authorization` header value, when the daemon requires a token.
    pub fn authorization(&self) -> (h: Option<String>)
        ensures
            match self.token_spec() {
                Some(t) => h matches Some(v) && v@ == "Bearer "@ + t,
                None => h is None,
            },
    {
        match &self.token {
            Some(t) => {
                let mut v = owned("Bearer ");
                push_str(&mut v, t.as_str());
                Some(v)
            },
            None => None,
        }
    }
}

/// Path of the discovery file advertising the central daemon.
pub fn serve_file(paths: &CentralPaths) -> (p: String)
    ensures
        p@ == paths.serve_file@,
{
    crate::central::serve_file(paths)
}

/// The address a central daemon for this home should bind to.
pub fn default_addr(paths: &CentralPaths) -> (a: String)
    ensures
        a@ == central_addr_spec(paths.dir@),
{
    crate::central::default_addr(paths)
}

} // verus!
