//! What the library reads out of JSON bodies it is handed: one named member
//! of a top-level object. Parsing JSON is `serde_json`'s business.

use vstd::prelude::*;
use crate::registry::opt_view;

verus! {

/// The text of member `key` of `body`, when the body is a JSON object whose
/// `key` is a string; nothing otherwise (a body that is not JSON included).
pub uninterp spec fn json_str_member(body: Seq<char>, key: Seq<char>) -> Option<Seq<char>>;

/// The value of member `key` of `body`, when the body is a JSON object whose
/// `key` is a number that fits a `u64`; nothing otherwise.
pub uninterp spec fn json_u64_member(body: Seq<char>, key: Seq<char>) -> Option<u64>;

/// Parses `body` with `serde_json::from_str` into a `serde_json::Value` and
/// keeps member `key` when it is a string (`Value::get`, `Value::as_str`).
/// What is claimed: the result is [`json_str_member`] of the body and key, a
/// function of those alone.
#[verifier::external_body]
pub(crate) fn str_member(body: &str, key: &str) -> (r: Option<String>)
    ensures
        opt_view(r) == json_str_member(body@, key@),
{
    let v: serde_json::Value = serde_json::from_str(body).ok()?;
    v.get(key)?.as_str().map(str::to_string)
}

/// Parses `body` with `serde_json::from_str` into a `serde_json::Value` and
/// keeps member `key` when it is an unsigned number (`Value::get`,
/// `Value::as_u64`). What is claimed: the result is [`json_u64_member`] of the
/// body and key, a function of those alone.
#[verifier::external_body]
pub(crate) fn u64_member(body: &str, key: &str) -> (r: Option<u64>)
    ensures
        r == json_u64_member(body@, key@),
{
    let v: serde_json::Value = serde_json::from_str(body).ok()?;
    v.get(key)?.as_u64()
}

} // verus!
