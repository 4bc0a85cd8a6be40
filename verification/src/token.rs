//! Which gateway token the client uses. The token never enters the
//! configuration; it comes from the environment or, failing that, from the
//! gateway's own settings file.
use vstd::prelude::*;

use crate::config::opt_view;
use crate::text::{blank, is_blank};

verus! {

/// The token taken from the environment variable's value: the value itself,
/// unless the variable is unset or blank, in which case the settings file
/// is consulted instead (`None`).
pub fn env_token(value: Option<String>) -> (r: Option<String>)
    ensures
        match value {
            Some(v) => if blank(v@) {
                r is None
            } else {
                r == Some(v)
            },
            None => r is None,
        },
{
    match value {
        Some(v) => if is_blank(v.as_str()) {
            None
        } else {
            Some(v)
        },
        None => None,
    }
}

/// The string that `serde_json` finds in the JSON document `text` at the JSON
/// pointer `pointer`: `None` where `text` is not JSON, nothing is at the
/// pointer, or what is there is not a string.
pub uninterp spec fn json_string_at(text: Seq<char>, pointer: Seq<char>) -> Option<Seq<char>>;

/// Parses `text` with `serde_json::from_str` into a `serde_json::Value`, looks
/// it up with `Value::pointer` and reads it with `Value::as_str`. The
/// contract only names the result after its two arguments.
#[verifier::external_body]
fn json_pointer_string(text: &str, pointer: &str) -> (r: Option<String>)
    ensures
        opt_view(r) == json_string_at(text@, pointer@),
{
    serde_json::from_str::<serde_json::Value>(text).ok().and_then(
        |v| v.pointer(pointer).and_then(|x| x.as_str().map(|s| s.to_string())),
    )
}

/// The token in the gateway's settings file, whose text is `text`: the
/// string at `gateway.auth.token`.
pub fn settings_token(text: &str) -> (r: Option<String>)
    ensures
        opt_view(r) == json_string_at(text@, "/gateway/auth/token"@),
{
    json_pointer_string(text, "/gateway/auth/token")
}

} // verus!
