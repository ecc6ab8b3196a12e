//! Reading an error message out of an upstream response body.

use vstd::prelude::*;
use vstd::string::*;

verus! {

/// The text that serde_json finds as the string value of top-level field `name` when it
/// reads `body` as a JSON document; `None` when the body is not JSON, is not an object, or
/// the field is absent or not a string.
pub uninterp spec fn json_string_field(body: Seq<char>, name: Seq<char>) -> Option<Seq<char>>;

/// Relies on `serde_json::from_str` into a `Value`, then `Value::get` of the field and its
/// `String` variant.
#[verifier::external_body]
fn string_field(body: &str, name: &str) -> (r: Option<String>)
    ensures
        match r {
            Some(v) => json_string_field(body@, name@) == Some(v@),
            None => json_string_field(body@, name@) is None,
        },
{
    match serde_json::from_str::<serde_json::Value>(body) {
        Ok(v) => match v.get(name) {
            Some(serde_json::Value::String(s)) => Some(s.clone()),
            _ => None,
        },
        Err(_) => None,
    }
}

/// The message of an error body: its `error` field, else its `message` field, else its `msg`
/// field, where that field is a string; else the body itself.
pub open spec fn error_message_of(body: Seq<char>) -> Seq<char> {
    match json_string_field(body, "error"@) {
        Some(m) => m,
        None => match json_string_field(body, "message"@) {
            Some(m) => m,
            None => match json_string_field(body, "msg"@) {
                Some(m) => m,
                None => body,
            },
        },
    }
}

/// Picks the message out of an upstream error body.
pub fn extract_error_message(response_body: &str) -> (r: String)
    ensures
        r@ == error_message_of(response_body@),
{
    if let Some(m) = string_field(response_body, "error") {
        return m;
    }
    if let Some(m) = string_field(response_body, "message") {
        return m;
    }
    if let Some(m) = string_field(response_body, "msg") {
        return m;
    }
    String::from_str(response_body)
}

} // verus!
