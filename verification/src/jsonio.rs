//! Trusted boundary to `serde_json`: parsing a response body into a generic
//! JSON value and reading the session tokens out of it.
//!
//! The parsed value is opaque to the verified code, but it is named: equal
//! body texts parse to the same value. What the session logic reads from it
//! (the access-token text) is named too, as a function of the body text, so
//! the session contracts can tie the installed token to the body.

use vstd::prelude::*;

verus! {

#[verifier::external_type_specification]
#[verifier::external_body]
pub struct ExJsonValue(serde_json::Value);

/// Whether a string parses as JSON: a function of the string alone.
pub uninterp spec fn json_accepts(s: Seq<char>) -> bool;

/// The JSON value a string parses to: a function of the string alone.
pub uninterp spec fn json_of(s: Seq<char>) -> serde_json::Value;

/// The nested `data.access_token` member of a JSON body, when the body
/// parses and that member is a string: a function of the body text alone.
pub uninterp spec fn session_token_of(s: Seq<char>) -> Option<Seq<char>>;

/// The top-level `access_token` member of a JSON body, when the body parses
/// and that member is a string: a function of the body text alone.
pub uninterp spec fn renewal_token_of(s: Seq<char>) -> Option<Seq<char>>;

/// Relies on `serde_json::from_str::<Value>`: parses the body as a generic
/// JSON value; whether it succeeds, and the value it yields, depend on the
/// text alone.
#[verifier::external_body]
pub fn parse_json(s: &str) -> (r: Option<serde_json::Value>)
    ensures
        r is Some <==> json_accepts(s@),
        r matches Some(v) ==> v == json_of(s@),
{
    serde_json::from_str::<serde_json::Value>(s).ok()
}

/// Relies on `serde_json::from_str::<Value>`, `Value::get` and
/// `Value::as_str`: reads the nested `data.access_token` string of a JSON
/// body; present or absent, the outcome depends on the text alone.
#[verifier::external_body]
pub fn extract_session_token(s: &str) -> (r: Option<String>)
    ensures
        match r {
            Some(t) => session_token_of(s@) == Some(t@),
            None => session_token_of(s@) is None,
        },
{
    let v: serde_json::Value = serde_json::from_str(s).ok()?;
    v.get("data")?.get("access_token")?.as_str().map(|t| t.to_owned())
}

/// Relies on `serde_json::from_str::<Value>`, `Value::get` and
/// `Value::as_str`: reads the top-level `access_token` string of a JSON
/// body; present or absent, the outcome depends on the text alone.
#[verifier::external_body]
pub fn extract_renewal_token(s: &str) -> (r: Option<String>)
    ensures
        match r {
            Some(t) => renewal_token_of(s@) == Some(t@),
            None => renewal_token_of(s@) is None,
        },
{
    let v: serde_json::Value = serde_json::from_str(s).ok()?;
    v.get("access_token")?.as_str().map(|t| t.to_owned())
}

} // verus!
