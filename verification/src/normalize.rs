//! The response normalizer: branch on the HTTP status, then decode the body.
//!
//! A success body is either generic JSON or, for the two instrument-listing
//! endpoints, a comma-separated table. A failure carries the server's raw
//! error text verbatim. In the sandboxed runtime, where no table parsing is
//! available, the raw table text is returned as-is instead.

use vstd::prelude::*;
use crate::errors::KiteError;
use crate::jsonio::{json_accepts, json_of, parse_json};
use crate::table::{Record, records_view, table_of, parse_table};
use crate::{is_success_status, status_is_success};

verus! {

/// JSON mode: a success body must parse as JSON and the parsed value is
/// returned; anything else is a `DecodeError` carrying the body; a failure
/// status gives an `ApiError` carrying the raw error text and the status,
/// verbatim.
pub fn normalize_json(status: u16, body: &str) -> (r: Result<serde_json::Value, KiteError>)
    ensures
        is_success_status(status) && json_accepts(body@) ==> (r matches Ok(v) && v == json_of(
            body@,
        )),
        is_success_status(status) && !json_accepts(body@) ==> (r matches Err(e) && e matches
            KiteError::DecodeError(m) && m@ == body@),
        !is_success_status(status) ==> (r matches Err(e) && e matches KiteError::ApiError {
            status: st,
            message: m,
        } && st == status && m@ == body@),
{
    if !status_is_success(status) {
        return Err(KiteError::ApiError { status, message: body.to_owned() });
    }
    match parse_json(body) {
        Some(v) => Ok(v),
        None => Err(KiteError::DecodeError(body.to_owned())),
    }
}

/// Tabular mode: a success body is parsed as a header-led table into ordered
/// records; a failure status gives an `ApiError` carrying the raw error text
/// and the status, verbatim.
pub fn normalize_table(status: u16, body: &str) -> (r: Result<Vec<Record>, KiteError>)
    ensures
        is_success_status(status) ==> (r matches Ok(recs) && records_view(recs@) == table_of(
            body@,
        )),
        !is_success_status(status) ==> (r matches Err(e) && e matches KiteError::ApiError {
            status: st,
            message: m,
        } && st == status && m@ == body@),
{
    if !status_is_success(status) {
        return Err(KiteError::ApiError { status, message: body.to_owned() });
    }
    Ok(parse_table(body))
}

/// Tabular mode in the sandboxed runtime: no table parsing is available, so a
/// success body is returned verbatim as one opaque string; failures are
/// surfaced exactly as in the parsed mode.
pub fn normalize_table_raw(status: u16, body: &str) -> (r: Result<String, KiteError>)
    ensures
        is_success_status(status) ==> (r matches Ok(s) && s@ == body@),
        !is_success_status(status) ==> (r matches Err(e) && e matches KiteError::ApiError {
            status: st,
            message: m,
        } && st == status && m@ == body@),
{
    if !status_is_success(status) {
        return Err(KiteError::ApiError { status, message: body.to_owned() });
    }
    Ok(body.to_owned())
}

/// Normalizing a JSON read twice, with the server state unchanged, gives
/// structurally identical results: the JSON normalization of equal raw
/// responses is equal.
pub proof fn lemma_json_read_idempotent(
    status: u16,
    body: Seq<char>,
    r1: serde_json::Value,
    r2: serde_json::Value,
)
    requires
        is_success_status(status),
        json_accepts(body),
        r1 == json_of(body),
        r2 == json_of(body),
    ensures
        r1 == r2,
{
}

/// Normalizing a tabular read twice, with the server state unchanged, gives
/// structurally identical results: the tabular normalization of equal raw
/// responses is equal.
pub proof fn lemma_table_read_idempotent(
    status: u16,
    body: Seq<char>,
    r1: Seq<Seq<(Seq<char>, Seq<char>)>>,
    r2: Seq<Seq<(Seq<char>, Seq<char>)>>,
)
    requires
        is_success_status(status),
        r1 == table_of(body),
        r2 == table_of(body),
    ensures
        r1 == r2,
{
}

} // verus!
