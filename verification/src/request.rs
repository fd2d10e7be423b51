//! The request descriptor: what one API call sends, before any transport.
//!
//! A descriptor is the full URL, the HTTP verb, and the body parameters as
//! ordered pairs. The verb fixes the body encoding: GET carries no body,
//! POST and PUT form-encode the parameters, DELETE sends them as a JSON
//! body. That asymmetry is part of the wire contract.

use vstd::prelude::*;
use crate::strutil::pairs_view;

verus! {

/// The HTTP verb of a request.
#[derive(Clone, Copy, Debug, PartialEq, Eq, Structural)]
pub enum Method {
    Get,
    Post,
    Put,
    Delete,
}

/// How the body parameters travel on the wire.
#[derive(Clone, Copy, Debug, PartialEq, Eq, Structural)]
pub enum BodyKind {
    Empty,
    FormEncoded,
    JsonEncoded,
}

/// One outgoing request: URL, verb, and ordered body parameters. Transient;
/// built per call and discarded after dispatch.
pub struct Request {
    pub url: String,
    pub method: Method,
    pub params: Vec<(String, String)>,
}

/// The body encoding each verb demands.
pub open spec fn body_kind_spec(m: Method) -> BodyKind {
    match m {
        Method::Get => BodyKind::Empty,
        Method::Post => BodyKind::FormEncoded,
        Method::Put => BodyKind::FormEncoded,
        Method::Delete => BodyKind::JsonEncoded,
    }
}

/// Picks the body encoding for a verb: GET none, POST and PUT form-encoded,
/// DELETE JSON-encoded.
pub fn body_kind(m: Method) -> (r: BodyKind)
    ensures
        r == body_kind_spec(m),
{
    match m {
        Method::Get => BodyKind::Empty,
        Method::Post => BodyKind::FormEncoded,
        Method::Put => BodyKind::FormEncoded,
        Method::Delete => BodyKind::JsonEncoded,
    }
}

/// The pair a present optional contributes, and the nothing an absent one
/// does: absent optionals are omitted, never sent as empty strings.
pub open spec fn opt_pair(name: Seq<char>, v: Option<&str>) -> Seq<(Seq<char>, Seq<char>)> {
    match v {
        Some(s) => seq![(name, s@)],
        None => Seq::empty(),
    }
}

/// Appends one required parameter.
pub fn push_pair(params: &mut Vec<(String, String)>, name: &str, value: &str)
    ensures
        pairs_view(final(params)@) == pairs_view(old(params)@).push((name@, value@)),
{
    params.push((name.to_owned(), value.to_owned()));
    proof {
        assert(pairs_view(params@) =~= pairs_view(old(params)@).push((name@, value@)));
    }
}

/// Appends an optional parameter when present; appends nothing when absent.
pub fn push_opt(params: &mut Vec<(String, String)>, name: &str, value: Option<&str>)
    ensures
        pairs_view(final(params)@) == pairs_view(old(params)@) + opt_pair(name@, value),
{
    match value {
        Some(s) => {
            params.push((name.to_owned(), s.to_owned()));
            proof {
                assert(pairs_view(params@) =~= pairs_view(old(params)@) + opt_pair(name@, value));
            }
        },
        None => {
            proof {
                assert(pairs_view(params@) =~= pairs_view(old(params)@) + opt_pair(name@, value));
            }
        },
    }
}

} // verus!
