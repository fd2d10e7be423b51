//! Verified client core for a brokerage REST trading API.
//!
//! The library holds the parts of the client that can be stated and proved:
//! URL composition and its parse-back, the login checksum, response
//! normalization (JSON envelope and the tabular instrument feed), and the
//! session token lifecycle. Network transport stays outside; callers hand
//! the raw HTTP outcome (status and body) back into the verified core.

pub mod errors;
pub mod strutil;
pub mod urlenc;
pub mod urls;
pub mod table;
pub mod checksum;
pub mod jsonio;
pub mod normalize;
pub mod request;
pub mod connect;

use vstd::prelude::*;

verus! {

/// The range of HTTP status codes that count as success.
pub open spec fn is_success_status(status: u16) -> bool {
    200 <= status && status < 300
}

/// Exec mirror of [`is_success_status`].
pub fn status_is_success(status: u16) -> (r: bool)
    ensures
        r == is_success_status(status),
{
    200 <= status && status < 300
}

} // verus!
