//! The failure taxonomy of the client core.

use vstd::prelude::*;

verus! {

/// Every failure a call can surface.
///
/// - `CryptoUnavailable`: the checksum backend has no working hash primitive.
/// - `TransportError`: a network-level failure, carried verbatim from the
///   transport layer; never produced by the verified core itself.
/// - `ApiError`: the server answered with a non-success status; carries the
///   raw error body untouched.
/// - `DecodeError`: a success response whose body did not decode as expected;
///   carries the offending body.
#[derive(Debug, Clone, PartialEq, Eq)]
pub enum KiteError {
    CryptoUnavailable,
    TransportError(String),
    ApiError { status: u16, message: String },
    DecodeError(String),
}

impl KiteError {
    /// The human-readable text of the failure. For a server rejection this is
    /// the server's diagnostic body, verbatim.
    pub open spec fn spec_message(&self) -> Seq<char> {
        match self {
            KiteError::CryptoUnavailable => "no working cryptographic backend"@,
            KiteError::TransportError(m) => m@,
            KiteError::ApiError { status: _, message } => message@,
            KiteError::DecodeError(m) => m@,
        }
    }

    /// Returns the failure text; for `ApiError` the raw server body.
    pub fn message(&self) -> (r: String)
        ensures
            r@ == self.spec_message(),
    {
        match self {
            KiteError::CryptoUnavailable => "no working cryptographic backend".to_owned(),
            KiteError::TransportError(m) => m.clone(),
            KiteError::ApiError { status: _, message } => message.clone(),
            KiteError::DecodeError(m) => m.clone(),
        }
    }
}

} // verus!
