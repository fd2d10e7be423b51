//! The login checksum: a SHA-256 digest of concatenated credential material,
//! rendered as lowercase hex.
//!
//! Two interchangeable backends exist. The native one hashes locally through
//! the `sha2` crate. In a sandboxed runtime without a local hash primitive,
//! the host's cryptographic subsystem computes the raw digest and hands it
//! back as plain bytes; [`checksum_from_host`] renders it. Both produce the
//! same text whenever the host digest really is the SHA-256 of the input
//! ([`lemma_checksum_backends_agree`]).

use vstd::prelude::*;
use vstd::string::StringExecFns;
use sha2::Digest;
use crate::errors::KiteError;

verus! {

/// The SHA-256 digest of the UTF-8 bytes of a string: a function of the
/// input alone, 32 bytes long, computed only by the trusted backends.
pub uninterp spec fn sha256_of(s: Seq<char>) -> Seq<u8>;

/// The lowercase hex digit for a value below 16.
pub open spec fn hex_lower_digit(v: u8) -> char {
    if v == 0 { '0' } else if v == 1 { '1' } else if v == 2 { '2' } else if v == 3 { '3' }
    else if v == 4 { '4' } else if v == 5 { '5' } else if v == 6 { '6' } else if v == 7 { '7' }
    else if v == 8 { '8' } else if v == 9 { '9' } else if v == 10 { 'a' } else if v == 11 { 'b' }
    else if v == 12 { 'c' } else if v == 13 { 'd' } else if v == 14 { 'e' } else { 'f' }
}

/// Lowercase hex text of a byte string: two digits per byte, in order.
pub open spec fn hex_of(bytes: Seq<u8>) -> Seq<char>
    decreases bytes.len(),
{
    if bytes.len() == 0 {
        Seq::empty()
    } else {
        seq![hex_lower_digit(bytes[0] / 16), hex_lower_digit(bytes[0] % 16)] + hex_of(
            bytes.drop_first(),
        )
    }
}

/// Hex text is exactly twice as long as its bytes.
pub proof fn lemma_hex_of_len(bytes: Seq<u8>)
    ensures
        hex_of(bytes).len() == 2 * bytes.len(),
    decreases bytes.len(),
{
    if bytes.len() > 0 {
        lemma_hex_of_len(bytes.drop_first());
    }
}

/// The checksum text of an input string: lowercase hex of its SHA-256.
pub open spec fn sha256_hex_of(s: Seq<char>) -> Seq<char> {
    hex_of(sha256_of(s))
}

/// Relies on `sha2::Sha256::digest`: the SHA-256 digest of the input bytes,
/// 32 bytes, a function of the input alone.
#[verifier::external_body]
fn sha256_digest(s: &str) -> (r: Vec<u8>)
    ensures
        r@ == sha256_of(s@),
        r@.len() == 32,
{
    sha2::Sha256::digest(s.as_bytes()).to_vec()
}

/// Relies on `hex::encode`: lowercase hex, two digits per byte, in order.
#[verifier::external_body]
fn hex_encode(b: &Vec<u8>) -> (r: String)
    ensures
        r@ == hex_of(b@),
{
    hex::encode(b.as_slice())
}

/// The native checksum backend: hashes locally and renders the digest. The
/// result is always the 64-character lowercase hex of the input's SHA-256.
pub fn native_checksum(input: &str) -> (r: String)
    ensures
        r@ == sha256_hex_of(input@),
        r@.len() == 64,
{
    let digest = sha256_digest(input);
    let out = hex_encode(&digest);
    proof {
        lemma_hex_of_len(digest@);
    }
    out
}

/// The host-crypto checksum backend's rendering step: the host subsystem, if
/// present, has produced the raw digest bytes; absent a working subsystem the
/// call fails with `CryptoUnavailable` rather than falling back.
pub fn checksum_from_host(digest: Option<Vec<u8>>) -> (r: Result<String, KiteError>)
    ensures
        match digest {
            Some(d) => r matches Ok(s) && s@ == hex_of(d@),
            None => r matches Err(e) && e matches KiteError::CryptoUnavailable,
        },
{
    match digest {
        Some(d) => Ok(hex_encode(&d)),
        None => Err(KiteError::CryptoUnavailable),
    }
}

/// The two checksum backends agree: whenever the host subsystem returns the
/// true SHA-256 digest of the input, rendering it gives exactly the native
/// backend's output.
pub proof fn lemma_checksum_backends_agree(input: Seq<char>, digest: Seq<u8>)
    requires
        digest == sha256_of(input),
    ensures
        hex_of(digest) == sha256_hex_of(input),
{
}

/// The material the login checksum covers: api key, transient token and
/// secret, concatenated in that order with no delimiter.
pub fn checksum_input(api_key: &str, token: &str, api_secret: &str) -> (r: String)
    ensures
        r@ == api_key@ + token@ + api_secret@,
{
    let mut out = String::from_str(api_key);
    out.append(token);
    out.append(api_secret);
    out
}

} // verus!
