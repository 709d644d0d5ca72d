//! SHA-256 digests and their hexadecimal form.

use crate::text::{hex, to_hex};
use sha2::Digest;
use vstd::prelude::*;

verus! {

/// The SHA-256 digest of `data`, as computed by `sha2::Sha256`.
pub uninterp spec fn sha256(data: Seq<u8>) -> Seq<u8>;

/// Calls `sha2::Sha256::digest`: the result is the 32-byte SHA-256 digest of
/// `data`, which depends on the bytes of `data` alone.
#[verifier::external_body]
pub(crate) fn sha256_bytes(data: &[u8]) -> (digest: [u8; 32])
    ensures
        digest@ == sha256(data@),
{
    sha2::Sha256::digest(data).into()
}

/// The SHA-256 digest of `data` in lower-case hexadecimal notation.
pub open spec fn hex_digest(data: Seq<u8>) -> Seq<char> {
    hex(sha256(data))
}

/// Computes the SHA-256 digest of `data` and writes it in lower-case
/// hexadecimal notation: 64 characters.
pub fn sha256_hex(data: &[u8]) -> (text: String)
    ensures
        text@ == hex_digest(data@),
        text@.len() == 64,
{
    let digest = sha256_bytes(data);
    to_hex(digest.as_slice())
}

} // verus!
