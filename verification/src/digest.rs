//! Content checksums for uploaded archives.

use vstd::prelude::*;

use sha2::Digest;

verus! {

/// The lowercase hex rendering of the SHA-256 digest of a byte sequence.
pub uninterp spec fn sha256_hex_of(b: Seq<u8>) -> Seq<char>;

/// Relies on sha2's `Sha256::digest` (a 32-byte digest that is a function of
/// the input bytes alone) and on hex's `encode` (two lowercase hex digits per
/// digest byte, hence 64 characters).
#[verifier::external_body]
pub fn sha256_hex(b: &[u8]) -> (r: String)
    ensures
        r@ == sha256_hex_of(b@),
        r@.len() == 64,
{
    hex::encode(sha2::Sha256::digest(b))
}

} // verus!
