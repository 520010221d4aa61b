//! Content digests: SHA-256, written as lower-case hexadecimal.

use vstd::prelude::*;

verus! {

/// The lower-case hexadecimal SHA-256 digest of `data`.
pub uninterp spec fn sha256_hex(data: Seq<u8>) -> Seq<char>;

/// Relies on `sha2::Sha256::digest` and on the `LowerHex` form of its
/// output: the digest of the bytes, two hex digits per byte.
#[verifier::external_body]
fn sha256_hex_of(data: &[u8]) -> (r: String)
    ensures
        r@ == sha256_hex(data@),
{
    format!("{:x}", <sha2::Sha256 as sha2::Digest>::digest(data))
}

/// The digest recorded for a file with content `data`.
pub fn calculate_sha256(data: &[u8]) -> (r: String)
    ensures
        r@ == sha256_hex(data@),
{
    sha256_hex_of(data)
}

} // verus!
