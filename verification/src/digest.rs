//! The SHA-512/256 digest, computed by `ring`.

use vstd::prelude::*;

verus! {

/// The SHA-512/256 digest of `data`, as `ring::digest::digest(&SHA512_256, data)` computes it.
pub uninterp spec fn sha512_256(data: Seq<u8>) -> Seq<u8>;

/// Calls `ring::digest::digest` with the `SHA512_256` algorithm. Trusted: the
/// result is the digest of `data` (a function of `data` alone) and is 32 bytes
/// long, the output length that ring documents for SHA-512/256.
#[verifier::external_body]
pub(crate) fn sha512_256_digest(data: &[u8]) -> (r: Vec<u8>)
    ensures
        r@ == sha512_256(data@),
        r@.len() == 32,
{
    ring::digest::digest(&ring::digest::SHA512_256, data).as_ref().to_vec()
}

} // verus!

verus! {

/// The SHA-512 digest of `data`, as `sha2::Sha512` computes it.
pub uninterp spec fn sha512(data: Seq<u8>) -> Seq<u8>;

/// Calls `<sha2::Sha512 as sha2::Digest>::digest`. Trusted: the result is the
/// digest of `data` (a function of `data` alone) and is 64 bytes long.
#[verifier::external_body]
pub(crate) fn sha512_digest(data: &[u8]) -> (r: Vec<u8>)
    ensures
        r@ == sha512(data@),
        r@.len() == 64,
{
    <sha2::Sha512 as sha2::Digest>::digest(data).to_vec()
}

} // verus!
