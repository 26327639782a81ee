//! Keccak-256, the hash that the Schnorr variants use for their challenges.

use digest::Digest;
use sha3::Keccak256;
use vstd::prelude::*;

verus! {

/// The Keccak-256 digest of `data`.
pub uninterp spec fn keccak256(data: Seq<u8>) -> Seq<u8>;

/// Calls `Digest::digest` of `sha3::Keccak256` on `data`: the result is the
/// 32-byte digest, named `keccak256`. Feeding the same bytes to the hasher in
/// several `update` calls gives the same digest, so the callers hash one
/// concatenated transcript.
#[verifier::external_body]
pub(crate) fn keccak256_digest(data: &[u8]) -> (digest: [u8; 32])
    ensures
        digest@ == keccak256(data@),
{
    let mut out = [0u8; 32];
    out.copy_from_slice(&Keccak256::digest(data));
    out
}

} // verus!
