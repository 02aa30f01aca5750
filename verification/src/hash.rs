//! Keccak-256.

use vstd::prelude::*;

use crate::bytes::B256;

verus! {

/// The Keccak-256 hash of a byte string.
pub uninterp spec fn keccak256_hash(bytes: Seq<u8>) -> Seq<u8>;

/// `keccak256` of alloy: a function of the bytes alone, named `keccak256_hash`
/// here. Of the hash itself nothing is claimed but its 32 bytes.
#[verifier::external_body]
pub(crate) fn keccak256(bytes: &[u8]) -> (hash: B256)
    ensures
        hash@ == keccak256_hash(bytes@),
{
    alloy::primitives::keccak256(bytes).0
}

} // verus!
