//! The Keccak-256 hash.

use crate::primitives::H256;
use vstd::prelude::*;

verus! {

/// The Keccak-256 digest of `data`, as 32 bytes.
pub uninterp spec fn keccak256(data: Seq<u8>) -> Seq<u8>;

/// `keccak_hash::keccak` on the bytes of `data`.
///
/// Trusted: the digest depends on the bytes of `data` alone and is named [`keccak256`]. Nothing
/// else is claimed of it.
#[verifier::external_body]
pub(crate) fn keccak(data: &[u8]) -> (digest: H256)
    ensures
        digest@ == keccak256(data@),
{
    H256(keccak_hash::keccak(data).0)
}

} // verus!
