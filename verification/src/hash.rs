//! The Keccak-256 hash.
use vstd::prelude::*;
use crate::bytes::Word;

verus! {

/// The Keccak-256 digest of `data`.
pub uninterp spec fn keccak256(data: Seq<u8>) -> Seq<u8>;

/// Calls `ethrex_common::utils::keccak`. Trusted: the digest is a function of
/// the hashed bytes alone, here named `keccak256`.
#[verifier::external_body]
pub(crate) fn keccak(data: &[u8]) -> (digest: Word)
    ensures
        digest@ == keccak256(data@),
{
    ethrex_common::utils::keccak(data).0
}

} // verus!
