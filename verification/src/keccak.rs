//! The Keccak-256 digest, taken from the `sha3` crate. The digest of a
//! byte string is named `keccak_of`; nothing else is assumed of it beyond
//! its 32-byte length.

use vstd::prelude::*;
use sha3::Digest;
use crate::preimage::{preimage_seq, with_nonce, Preimage};

verus! {

pub uninterp spec fn keccak_of(s: Seq<u8>) -> Seq<u8>;

/// Relies on `sha3::Keccak256` (through the `Digest` trait): the digest is
/// 32 bytes and depends on the input bytes alone.
#[verifier::external_body]
pub(crate) fn keccak256(data: &Vec<u8>) -> (r: Vec<u8>)
    ensures
        r@ == keccak_of(data@),
        r@.len() == 32,
{
    sha3::Keccak256::digest(data.as_slice()).to_vec()
}

/// Building the preimage for fixed (index, entropy, farmer, nonce) twice
/// yields identical bytes, and therefore identical digests.
pub proof fn lemma_build_deterministic(
    p1: Preimage,
    p2: Preimage,
    index: u32,
    entropy: Seq<u8>,
    farmer: Seq<u8>,
    nonce: u64,
)
    requires
        p1@ == with_nonce(preimage_seq(index, entropy, farmer), nonce),
        p2@ == with_nonce(preimage_seq(index, entropy, farmer), nonce),
    ensures
        p1@ == p2@,
        keccak_of(p1@) == keccak_of(p2@),
{
}

} // verus!
