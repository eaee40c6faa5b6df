//! A proof-of-work nonce-search engine.
//!
//! Given a fixed block preimage (block index, previous-block entropy, farmer
//! address) the engine searches an 8-byte nonce space for a value whose
//! Keccak-256 digest satisfies a difficulty condition, expressed as a count
//! of leading zero bits.

pub mod encode;
pub mod evaluator;
pub mod hashrate;
pub mod keccak;
pub mod partition;
pub mod preimage;
pub mod search;

use vstd::prelude::*;

verus! {

} // verus!
