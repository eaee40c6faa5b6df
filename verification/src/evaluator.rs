//! The difficulty evaluator: counting leading zero bits of a digest, the
//! threshold test over the leading 16 digest bytes, and the best-effort
//! policy that keeps the strictly best score seen so far.

use vstd::prelude::*;
use vstd::std_specs::bits::{u8_leading_zeros, axiom_u8_leading_zeros};

verus! {

/// Leading zero bits of `s[i..end]`, read big-endian: eight bits for every
/// zero byte, then the leading zeros of the first nonzero byte.
pub open spec fn lz_range(s: Seq<u8>, i: int, end: int) -> nat
    decreases end - i,
{
    if i < 0 || i >= end || i >= s.len() {
        0
    } else if s[i] == 0 {
        (8 + lz_range(s, i + 1, end)) as nat
    } else {
        u8_leading_zeros(s[i]) as nat
    }
}

/// Leading zero bits of a whole digest.
pub open spec fn lz_score(s: Seq<u8>) -> nat {
    lz_range(s, 0, s.len() as int)
}

/// Leading zero bits of the first 16 digest bytes, the part the threshold
/// policy inspects.
pub open spec fn lz_score16(s: Seq<u8>) -> nat {
    lz_range(s, 0, 16)
}

/// A run of zero bytes contributes eight bits each.
pub proof fn lemma_lz_range_zeros(s: Seq<u8>, a: int, i: int, end: int)
    requires
        0 <= a <= i <= end,
        end <= s.len(),
        forall|j: int| a <= j < i ==> s[j] == 0,
    ensures
        lz_range(s, a, end) == 8 * (i - a) + lz_range(s, i, end),
    decreases i - a,
{
    if a < i {
        lemma_lz_range_zeros(s, a + 1, i, end);
    }
}

/// A score never exceeds eight bits per inspected byte.
pub proof fn lemma_lz_range_bound(s: Seq<u8>, i: int, end: int)
    requires
        0 <= i,
    ensures
        lz_range(s, i, end) <= 8 * (if end - i >= 0 { end - i } else { 0 }),
    decreases end - i,
{
    if i < end && i < s.len() {
        if s[i] == 0 {
            lemma_lz_range_bound(s, i + 1, end);
        } else {
            axiom_u8_leading_zeros(s[i]);
        }
    }
}

/// An all-zero digest scores the maximum: eight bits per byte.
pub proof fn lemma_score_all_zero(s: Seq<u8>)
    requires
        forall|j: int| 0 <= j < s.len() ==> s[j] == 0,
    ensures
        lz_score(s) == 8 * s.len(),
{
    lemma_lz_range_zeros(s, 0, s.len() as int, s.len() as int);
}

/// A digest whose first byte has its top bit set scores zero; in
/// particular an all-0xff digest does.
pub proof fn lemma_score_top_bit_set(s: Seq<u8>)
    requires
        s.len() > 0,
        s[0] >= 0x80,
    ensures
        lz_score(s) == 0,
{
    axiom_u8_leading_zeros(s[0]);
    let b = s[0];
    let k = u8_leading_zeros(b);
    if k >= 1 {
        // The top bit would then be among the leading zeros.
        assert(8 - k <= 7 < 8);
        assert((b >> 7u8) & 1u8 == 0u8);
        assert(b >= 0x80 ==> (b >> 7u8) & 1u8 == 1u8) by (bit_vector);
        assert(false);
    }
}

/// Leading zero bits of `digest[0..limit]`, stopping at the first nonzero
/// byte.
pub fn leading_zero_bits(digest: &Vec<u8>, limit: usize) -> (r: u32)
    requires
        limit <= digest@.len(),
        limit <= 0x1000_0000,
    ensures
        r == lz_range(digest@, 0, limit as int),
{
    let mut i: usize = 0;
    let mut zeros: u32 = 0;
    while i < limit
        invariant
            i <= limit,
            limit <= digest@.len(),
            limit <= 0x1000_0000,
            zeros == 8 * i,
            forall|j: int| 0 <= j < i ==> digest@[j] == 0,
        decreases limit - i,
    {
        let b = digest[i];
        if b == 0 {
            zeros = zeros + 8;
            i = i + 1;
        } else {
            proof {
                axiom_u8_leading_zeros(b);
                lemma_lz_range_zeros(digest@, 0, i as int, limit as int);
            }
            return zeros + b.leading_zeros();
        }
    }
    proof {
        lemma_lz_range_zeros(digest@, 0, limit as int, limit as int);
    }
    zeros
}

/// The threshold policy: the leading 16 bytes of the digest, read as a
/// big-endian integer, must have at least `target_bits` leading zero bits.
/// Digest bytes past the sixteenth are never inspected.
pub fn passes(digest: &Vec<u8>, target_bits: u32) -> (r: bool)
    requires
        digest@.len() >= 16,
    ensures
        r == (lz_score16(digest@) >= target_bits),
{
    let bits = leading_zero_bits(digest, 16);
    bits >= target_bits
}

/// The difficulty target of the threshold policy: four bits per required
/// hexadecimal zero digit.
pub fn target_bits_of(min_zeros: u32) -> (r: u32)
    requires
        min_zeros <= u32::MAX / 4,
    ensures
        r == min_zeros * 4,
{
    min_zeros * 4
}

/// Shared search state of the best-effort policy: the best score seen so
/// far and the nonce that achieved it.
#[derive(Clone, Copy, PartialEq, Eq, Structural)]
pub struct BestState {
    pub best_bits: u32,
    pub best_nonce: u64,
}

/// `st` after an attempt that scored `bits` at `nonce`: only a strictly
/// greater score replaces the best pair.
pub open spec fn improve(st: BestState, bits: u32, nonce: u64) -> BestState {
    if bits > st.best_bits {
        BestState { best_bits: bits, best_nonce: nonce }
    } else {
        st
    }
}

impl BestState {
    /// The state before any attempt.
    pub fn zero() -> (r: BestState)
        ensures
            r == (BestState { best_bits: 0, best_nonce: 0 }),
    {
        BestState { best_bits: 0, best_nonce: 0 }
    }

    /// Commits `(bits, nonce)` as the new best only if `bits` strictly
    /// exceeds the current best; reports whether an update occurred.
    pub fn try_improve(&mut self, bits: u32, nonce: u64) -> (r: bool)
        ensures
            r == (bits > old(self).best_bits),
            *final(self) == improve(*old(self), bits, nonce),
    {
        if bits > self.best_bits {
            self.best_bits = bits;
            self.best_nonce = nonce;
            true
        } else {
            false
        }
    }
}

/// The best score never decreases, and an update records exactly the
/// committed pair.
pub proof fn lemma_improve_monotonic(st: BestState, bits: u32, nonce: u64)
    ensures
        improve(st, bits, nonce).best_bits >= st.best_bits,
        improve(st, bits, nonce).best_bits >= bits || improve(st, bits, nonce) == st,
{
}

/// Only strictly greater scores win: once a score has been committed, a
/// second attempt with an equal score reports no success.
pub proof fn lemma_no_equal_double_commit(st: BestState, bits: u32, n1: u64, n2: u64)
    ensures
        bits > st.best_bits ==> !(bits > improve(st, bits, n1).best_bits),
        improve(improve(st, bits, n1), bits, n2) == improve(st, bits, n1),
{
}

} // verus!
