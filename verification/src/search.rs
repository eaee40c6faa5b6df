//! The search worker and coordinator. A worker walks a nonce range,
//! hashes each candidate preimage and feeds the score to the best-effort
//! state; the bounded coordinator runs one worker per contiguous chunk and
//! re-derives the digest of the final best nonce. The threshold policy
//! stops at the first qualifying nonce instead; the streaming policy walks
//! a strided sequence in fixed-size batches.

use vstd::prelude::*;
use crate::evaluator::{
    improve, lz_score, lz_score16, lemma_lz_range_bound, leading_zero_bits, BestState,
};
use crate::keccak::{keccak_of, keccak256};
use crate::partition::{
    chunk_bounds, chunk_end, chunk_start, lemma_chunk_in_domain, lemma_contiguous_cover,
    stride_nonce,
};
use crate::preimage::{
    lemma_nonce_isolation, lemma_with_nonce_same_outside, nonce_window_end, nonce_window_start,
    preimage_len, preimage_seq, with_nonce, Preimage,
};

verus! {

/// The leading-zero score of the digest that nonce `n` produces on
/// `template`. A 32-byte digest scores at most 256 bits, so the score is
/// kept in `u32` by capping; the cap is never reached by a Keccak-256
/// digest.
pub open spec fn candidate_bits(template: Seq<u8>, n: u64) -> u32 {
    let s = lz_score(keccak_of(with_nonce(template, n)));
    if s > 256 {
        256u32
    } else {
        s as u32
    }
}

/// Whether nonce `n` qualifies under the threshold policy: the leading 16
/// bytes of its digest carry at least `target_bits` leading zero bits.
pub open spec fn qualifies(template: Seq<u8>, n: u64, target_bits: u32) -> bool {
    lz_score16(keccak_of(with_nonce(template, n))) >= target_bits
}

/// The best-effort scan of the nonce range `[start, end)` in increasing
/// order, beginning from state `st`: each candidate score is offered to
/// `improve`, and only strictly greater scores are committed.
pub open spec fn scan(template: Seq<u8>, start: u64, end: u64, st: BestState) -> BestState
    decreases end - start,
{
    if start >= end {
        st
    } else {
        scan(
            template,
            (start + 1) as u64,
            end,
            improve(st, candidate_bits(template, start), start),
        )
    }
}

/// Scanning one more nonce applies one more `improve` step.
pub proof fn lemma_scan_step(template: Seq<u8>, start: u64, end: u64, st: BestState)
    requires
        start <= end < u64::MAX,
    ensures
        scan(template, start, (end + 1) as u64, st) == improve(
            scan(template, start, end, st),
            candidate_bits(template, end),
            end,
        ),
    decreases end - start,
{
    if start < end {
        lemma_scan_step(
            template,
            (start + 1) as u64,
            end,
            improve(st, candidate_bits(template, start), start),
        );
    } else {
        let st1 = improve(st, candidate_bits(template, end), end);
        assert(scan(template, (end + 1) as u64, (end + 1) as u64, st1) == st1);
        assert(scan(template, end, end, st) == st);
    }
}

/// Scanning two adjacent ranges one after the other equals scanning their
/// union.
pub proof fn lemma_scan_concat(template: Seq<u8>, a: u64, b: u64, c: u64, st: BestState)
    requires
        a <= b <= c,
    ensures
        scan(template, b, c, scan(template, a, b, st)) == scan(template, a, c, st),
    decreases b - a,
{
    if a < b {
        lemma_scan_concat(
            template,
            (a + 1) as u64,
            b,
            c,
            improve(st, candidate_bits(template, a), a),
        );
    }
}

/// What the scan finds: the final score is the maximum of the starting
/// score and every candidate score in the range, and whenever it improved
/// on the start, the final nonce is a nonce of the range that achieves it.
pub proof fn lemma_scan_max(template: Seq<u8>, start: u64, end: u64, st: BestState)
    ensures
        st.best_bits <= scan(template, start, end, st).best_bits,
        forall|n: u64|
            start <= n < end ==> #[trigger] candidate_bits(template, n) <= scan(
                template,
                start,
                end,
                st,
            ).best_bits,
        scan(template, start, end, st).best_bits > st.best_bits ==> exists|n: u64|
            start <= n < end && scan(template, start, end, st).best_nonce == n
                && #[trigger] candidate_bits(template, n) == scan(template, start, end, st).best_bits,
        scan(template, start, end, st).best_bits <= st.best_bits ==> scan(template, start, end, st)
            == st,
    decreases end - start,
{
    if start < end {
        let st1 = improve(st, candidate_bits(template, start), start);
        lemma_scan_max(template, (start + 1) as u64, end, st1);
        let fin = scan(template, start, end, st);
        if fin.best_bits > st.best_bits {
            if fin.best_bits > st1.best_bits {
                let n = choose|n: u64|
                    (start + 1) as u64 <= n < end && scan(
                        template,
                        (start + 1) as u64,
                        end,
                        st1,
                    ).best_nonce == n && #[trigger] candidate_bits(template, n) == scan(
                        template,
                        (start + 1) as u64,
                        end,
                        st1,
                    ).best_bits;
                assert(start <= n < end && fin.best_nonce == n && candidate_bits(template, n)
                    == fin.best_bits);
            } else {
                assert(fin == st1);
                assert(start <= start < end && fin.best_nonce == start && candidate_bits(
                    template,
                    start,
                ) == fin.best_bits);
            }
        }
    }
}

/// What the bounded best-effort search over `[0, n)` returns: no nonce of
/// the domain scores more than the final best; whenever anything scored,
/// the final nonce is the first nonce of the domain achieving that score;
/// and when nothing did, the reported nonce is zero.
pub proof fn lemma_bounded_best(template: Seq<u8>, n: u64)
    ensures
        forall|m: u64|
            m < n ==> #[trigger] candidate_bits(template, m) <= scan(
                template,
                0,
                n,
                BestState { best_bits: 0, best_nonce: 0 },
            ).best_bits,
        scan(template, 0, n, BestState { best_bits: 0, best_nonce: 0 }).best_bits > 0 ==> exists|
            m: u64,
        |
            m < n && scan(template, 0, n, BestState { best_bits: 0, best_nonce: 0 }).best_nonce
                == m && #[trigger] candidate_bits(template, m) == scan(
                template,
                0,
                n,
                BestState { best_bits: 0, best_nonce: 0 },
            ).best_bits,
        scan(template, 0, n, BestState { best_bits: 0, best_nonce: 0 }).best_bits == 0 ==> scan(
            template,
            0,
            n,
            BestState { best_bits: 0, best_nonce: 0 },
        ).best_nonce == 0,
{
    lemma_scan_max(template, 0, n, BestState { best_bits: 0, best_nonce: 0 });
}

/// The winning or best (nonce, digest) pair that a search returns.
pub struct Nonce {
    max_nonce: u64,
    local_hash: Vec<u8>,
}

impl Nonce {
    /// The nonce held.
    pub closed spec fn nonce_spec(&self) -> u64 {
        self.max_nonce
    }

    /// The digest bytes held.
    pub closed spec fn digest_spec(&self) -> Seq<u8> {
        self.local_hash@
    }

    pub fn new(max_nonce: u64, local_hash: Vec<u8>) -> (r: Nonce)
        ensures
            r.nonce_spec() == max_nonce,
            r.digest_spec() == local_hash@,
    {
        Nonce { max_nonce, local_hash }
    }

    pub fn max_nonce(&self) -> (r: u64)
        ensures
            r == self.nonce_spec(),
    {
        self.max_nonce
    }

    pub fn local_hash(&self) -> (r: Vec<u8>)
        ensures
            r@ == self.digest_spec(),
    {
        self.local_hash.clone()
    }
}

/// The digest of `pre` with `nonce` written into its window.
pub fn candidate_digest(pre: &mut Preimage, nonce: u64) -> (r: Vec<u8>)
    requires
        old(pre).wf(),
    ensures
        final(pre).wf(),
        final(pre)@ == with_nonce(old(pre)@, nonce),
        r@ == keccak_of(with_nonce(old(pre)@, nonce)),
        r@.len() == 32,
{
    pre.set_nonce(nonce);
    keccak256(pre.as_bytes())
}

/// The search worker of the best-effort policy: hashes every nonce of
/// `[start, end)` in order and offers each score to the shared state. The
/// final state is exactly the best-effort scan of the range; the bytes of
/// `pre` outside the nonce window are never altered.
pub fn mine_range(pre: &mut Preimage, start: u64, end: u64, st: &mut BestState)
    requires
        old(pre).wf(),
        start <= end,
    ensures
        final(pre).wf(),
        forall|i: int|
            0 <= i < preimage_len() && !(nonce_window_start() <= i < nonce_window_end())
                ==> final(pre)@[i] == old(pre)@[i],
        *final(st) == scan(old(pre)@, start, end, *old(st)),
{
    let ghost t0 = pre@;
    let ghost st0 = *st;
    let mut cur = start;
    while cur < end
        invariant
            pre.wf(),
            t0.len() == preimage_len(),
            start <= cur <= end,
            forall|i: int|
                0 <= i < preimage_len() && !(nonce_window_start() <= i < nonce_window_end())
                    ==> pre@[i] == t0[i],
            *st == scan(t0, start, cur, st0),
        decreases end - cur,
    {
        let ghost before = pre@;
        let digest = candidate_digest(pre, cur);
        proof {
            lemma_with_nonce_same_outside(before, t0, cur);
            lemma_lz_range_bound(digest@, 0, 32);
        }
        let bits = leading_zero_bits(&digest, 32);
        proof {
            assert(bits == candidate_bits(t0, cur));
            lemma_scan_step(t0, start, cur, st0);
        }
        st.try_improve(bits, cur);
        cur = cur + 1;
    }
}

/// Keeps the better of two best-effort results: the second replaces the
/// first only when its score is strictly greater. Folding the independent
/// per-chunk results in chunk order through this equals the sequential
/// scan (see `lemma_scan_merge`), which lets chunks be searched in
/// parallel.
pub fn merge(a: BestState, b: BestState) -> (r: BestState)
    ensures
        r == improve(a, b.best_bits, b.best_nonce),
{
    if b.best_bits > a.best_bits {
        b
    } else {
        a
    }
}

/// Scanning a range from any starting state equals scanning it from the
/// zero state and merging: the strictly-greater rule commits, in both
/// runs, the first nonce of the range that achieves the range's maximum.
pub proof fn lemma_scan_merge(template: Seq<u8>, start: u64, end: u64, st: BestState)
    ensures
        scan(template, start, end, st) == improve(
            st,
            scan(template, start, end, BestState { best_bits: 0, best_nonce: 0 }).best_bits,
            scan(template, start, end, BestState { best_bits: 0, best_nonce: 0 }).best_nonce,
        ),
    decreases end - start,
{
    let zero = BestState { best_bits: 0, best_nonce: 0 };
    if start < end {
        let c = candidate_bits(template, start);
        lemma_scan_merge(template, (start + 1) as u64, end, improve(st, c, start));
        lemma_scan_merge(template, (start + 1) as u64, end, improve(zero, c, start));
    }
}

/// The coordinator of the bounded best-effort policy. It owns the
/// preimage template, the shared best pair and the partition parameters.
pub struct HashMiner {
    pre: Preimage,
    state: BestState,
    nonce_count: u64,
    thread_count: u64,
}

impl HashMiner {
    /// The preimage bytes the search hashes (with whatever nonce is in the
    /// window; candidates overwrite it).
    pub closed spec fn template(&self) -> Seq<u8> {
        self.pre@
    }

    /// The shared best-effort state.
    pub closed spec fn state_spec(&self) -> BestState {
        self.state
    }

    /// The size of the bounded nonce domain `[0, nonce_count)`.
    pub closed spec fn nonce_count_spec(&self) -> u64 {
        self.nonce_count
    }

    /// The number of workers the domain is partitioned for.
    pub closed spec fn thread_count_spec(&self) -> u64 {
        self.thread_count
    }

    pub open spec fn wf(&self) -> bool {
        self.template().len() == preimage_len() && self.thread_count_spec() >= 1
    }

    /// Builds the fixed preimage once and starts from the zero state.
    pub fn new(
        thread_count: u64,
        nonce_count: u64,
        index: u32,
        entropy: &Vec<u8>,
        farmer: &Vec<u8>,
    ) -> (r: HashMiner)
        requires
            thread_count >= 1,
            entropy@.len() == 32,
            farmer@.len() == 32,
        ensures
            r.wf(),
            r.template() == preimage_seq(index, entropy@, farmer@),
            r.state_spec() == (BestState { best_bits: 0, best_nonce: 0 }),
            r.nonce_count_spec() == nonce_count,
            r.thread_count_spec() == thread_count,
    {
        HashMiner {
            pre: Preimage::build(index, entropy, farmer),
            state: BestState::zero(),
            nonce_count,
            thread_count,
        }
    }

    /// The bounded best-effort search: every worker chunk is scanned to
    /// completion in chunk order, then the digest of the final best nonce
    /// is re-derived. The result is exactly the best-effort scan of the
    /// whole domain `[0, nonce_count)`; this mode always returns a pair,
    /// even when nothing scored.
    pub fn mine(&mut self) -> (r: Nonce)
        requires
            old(self).wf(),
            old(self).state_spec() == (BestState { best_bits: 0, best_nonce: 0 }),
        ensures
            final(self).wf(),
            final(self).state_spec() == scan(
                old(self).template(),
                0,
                old(self).nonce_count_spec(),
                BestState { best_bits: 0, best_nonce: 0 },
            ),
            r.nonce_spec() == final(self).state_spec().best_nonce,
            r.digest_spec() == keccak_of(
                with_nonce(old(self).template(), r.nonce_spec()),
            ),
            r.digest_spec().len() == 32,
    {
        let ghost t0 = self.pre@;
        let ghost zero = BestState { best_bits: 0, best_nonce: 0 };
        let t = self.thread_count;
        let n = self.nonce_count;
        proof {
            lemma_contiguous_cover(t, n);
        }
        let mut i: u64 = 0;
        while i < t
            invariant
                self.pre.wf(),
                t0.len() == preimage_len(),
                t == self.thread_count,
                n == self.nonce_count,
                t >= 1,
                i <= t,
                forall|k: int|
                    0 <= k < preimage_len() && !(nonce_window_start() <= k < nonce_window_end())
                        ==> self.pre@[k] == t0[k],
                i < t ==> 0 <= chunk_start(i, t, n) <= n && self.state == scan(
                    t0,
                    0,
                    chunk_start(i, t, n) as u64,
                    zero,
                ),
                i == t ==> self.state == scan(t0, 0, n, zero),
            decreases t - i,
        {
            proof {
                lemma_contiguous_cover(t, n);
                lemma_chunk_in_domain(i, t, n);
            }
            let (s, e) = chunk_bounds(i, t, n);
            let ghost st_before = self.state;
            let ghost pre_b = self.pre@;
            mine_range(&mut self.pre, s, e, &mut self.state);
            proof {
                lemma_with_nonce_same_outside_all(t0, pre_b);
                lemma_scan_concat(t0, 0, s, e, zero);
                if i + 1 < t {
                    lemma_chunk_in_domain((i + 1) as u64, t, n);
                    assert(chunk_end(i, t, n) == chunk_start((i + 1) as u64, t, n));
                } else {
                    assert(chunk_end(i, t, n) == n);
                }
            }
            i = i + 1;
        }
        let best = self.state.best_nonce;
        let ghost pre_after = self.pre@;
        let digest = candidate_digest(&mut self.pre, best);
        proof {
            lemma_with_nonce_same_outside(pre_after, t0, best);
        }
        Nonce::new(best, digest)
    }
}

/// The search worker of the threshold policy: walks `[start, end)` in
/// order and stops at the first nonce whose digest has at least
/// `target_bits` leading zero bits among its first 16 bytes. `None` means
/// the range is exhausted with no qualifying nonce; a zero target is
/// satisfied immediately.
pub fn search_threshold(pre: &mut Preimage, start: u64, end: u64, target_bits: u32) -> (r: Option<
    Nonce,
>)
    requires
        old(pre).wf(),
        start <= end,
    ensures
        final(pre).wf(),
        forall|i: int|
            0 <= i < preimage_len() && !(nonce_window_start() <= i < nonce_window_end())
                ==> final(pre)@[i] == old(pre)@[i],
        match r {
            Some(found) => start <= found.nonce_spec() < end && qualifies(
                old(pre)@,
                found.nonce_spec(),
                target_bits,
            ) && (forall|m: u64|
                start <= m < found.nonce_spec() ==> !qualifies(old(pre)@, m, target_bits))
                && found.digest_spec() == keccak_of(with_nonce(old(pre)@, found.nonce_spec()))
                && found.digest_spec().len() == 32,
            None => forall|m: u64| start <= m < end ==> !qualifies(old(pre)@, m, target_bits),
        },
        target_bits == 0 && start < end ==> r is Some,
{
    let ghost t0 = pre@;
    let mut cur = start;
    while cur < end
        invariant
            pre.wf(),
            old(pre)@ == t0,
            t0.len() == preimage_len(),
            start <= cur <= end,
            forall|i: int|
                0 <= i < preimage_len() && !(nonce_window_start() <= i < nonce_window_end())
                    ==> pre@[i] == t0[i],
            forall|m: u64| start <= m < cur ==> !qualifies(t0, m, target_bits),
        decreases end - cur,
    {
        let ghost before = pre@;
        let digest = candidate_digest(pre, cur);
        proof {
            lemma_with_nonce_same_outside(before, t0, cur);
            lemma_nonce_isolation(before, cur);
        }
        let bits = leading_zero_bits(&digest, 16);
        if bits >= target_bits {
            return Some(Nonce::new(cur, digest));
        }
        cur = cur + 1;
    }
    proof {
        if target_bits == 0 && start < end {
            assert(qualifies(t0, start, target_bits));
            assert(false);
        }
    }
    None
}

/// One batch of the unbounded streaming policy. The worker that owns
/// offset `first` visits `first`, `first + stride`, `first + 2·stride`, …
/// and attempts up to `batch` nonces under the threshold test, stopping
/// early at the first qualifying nonce or at the top of the nonce domain
/// (the walk saturates there; it never wraps around). Also returns how
/// many nonces were attempted, to be added to the shared hash counter.
pub fn mine_batch_strided(
    pre: &mut Preimage,
    first: u64,
    stride: u64,
    batch: u64,
    target_bits: u32,
) -> (r: (Option<Nonce>, u64))
    requires
        old(pre).wf(),
        stride >= 1,
    ensures
        final(pre).wf(),
        forall|i: int|
            0 <= i < preimage_len() && !(nonce_window_start() <= i < nonce_window_end())
                ==> final(pre)@[i] == old(pre)@[i],
        r.1 <= batch,
        match r.0 {
            Some(found) => r.1 >= 1 && stride_nonce(first, stride, r.1 - 1) == found.nonce_spec()
                && qualifies(old(pre)@, found.nonce_spec(), target_bits) && (forall|k: int|
                0 <= k < r.1 - 1 ==> stride_nonce(first, stride, k) <= u64::MAX && !qualifies(
                    old(pre)@,
                    stride_nonce(first, stride, k) as u64,
                    target_bits,
                )) && found.digest_spec() == keccak_of(with_nonce(old(pre)@, found.nonce_spec()))
                && found.digest_spec().len() == 32,
            None => (forall|k: int|
                0 <= k < r.1 ==> stride_nonce(first, stride, k) <= u64::MAX && !qualifies(
                    old(pre)@,
                    stride_nonce(first, stride, k) as u64,
                    target_bits,
                )) && (r.1 < batch ==> stride_nonce(first, stride, r.1 as int) > u64::MAX),
        },
{
    let ghost t0 = pre@;
    let mut k: u64 = 0;
    let mut cur: u64 = first;
    while k < batch
        invariant
            pre.wf(),
            old(pre)@ == t0,
            t0.len() == preimage_len(),
            stride >= 1,
            k <= batch,
            forall|i: int|
                0 <= i < preimage_len() && !(nonce_window_start() <= i < nonce_window_end())
                    ==> pre@[i] == t0[i],
            k < batch ==> cur == stride_nonce(first, stride, k as int),
            forall|j: int|
                0 <= j < k ==> stride_nonce(first, stride, j) <= u64::MAX && !qualifies(
                    t0,
                    stride_nonce(first, stride, j) as u64,
                    target_bits,
                ),
        decreases batch - k,
    {
        let ghost before = pre@;
        let digest = candidate_digest(pre, cur);
        proof {
            lemma_with_nonce_same_outside(before, t0, cur);
            lemma_nonce_isolation(before, cur);
        }
        let bits = leading_zero_bits(&digest, 16);
        if bits >= target_bits {
            return (Some(Nonce::new(cur, digest)), k + 1);
        }
        k = k + 1;
        if k < batch {
            proof {
                assert(stride_nonce(first, stride, k as int) == cur + stride) by (nonlinear_arith)
                    requires
                        cur == first + (k - 1) * stride,
                ;
            }
            match cur.checked_add(stride) {
                Some(nx) => {
                    cur = nx;
                },
                None => {
                    return (None, k);
                },
            }
        }
    }
    (None, batch)
}

/// Two buffers that agree outside the nonce window stay interchangeable
/// as templates: every nonce yields the same candidate bytes on both.
proof fn lemma_with_nonce_same_outside_all(t0: Seq<u8>, t1: Seq<u8>)
    requires
        t0.len() == preimage_len(),
        t1.len() == preimage_len(),
        forall|i: int|
            0 <= i < preimage_len() && !(nonce_window_start() <= i < nonce_window_end()) ==> t1[i]
                == t0[i],
    ensures
        forall|n: u64| #[trigger] with_nonce(t1, n) == with_nonce(t0, n),
        forall|n: u64| #[trigger] candidate_bits(t1, n) == candidate_bits(t0, n),
        forall|st: BestState, a: u64, b: u64| #[trigger] scan(t1, a, b, st) == scan(t0, a, b, st),
{
    assert forall|n: u64| #[trigger] with_nonce(t1, n) == with_nonce(t0, n) by {
        lemma_with_nonce_same_outside(t1, t0, n);
    }
    assert forall|st: BestState, a: u64, b: u64| #[trigger] scan(t1, a, b, st) == scan(
        t0,
        a,
        b,
        st,
    ) by {
        lemma_scan_same_template(t0, t1, a, b, st);
    }
}

/// Scans over templates with equal candidates are equal.
proof fn lemma_scan_same_template(t0: Seq<u8>, t1: Seq<u8>, a: u64, b: u64, st: BestState)
    requires
        forall|n: u64| #[trigger] candidate_bits(t1, n) == candidate_bits(t0, n),
    ensures
        scan(t1, a, b, st) == scan(t0, a, b, st),
    decreases b - a,
{
    if a < b {
        lemma_scan_same_template(
            t0,
            t1,
            (a + 1) as u64,
            b,
            improve(st, candidate_bits(t0, a), a),
        );
    }
}

} // verus!
