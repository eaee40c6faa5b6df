//! The work partitioner: dividing the nonce domain `[0, n)` among `t`
//! workers, either as contiguous chunks or as strided sequences. Both
//! assignments cover the domain with no gap and no overlap.

use vstd::prelude::*;
use vstd::arithmetic::div_mod::{lemma_fundamental_div_mod, lemma_fundamental_div_mod_converse};
use vstd::arithmetic::mul::lemma_mul_inequality;

verus! {

/// Width of each contiguous chunk: the domain size divided by the worker
/// count, rounded down.
pub open spec fn chunk_width(n: u64, t: u64) -> u64
    recommends
        t >= 1,
{
    n / t
}

/// First nonce of worker `i`'s contiguous chunk.
pub open spec fn chunk_start(i: u64, t: u64, n: u64) -> int {
    i * chunk_width(n, t)
}

/// One past the last nonce of worker `i`'s contiguous chunk; the last
/// worker absorbs the remainder up to `n`.
pub open spec fn chunk_end(i: u64, t: u64, n: u64) -> int {
    if i == t - 1 {
        n as int
    } else {
        (i + 1) * chunk_width(n, t)
    }
}

/// Every chunk is an interval inside `[0, n)`.
pub proof fn lemma_chunk_in_domain(i: u64, t: u64, n: u64)
    requires
        t >= 1,
        i < t,
    ensures
        0 <= chunk_start(i, t, n) <= chunk_end(i, t, n) <= n,
{
    let c = chunk_width(n, t) as int;
    lemma_fundamental_div_mod(n as int, t as int);
    lemma_mul_inequality(i as int, t as int, c);
    lemma_mul_inequality(i as int + 1, t as int, c);
    lemma_mul_inequality(i as int, i as int + 1, c);
    assert(i * c >= 0) by (nonlinear_arith)
        requires
            i >= 0,
            c >= 0,
    ;
}

/// Adjacent chunks meet end to start: the partition has no gap and no
/// overlap, and the union of all chunks is exactly `[0, n)`.
pub proof fn lemma_contiguous_cover(t: u64, n: u64)
    requires
        t >= 1,
    ensures
        chunk_start(0, t, n) == 0,
        chunk_end((t - 1) as u64, t, n) == n,
        forall|i: u64| 0 < i < t ==> chunk_end((i - 1) as u64, t, n) == chunk_start(i, t, n),
{
    assert(forall|i: u64|
        0 < i < t ==> chunk_end((i - 1) as u64, t, n) == chunk_start(i, t, n)) by {
        assert forall|i: u64| 0 < i < t implies chunk_end((i - 1) as u64, t, n) == chunk_start(
            i,
            t,
            n,
        ) by {
            assert(((i - 1) as u64) != t - 1);
        }
    }
}

/// Chunks of distinct workers are disjoint.
pub proof fn lemma_chunks_disjoint(i: u64, j: u64, t: u64, n: u64)
    requires
        t >= 1,
        i < j < t,
    ensures
        chunk_end(i, t, n) <= chunk_start(j, t, n),
{
    let c = chunk_width(n, t) as int;
    lemma_mul_inequality(i as int + 1, j as int, c);
    if j == t - 1 {
        lemma_fundamental_div_mod(n as int, t as int);
        lemma_mul_inequality(j as int, t as int, c);
    }
}

/// Every nonce of the domain falls in the chunk of exactly one worker.
pub proof fn lemma_chunk_of_nonce(t: u64, n: u64, x: u64)
    requires
        t >= 1,
        x < n,
    ensures
        exists|i: u64| i < t && #[trigger] chunk_start(i, t, n) <= x < chunk_end(i, t, n),
        forall|i: u64, j: u64|
            i < t && j < t && #[trigger] chunk_start(i, t, n) <= x < chunk_end(i, t, n)
                && #[trigger] chunk_start(j, t, n) <= x < chunk_end(j, t, n) ==> i == j,
{
    let c = chunk_width(n, t) as int;
    lemma_fundamental_div_mod(n as int, t as int);
    if c == 0 {
        let w = (t - 1) as u64;
        assert(chunk_start(w, t, n) == 0) by {
            assert(w * 0 == 0) by (nonlinear_arith);
        }
        assert(chunk_start(w, t, n) <= x < chunk_end(w, t, n));
    } else {
        let q = (x as int) / c;
        lemma_fundamental_div_mod(x as int, c);
        assert(q >= 0) by (nonlinear_arith)
            requires
                c > 0,
                x as int == c * q + (x as int) % c,
                0 <= (x as int) % c < c,
        ;
        assert(q * c <= x < (q + 1) * c) by (nonlinear_arith)
            requires
                x as int == c * q + (x as int) % c,
                0 <= (x as int) % c < c,
        ;
        assert(q <= q * c) by (nonlinear_arith)
            requires
                q >= 0,
                c >= 1,
        ;
        if q < t - 1 {
            let w = q as u64;
            assert(chunk_start(w, t, n) <= x < chunk_end(w, t, n));
        } else {
            let w = (t - 1) as u64;
            lemma_mul_inequality(t as int - 1, q, c);
            assert(chunk_start(w, t, n) <= x < chunk_end(w, t, n));
        }
    }
    assert forall|i: u64, j: u64|
        i < t && j < t && #[trigger] chunk_start(i, t, n) <= x < chunk_end(i, t, n)
            && #[trigger] chunk_start(j, t, n) <= x < chunk_end(j, t, n) implies i == j by {
        if i < j {
            lemma_chunks_disjoint(i, j, t, n);
        } else if j < i {
            lemma_chunks_disjoint(j, i, t, n);
        }
    }
}

/// The bounds of worker `i`'s contiguous chunk of the domain `[0, n)`.
pub fn chunk_bounds(i: u64, t: u64, n: u64) -> (r: (u64, u64))
    requires
        t >= 1,
        i < t,
    ensures
        r.0 == chunk_start(i, t, n),
        r.1 == chunk_end(i, t, n),
        r.0 <= r.1 <= n,
{
    proof {
        lemma_chunk_in_domain(i, t, n);
    }
    let c = n / t;
    let start = i * c;
    let end = if i == t - 1 {
        n
    } else {
        (i + 1) * c
    };
    (start, end)
}

/// The nonce visited at step `k` by the strided worker that starts at
/// offset `i` and advances by `t` each step.
pub open spec fn stride_nonce(i: u64, t: u64, k: int) -> int {
    i + k * t
}

/// Strided assignment covers every nonce exactly once: nonce `x` is
/// visited by worker `x % t` alone, at step `x / t`.
pub proof fn lemma_stride_cover(t: u64, x: u64)
    requires
        t >= 1,
    ensures
        x % t < t,
        stride_nonce(x % t, t, (x / t) as int) == x,
        forall|i: u64, k: int|
            i < t && 0 <= k && stride_nonce(i, t, k) == x ==> i == x % t && k == x / t,
{
    lemma_fundamental_div_mod(x as int, t as int);
    assert(x == (x % t) + (x / t) * t) by (nonlinear_arith)
        requires
            t >= 1,
            x as int == (t as int) * ((x as int) / (t as int)) + (x as int) % (t as int),
            x % t == (x as int) % (t as int),
            x / t == (x as int) / (t as int),
    ;
    assert forall|i: u64, k: int|
        i < t && 0 <= k && stride_nonce(i, t, k) == x implies i == x % t && k == x / t by {
        lemma_fundamental_div_mod_converse(x as int, t as int, k, i as int);
    }
}

} // verus!
