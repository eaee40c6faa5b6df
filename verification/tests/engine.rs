use hashminer::evaluator::{leading_zero_bits, passes, target_bits_of, BestState};
use hashminer::hashrate::{hashrate_centi_mhps, hashrate_parts, reporter_step};
use hashminer::partition::chunk_bounds;
use hashminer::preimage::Preimage;
use hashminer::search::{
    candidate_digest, merge, mine_batch_strided, mine_range, search_threshold, HashMiner, Nonce,
};
use sha3::{Digest, Keccak256};

fn raw_preimage(index: u32, nonce: u64, entropy: &[u8], farmer: &[u8]) -> Vec<u8> {
    let mut buf = Vec::new();
    buf.extend_from_slice(&index.to_be_bytes());
    buf.extend_from_slice(&nonce.to_be_bytes());
    buf.extend_from_slice(entropy);
    buf.extend_from_slice(farmer);
    buf
}

fn raw_digest(index: u32, nonce: u64, entropy: &[u8], farmer: &[u8]) -> Vec<u8> {
    Keccak256::digest(&raw_preimage(index, nonce, entropy, farmer)).to_vec()
}

fn raw_score(digest: &[u8]) -> u32 {
    let mut zeros = 0;
    for byte in digest {
        if *byte == 0 {
            zeros += 8;
        } else {
            zeros += byte.leading_zeros();
            break;
        }
    }
    zeros
}

#[test]
fn build_layout() {
    let entropy = vec![0xAAu8; 32];
    let farmer = vec![0xBBu8; 32];
    let pre = Preimage::build(0x01020304, &entropy, &farmer);
    let bytes = pre.as_bytes();
    assert_eq!(bytes.len(), 76);
    assert_eq!(&bytes[..4], &[1, 2, 3, 4]);
    assert_eq!(&bytes[4..12], &[0u8; 8]);
    assert_eq!(&bytes[12..44], &entropy[..]);
    assert_eq!(&bytes[44..], &farmer[..]);
}

#[test]
fn set_nonce_writes_big_endian_window_only() {
    let entropy = vec![0x55u8; 32];
    let farmer = vec![0x66u8; 32];
    let mut pre = Preimage::build(7, &entropy, &farmer);
    let before: Vec<u8> = pre.as_bytes().clone();
    pre.set_nonce(0x0102030405060708);
    let after = pre.as_bytes();
    assert_eq!(&after[4..12], &[1, 2, 3, 4, 5, 6, 7, 8]);
    for i in 0..76 {
        if !(4..12).contains(&i) {
            assert_eq!(after[i], before[i]);
        }
    }
}

#[test]
fn build_is_deterministic() {
    let entropy = vec![0x10u8; 32];
    let farmer = vec![0x20u8; 32];
    let mut a = Preimage::build(9, &entropy, &farmer);
    let mut b = Preimage::build(9, &entropy, &farmer);
    a.set_nonce(12345);
    b.set_nonce(12345);
    assert_eq!(a.as_bytes(), b.as_bytes());
    let da = candidate_digest(&mut a, 999);
    let db = candidate_digest(&mut b, 999);
    assert_eq!(da, db);
}

#[test]
fn digest_matches_real_keccak() {
    let entropy = vec![0x00u8; 32];
    let farmer = vec![0x00u8; 32];
    let mut pre = Preimage::build(0, &entropy, &farmer);
    let d = candidate_digest(&mut pre, 0);
    assert_eq!(d, raw_digest(0, 0, &entropy, &farmer));
    let d5 = candidate_digest(&mut pre, 5);
    assert_eq!(d5, raw_digest(0, 5, &entropy, &farmer));
    assert_ne!(d, d5);
}

#[test]
fn all_zero_digest_scores_maximum() {
    let digest = vec![0u8; 32];
    assert_eq!(leading_zero_bits(&digest, 32), 256);
}

#[test]
fn all_ff_digest_scores_zero() {
    let digest = vec![0xFFu8; 32];
    assert_eq!(leading_zero_bits(&digest, 32), 0);
}

#[test]
fn leading_zero_bits_stops_at_first_nonzero_byte() {
    let mut digest = vec![0u8; 32];
    digest[1] = 0x0F;
    digest[2] = 0xFF;
    assert_eq!(leading_zero_bits(&digest, 32), 12);
    assert_eq!(leading_zero_bits(&digest, 16), 12);
    assert_eq!(leading_zero_bits(&digest, 1), 8);
}

#[test]
fn passes_inspects_first_sixteen_bytes_only() {
    let mut digest = vec![0u8; 32];
    for i in 16..32 {
        digest[i] = 0xFF;
    }
    assert!(passes(&digest, 128));
    assert!(!passes(&digest, 129));
    digest[0] = 0x01;
    assert!(passes(&digest, 7));
    assert!(!passes(&digest, 8));
}

#[test]
fn target_bits_is_four_per_nibble() {
    assert_eq!(target_bits_of(0), 0);
    assert_eq!(target_bits_of(3), 12);
    assert_eq!(target_bits_of(64), 256);
}

#[test]
fn try_improve_commits_only_strictly_greater() {
    let mut st = BestState::zero();
    assert!(st.try_improve(5, 42));
    assert_eq!(st.best_bits, 5);
    assert_eq!(st.best_nonce, 42);
    assert!(!st.try_improve(5, 43));
    assert_eq!(st.best_nonce, 42);
    assert!(!st.try_improve(4, 44));
    assert_eq!(st.best_nonce, 42);
    assert!(st.try_improve(6, 7));
    assert_eq!(st.best_bits, 6);
    assert_eq!(st.best_nonce, 7);
}

#[test]
fn contiguous_chunks_tile_the_domain() {
    let expected = [(0, 250), (250, 500), (500, 750), (750, 1000)];
    for i in 0..4 {
        assert_eq!(chunk_bounds(i, 4, 1000), expected[i as usize]);
    }
    // The last worker absorbs the remainder.
    assert_eq!(chunk_bounds(0, 3, 10), (0, 3));
    assert_eq!(chunk_bounds(1, 3, 10), (3, 6));
    assert_eq!(chunk_bounds(2, 3, 10), (6, 10));
    // More workers than nonces: all chunks empty but the last.
    for i in 0..6 {
        assert_eq!(chunk_bounds(i, 7, 3), (0, 0));
    }
    assert_eq!(chunk_bounds(6, 7, 3), (0, 3));
    // The whole nonce space as one chunk.
    assert_eq!(chunk_bounds(0, 1, u64::MAX), (0, u64::MAX));
}

#[test]
fn threshold_zero_target_passes_immediately() {
    let entropy = vec![0u8; 32];
    let farmer = vec![0u8; 32];
    let mut pre = Preimage::build(0, &entropy, &farmer);
    let found = search_threshold(&mut pre, 0, 10, 0).expect("zero target must match at once");
    assert_eq!(found.max_nonce(), 0);
    assert_eq!(found.local_hash(), raw_digest(0, 0, &entropy, &farmer));
}

#[test]
fn threshold_finds_first_qualifying_nonce() {
    let entropy = vec![0x07u8; 32];
    let farmer = vec![0x09u8; 32];
    // Expected: the first nonce in [0, 300) whose digest starts with at
    // least four zero bits, found by direct recomputation.
    let mut expected = None;
    for n in 0..300u64 {
        let d = raw_digest(3, n, &entropy, &farmer);
        if raw_score(&d[..16]) >= 4 {
            expected = Some(n);
            break;
        }
    }
    let mut pre = Preimage::build(3, &entropy, &farmer);
    let got = search_threshold(&mut pre, 0, 300, 4).map(|f| f.max_nonce());
    assert_eq!(got, expected);
}

#[test]
fn threshold_reports_exhaustion() {
    let entropy = vec![0x01u8; 32];
    let farmer = vec![0x02u8; 32];
    let mut pre = Preimage::build(1, &entropy, &farmer);
    // Only the first 16 digest bytes are inspected, so more than 128 bits
    // can never qualify.
    assert!(search_threshold(&mut pre, 0, 100, 129).is_none());
}

#[test]
fn strided_batch_counts_attempts_and_saturates() {
    let entropy = vec![0x03u8; 32];
    let farmer = vec![0x04u8; 32];
    let mut pre = Preimage::build(2, &entropy, &farmer);
    // An unreachable target exhausts the batch.
    let (found, attempts) = mine_batch_strided(&mut pre, 0, 3, 5, 200);
    assert!(found.is_none());
    assert_eq!(attempts, 5);
    // The walk stops at the top of the nonce domain instead of wrapping.
    let (found, attempts) = mine_batch_strided(&mut pre, u64::MAX - 1, 5, 10, 200);
    assert!(found.is_none());
    assert_eq!(attempts, 1);
}

#[test]
fn strided_batch_finds_first_hit_of_its_sequence() {
    let entropy = vec![0x0Au8; 32];
    let farmer = vec![0x0Bu8; 32];
    // Expected: the first nonce of 1, 1+2, 1+4, ... (400 steps) whose
    // digest starts with at least four zero bits.
    let mut expected = None;
    for k in 0..400u64 {
        let n = 1 + 2 * k;
        let d = raw_digest(6, n, &entropy, &farmer);
        if raw_score(&d[..16]) >= 4 {
            expected = Some((n, k + 1));
            break;
        }
    }
    let (want_nonce, want_attempts) = expected.expect("a hit in 400 strided attempts");
    let mut pre = Preimage::build(6, &entropy, &farmer);
    let (found, attempts) = mine_batch_strided(&mut pre, 1, 2, 400, 4);
    let found = found.expect("the engine must find the same hit");
    assert_eq!(found.max_nonce(), want_nonce);
    assert_eq!(attempts, want_attempts);
    assert_eq!(found.local_hash(), raw_digest(6, want_nonce, &entropy, &farmer));
}

#[test]
fn bounded_best_effort_returns_domain_maximum() {
    let entropy = vec![0x11u8; 32];
    let farmer = vec![0x22u8; 32];
    // Expected: the strictly-greater scan keeps the first nonce in
    // [0, 1000) achieving the maximum score, recomputed directly.
    let mut best_bits = 0u32;
    let mut best_nonce = 0u64;
    for n in 0..1000u64 {
        let bits = raw_score(&raw_digest(1, n, &entropy, &farmer));
        if bits > best_bits {
            best_bits = bits;
            best_nonce = n;
        }
    }
    let mut miner = HashMiner::new(1, 1000, 1, &entropy, &farmer);
    let res = miner.mine();
    assert!(res.max_nonce() < 1000);
    assert_eq!(res.max_nonce(), best_nonce);
    assert_eq!(res.local_hash(), raw_digest(1, best_nonce, &entropy, &farmer));
    // Re-running with the same inputs returns the same pair.
    let mut again = HashMiner::new(1, 1000, 1, &entropy, &farmer);
    let res2 = again.mine();
    assert_eq!(res2.max_nonce(), res.max_nonce());
    assert_eq!(res2.local_hash(), res.local_hash());
    // The chunked scan over several workers finds the same pair.
    let mut chunked = HashMiner::new(4, 1000, 1, &entropy, &farmer);
    let res4 = chunked.mine();
    assert_eq!(res4.max_nonce(), res.max_nonce());
    assert_eq!(res4.local_hash(), res.local_hash());
}

#[test]
fn bounded_search_of_empty_domain_yields_nonce_zero() {
    let entropy = vec![0x0Cu8; 32];
    let farmer = vec![0x0Du8; 32];
    let mut miner = HashMiner::new(2, 0, 5, &entropy, &farmer);
    let res = miner.mine();
    assert_eq!(res.max_nonce(), 0);
    assert_eq!(res.local_hash(), raw_digest(5, 0, &entropy, &farmer));
}

#[test]
fn merged_chunk_results_equal_sequential_scan() {
    let entropy = vec![0x31u8; 32];
    let farmer = vec![0x32u8; 32];
    let t = 4u64;
    let n = 600u64;
    let mut folded = BestState::zero();
    for i in 0..t {
        let mut pre = Preimage::build(8, &entropy, &farmer);
        let (s, e) = chunk_bounds(i, t, n);
        let mut st = BestState::zero();
        mine_range(&mut pre, s, e, &mut st);
        folded = merge(folded, st);
    }
    let mut pre = Preimage::build(8, &entropy, &farmer);
    let mut whole = BestState::zero();
    mine_range(&mut pre, 0, n, &mut whole);
    assert_eq!(folded.best_bits, whole.best_bits);
    assert_eq!(folded.best_nonce, whole.best_nonce);
}

#[test]
fn nonce_pair_keeps_its_fields() {
    let pair = Nonce::new(17, vec![1, 2, 3]);
    assert_eq!(pair.max_nonce(), 17);
    assert_eq!(pair.local_hash(), vec![1, 2, 3]);
}

#[test]
fn hashrate_exact_values() {
    // 5,000,000 hashes over 2 seconds: 2.50 MH/s.
    assert_eq!(hashrate_centi_mhps(5_000_000, 2_000_000), 250);
    assert_eq!(hashrate_parts(5_000_000, 2_000_000), (2, 50));
    // 1,234 hashes over 1 second rounds down to 0.00 MH/s.
    assert_eq!(hashrate_parts(1_234, 1_000_000), (0, 0));
    // 123,456 hashes over 10 milliseconds: 12.34 MH/s (rounded down).
    assert_eq!(hashrate_parts(123_456, 10_000), (12, 34));
}

#[test]
fn hashrate_matches_float_formula() {
    let count = 7_654_321u64;
    let micros = 3_000_000u64;
    let centi = hashrate_centi_mhps(count, micros);
    let exact = (count as f64) / (micros as f64 / 1e6) / 1e6;
    assert!((exact - (centi as f64) / 100.0).abs() < 0.01);
}

#[test]
fn reporter_step_resets_baseline() {
    let (rate, baseline) = reporter_step(12_000_000, 2_000_000, 2_000_000);
    // 10,000,000 hashes over 2 seconds: 5.00 MH/s.
    assert_eq!(rate, 500);
    assert_eq!(baseline, 12_000_000);
}
