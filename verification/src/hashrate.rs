//! Hashrate measurement. One second holds a million microseconds, so
//! `count` hashes over `elapsed_micros` microseconds are exactly
//! `count / elapsed_micros` million hashes per second; keeping hundredths
//! gives the two decimal places of the report.

use vstd::prelude::*;

verus! {

/// Throughput in hundredths of a million hashes per second:
/// `count · 100 / elapsed_micros`, rounded down.
pub fn hashrate_centi_mhps(count: u64, elapsed_micros: u64) -> (r: u64)
    requires
        1 <= elapsed_micros,
        count <= u64::MAX / 100,
    ensures
        r == (count * 100) / (elapsed_micros as int),
{
    count * 100 / elapsed_micros
}

/// The whole and fractional (hundredths) parts of the rate, for a
/// two-decimal display.
pub fn hashrate_parts(count: u64, elapsed_micros: u64) -> (r: (u64, u64))
    requires
        1 <= elapsed_micros,
        count <= u64::MAX / 100,
    ensures
        r.0 == (count * 100) / (elapsed_micros as int) / 100,
        r.1 == (count * 100) / (elapsed_micros as int) % 100,
        r.1 < 100,
{
    let c = hashrate_centi_mhps(count, elapsed_micros);
    (c / 100, c % 100)
}

/// One step of the periodic reporter of the streaming mode: the rate over
/// the interval since the previous counter reading, and the new baseline
/// to measure the next interval from.
pub fn reporter_step(current: u64, previous: u64, elapsed_micros: u64) -> (r: (u64, u64))
    requires
        previous <= current,
        1 <= elapsed_micros,
        current - previous <= u64::MAX / 100,
    ensures
        r.0 == ((current - previous) * 100) / (elapsed_micros as int),
        r.1 == current,
{
    (hashrate_centi_mhps(current - previous, elapsed_micros), current)
}

} // verus!
