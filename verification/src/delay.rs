//! Busy-wait timing on the timestamp counter: how many counter cycles a
//! delay lasts, when it is over, and the counter's frequency.
//!
//! The counter itself is read by the caller; these functions only compute.

use vstd::prelude::*;

verus! {

/// Counter frequency in MHz assumed when calibration found none.
pub const DEFAULT_TSC_MHZ: u64 = 3000;

/// `x` clamped to the `u64` range (for a non-negative `x`).
pub open spec fn saturated(x: int) -> u64 {
    if x > u64::MAX {
        u64::MAX
    } else {
        x as u64
    }
}

fn saturating_mul(a: u64, b: u64) -> (r: u64)
    ensures
        r == saturated(a * b),
{
    match a.checked_mul(b) {
        Some(v) => v,
        None => u64::MAX,
    }
}

/// Counter cycles in `secs` seconds and `nanos` nanoseconds at `mhz`
/// cycles per microsecond, each product saturating at `u64::MAX`.
pub open spec fn delay_cycles_of(secs: int, nanos: int, mhz: u64) -> u64 {
    saturated(saturated(saturated(secs * mhz) * 1_000_000) + saturated(nanos * mhz) / 1000)
}

/// The number of counter cycles that a wait of `secs` seconds and
/// `subsec_nanos` nanoseconds lasts at `mhz`.
pub fn delay_cycles(secs: u64, subsec_nanos: u32, mhz: u64) -> (r: u64)
    ensures
        r == delay_cycles_of(secs as int, subsec_nanos as int, mhz),
{
    let secs_part = saturating_mul(saturating_mul(secs, mhz), 1_000_000);
    let nanos_part = saturating_mul(subsec_nanos as u64, mhz) / 1000;
    secs_part.saturating_add(nanos_part)
}

/// Cycles of a wait of `seconds` seconds.
pub fn delay_seconds(seconds: u64, mhz: u64) -> (r: u64)
    ensures
        r == delay_cycles_of(seconds as int, 0, mhz),
{
    delay_cycles(seconds, 0, mhz)
}

/// Cycles of a wait of `ms` milliseconds.
pub fn delay_ms(ms: u64, mhz: u64) -> (r: u64)
    ensures
        r == delay_cycles_of((ms / 1000) as int, (ms % 1000) * 1_000_000, mhz),
{
    let nanos = ((ms % 1000) * 1_000_000) as u32;
    delay_cycles(ms / 1000, nanos, mhz)
}

/// Cycles of a wait of `us` microseconds.
pub fn delay_us(us: u64, mhz: u64) -> (r: u64)
    ensures
        r == delay_cycles_of((us / 1_000_000) as int, (us % 1_000_000) * 1000, mhz),
{
    let nanos = ((us % 1_000_000) * 1000) as u32;
    delay_cycles(us / 1_000_000, nanos, mhz)
}

/// The counter distance from `start` to `now`, modulo 2^64.
pub open spec fn elapsed_of(start: u64, now: u64) -> int {
    if now >= start {
        now - start
    } else {
        now - start + 0x1_0000_0000_0000_0000
    }
}

/// Whether a wait of `cycles` that began at counter value `start` is over
/// at counter value `now` (the counter may have wrapped once).
pub fn delay_elapsed(start: u64, now: u64, cycles: u64) -> (r: bool)
    ensures
        r == (elapsed_of(start, now) >= cycles),
{
    let elapsed = now.wrapping_sub(start);
    proof {
        assert(elapsed == elapsed_of(start, now)) by (bit_vector)
            requires
                elapsed == (if now >= start {
                    (now - start) as u64
                } else {
                    (now - start + 0x1_0000_0000_0000_0000) as u64
                }),
        ;
    }
    elapsed >= cycles
}

/// The counter frequency: the calibrated one, or the default.
pub fn get_tsc_mhz(calibrated: Option<u64>) -> (r: u64)
    ensures
        r == (match calibrated {
            Some(m) => m,
            None => DEFAULT_TSC_MHZ,
        }),
{
    match calibrated {
        Some(m) => m,
        None => DEFAULT_TSC_MHZ,
    }
}

/// Microseconds since the counter started, at `mhz` (taken as at least 1).
pub fn now_us(tsc: u64, mhz: u64) -> (r: u64)
    ensures
        r == tsc / (if mhz == 0 {
            1
        } else {
            mhz
        }),
{
    let divisor = if mhz == 0 {
        1
    } else {
        mhz
    };
    tsc / divisor
}

/// The frequency that the processor's timestamp leaf reports, in MHz:
/// crystal hertz times the numerator over the denominator, when the leaf
/// exists, all three values are non-zero and the result is at least 1 MHz.
pub open spec fn cpuid_tsc_mhz_of(max_leaf: u32, denominator: u32, numerator: u32, crystal_hz: u32) -> Option<u64> {
    if max_leaf >= 0x15 && denominator > 0 && numerator > 0 && crystal_hz > 0 {
        let mhz = (crystal_hz as int * numerator as int / denominator as int) / 1_000_000;
        if mhz > 0 {
            Some(mhz as u64)
        } else {
            None
        }
    } else {
        None
    }
}

/// The frequency that the processor's timestamp leaf reports, if it gives
/// a usable one.
pub fn cpuid_tsc_mhz(max_leaf: u32, denominator: u32, numerator: u32, crystal_hz: u32) -> (r: Option<u64>)
    ensures
        r == cpuid_tsc_mhz_of(max_leaf, denominator, numerator, crystal_hz),
{
    if max_leaf >= 0x15 && denominator > 0 && numerator > 0 && crystal_hz > 0 {
        proof {
            vstd::arithmetic::mul::lemma_mul_upper_bound(
                crystal_hz as int,
                u32::MAX as int,
                numerator as int,
                u32::MAX as int,
            );
        }
        let product = (crystal_hz as u64) * (numerator as u64);
        let mhz = (product / (denominator as u64)) / 1_000_000;
        if mhz > 0 {
            return Some(mhz);
        }
    }
    None
}

/// The counter frequency chosen at start-up: the processor's timestamp
/// leaf first; when it gives none, `pit_mhz`, the frequency measured
/// against the interval timer (0 when that measurement failed); the
/// default when both fail.
pub open spec fn calibrated_tsc_mhz(max_leaf: u32, denominator: u32, numerator: u32, crystal_hz: u32, pit_mhz: u64) -> u64 {
    match cpuid_tsc_mhz_of(max_leaf, denominator, numerator, crystal_hz) {
        Some(m) => m,
        None => if pit_mhz > 0 {
            pit_mhz
        } else {
            DEFAULT_TSC_MHZ
        },
    }
}

/// Counter frequency from the processor's timestamp leaf, else from the
/// interval-timer measurement `pit_mhz`, else the default.
pub fn calibrate_tsc(max_leaf: u32, denominator: u32, numerator: u32, crystal_hz: u32, pit_mhz: u64) -> (r: u64)
    ensures
        r == calibrated_tsc_mhz(max_leaf, denominator, numerator, crystal_hz, pit_mhz),
{
    match cpuid_tsc_mhz(max_leaf, denominator, numerator, crystal_hz) {
        Some(m) => m,
        None => if pit_mhz > 0 {
            pit_mhz
        } else {
            DEFAULT_TSC_MHZ
        },
    }
}

/// Counter frequency measured against the interval timer: the counter
/// advanced `elapsed` cycles while the timer counted ten milliseconds.
/// The result is 0 when the system-control port reads all ones, the timer
/// never finished, or fewer than 100000 cycles passed.
pub fn calibrate_tsc_pit(gate_bits: u8, elapsed: u64, timeout_left: u32) -> (r: u64)
    ensures
        r == (if gate_bits == 0xFF || elapsed < 100_000 || timeout_left == 0 {
            0
        } else {
            elapsed / 10_000
        }),
{
    if gate_bits == 0xFF {
        return 0;
    }
    if elapsed < 100_000 || timeout_left == 0 {
        return 0;
    }
    elapsed / 10_000
}

} // verus!
