//! Power from a wrapping energy counter.

use vstd::prelude::*;

verus! {

/// Power above this is taken as evidence of a missed counter wrap rather than a reading,
/// in watts.
pub const IMPLAUSIBLE_WATTS: u64 = 200;

/// Default longest interval between samples, in nanoseconds. Past it the counter may have
/// wrapped more than once, and that delta cannot be told from a short one.
pub const DEFAULT_MAX_GAP_NS: u64 = 60_000_000_000;

/// The published resolution, in microwatts.
pub const QUANTUM_UW: i64 = 100_000;

/// Converts a wrapping `energy_uj` counter into average power, in microwatts.
///
/// Three hazards: the counter wraps; it may have wrapped more than once; and across suspend
/// it may reset while time goes on, for which there is [`EnergySampler::invalidate`]. Where
/// no trustworthy figure can be derived there is none: a plausible wrong number is worse
/// than a gap.
#[derive(Debug)]
pub struct EnergySampler {
    range_uj: u64,
    last: Option<(u64, u64)>,
    max_gap_ns: u64,
}

/// The energy between two readings, the counter having wrapped at most once.
pub open spec fn energy_between(range: u64, before: u64, after: u64) -> Option<int> {
    if after >= before {
        Some(after - before)
    } else if range >= before && range - before + after <= u64::MAX {
        Some(range - before + after)
    } else {
        None
    }
}

/// The average power between two readings, rounded down.
pub open spec fn power_between(
    range: u64,
    max_gap: u64,
    last: Option<(u64, u64)>,
    uj: u64,
    now: u64,
) -> Option<i64> {
    match last {
        None => None,
        Some((before, at)) => {
            let dt = now - at;
            if dt <= 0 || dt > max_gap {
                None
            } else {
                match energy_between(range, before, uj) {
                    Some(d) if d * 1000 <= IMPLAUSIBLE_WATTS * dt => Some(
                        (d * 1_000_000_000 / dt) as i64,
                    ),
                    _ => None,
                }
            }
        },
    }
}

/// Power to the published resolution, a half going away from zero.
pub open spec fn quantized(uw: int) -> int {
    if uw >= 0 {
        (uw + QUANTUM_UW / 2) / QUANTUM_UW as int * QUANTUM_UW
    } else {
        -((QUANTUM_UW / 2 - uw) / QUANTUM_UW as int * QUANTUM_UW)
    }
}

impl EnergySampler {
    /// How wide the counter is.
    pub closed spec fn range(&self) -> u64 {
        self.range_uj
    }

    /// The previous reading and when it was taken.
    pub closed spec fn reference(&self) -> Option<(u64, u64)> {
        self.last
    }

    pub closed spec fn max_gap(&self) -> u64 {
        self.max_gap_ns
    }

    /// `range_uj` comes from the zone's `max_energy_range_uj`.
    pub fn new(range_uj: u64) -> (r: Self)
        ensures
            r.range() == range_uj,
            r.reference() is None,
            r.max_gap() == DEFAULT_MAX_GAP_NS,
            r.max_gap() == 60_000_000_000,
    {
        Self { range_uj, last: None, max_gap_ns: DEFAULT_MAX_GAP_NS }
    }

    pub fn with_max_gap(self, gap_ns: u64) -> (r: Self)
        ensures
            r.range() == self.range(),
            r.reference() == self.reference(),
            r.max_gap() == gap_ns,
    {
        Self { range_uj: self.range_uj, last: self.last, max_gap_ns: gap_ns }
    }

    /// Drop the reference point: on resume from suspend, and any time the sampling loop has
    /// been stalled.
    pub fn invalidate(&mut self)
        ensures
            final(self).range() == old(self).range(),
            final(self).reference() is None,
            final(self).max_gap() == old(self).max_gap(),
    {
        self.last = None;
    }

    /// Feed a raw reading taken at `now_ns`. Gives the average power since the previous one,
    /// or nothing on the first sample, after too long a gap, or where the result is not
    /// plausible.
    pub fn sample(&mut self, energy_uj: u64, now_ns: u64) -> (r: Option<i64>)
        ensures
            final(self).range() == old(self).range(),
            final(self).max_gap() == old(self).max_gap(),
            final(self).reference() == Some((energy_uj, now_ns)),
            r == power_between(
                old(self).range(),
                old(self).max_gap(),
                old(self).reference(),
                energy_uj,
                now_ns,
            ),
            r matches Some(w) ==> 0 <= w <= IMPLAUSIBLE_WATTS * 1_000_000,
    {
        let previous = self.last;
        self.last = Some((energy_uj, now_ns));
        let (prev_uj, prev_at) = match previous {
            None => {
                return None;
            },
            Some(p) => p,
        };
        if now_ns <= prev_at {
            return None;
        }
        let dt: u64 = now_ns - prev_at;
        if dt > self.max_gap_ns {
            return None;
        }
        let delta: u64 = if energy_uj >= prev_uj {
            energy_uj - prev_uj
        } else {
            // Wrapped exactly once, the only case that can be corrected for.
            if self.range_uj < prev_uj {
                return None;
            }
            let rest: u64 = self.range_uj - prev_uj;
            if rest > u64::MAX - energy_uj {
                return None;
            }
            rest + energy_uj
        };
        if (delta as u128) * 1000 > (IMPLAUSIBLE_WATTS as u128) * (dt as u128) {
            return None;
        }
        let scaled: u128 = (delta as u128) * 1_000_000_000;
        proof {
            assert(scaled <= 200_000_000 * dt);
            assert(0 <= scaled as int / dt as int <= 200_000_000) by (nonlinear_arith)
                requires
                    0 <= scaled <= 200_000_000 * dt,
                    dt > 0,
            ;
        }
        Some((scaled / dt as u128) as i64)
    }

    /// Round to the published resolution: finer structure is useless in a display.
    pub fn quantize(microwatts: i64) -> (r: i64)
        requires
            i64::MIN + QUANTUM_UW <= microwatts <= i64::MAX - QUANTUM_UW,
        ensures
            r == quantized(microwatts as int),
    {
        if microwatts >= 0 {
            (microwatts + QUANTUM_UW / 2) / QUANTUM_UW * QUANTUM_UW
        } else {
            -((QUANTUM_UW / 2 - microwatts) / QUANTUM_UW * QUANTUM_UW)
        }
    }
}

/// A quantized power is a whole number of steps and never further than half a step away.
pub proof fn quantized_is_nearest(uw: int)
    ensures
        quantized(uw) % QUANTUM_UW as int == 0,
        -QUANTUM_UW / 2 <= quantized(uw) - uw <= QUANTUM_UW / 2,
{
}

/// A counter that wrapped once reads as if it had not.
pub proof fn a_single_wrap_is_corrected(range: u64, before: u64, energy: u64)
    requires
        before <= range,
        range - before < energy < range,
    ensures
        energy_between(range, before, (before + energy - range) as u64) == Some(energy as int),
{
}

/// The power between two readings of a counter that went up is the energy between them over the
/// time between them, rounded down to a whole microwatt. There is none for a first reading, a
/// clock that did not move on, too long a gap, or more than can be believed.
pub proof fn power_is_energy_over_time(range: u64, max_gap: u64, before: u64, at: u64, uj: u64, now: u64)
    requires
        uj >= before,
    ensures
        ({
            let (d, dt) = (uj - before, now - at);
            let p = power_between(range, max_gap, Some((before, at)), uj, now);
            &&& p is Some <==> 0 < dt <= max_gap && d * 1000 <= 200 * dt
            &&& p matches Some(w) ==> 0 <= w && w * dt <= d * 1_000_000_000 < (w + 1) * dt
        }),
        power_between(range, max_gap, None, uj, now) is None,
{
    let (d, dt) = (uj - before, now - at);
    if 0 < dt <= max_gap && d * 1000 <= IMPLAUSIBLE_WATTS * dt {
        lemma_rate(d, dt);
    }
}

proof fn lemma_rate(d: int, dt: int)
    requires
        dt > 0,
        0 <= d,
        d * 1000 <= IMPLAUSIBLE_WATTS * dt,
    ensures
        ({
            let q = d * 1_000_000_000 / dt;
            0 <= q <= IMPLAUSIBLE_WATTS * 1_000_000 && q * dt <= d * 1_000_000_000 < (q + 1) * dt
        }),
{
    let n = d * 1_000_000_000;
    let q = n / dt;
    assert(n <= 200_000_000 * dt);
    assert(0 <= q <= 200_000_000 && q * dt <= n < (q + 1) * dt) by (nonlinear_arith)
        requires
            q == n / dt,
            0 <= n <= 200_000_000 * dt,
            dt > 0,
    ;
}

/// A counter that fell has wrapped once: the energy is what was left up to its range and what it
/// counted since. That is no energy where the counter had been past its range.
pub proof fn a_counter_that_fell_has_wrapped_once(range: u64, before: u64, after: u64)
    requires
        after < before,
    ensures
        energy_between(range, before, after) matches Some(d) ==> before + d == range + after,
        energy_between(range, before, after) is Some <==> before <= range && range - before + after
            <= u64::MAX,
{
}

/// Over a wrap the power is the corrected energy over the time, rounded down.
pub proof fn power_over_a_wrap_is_energy_over_time(
    range: u64,
    max_gap: u64,
    before: u64,
    at: u64,
    uj: u64,
    now: u64,
)
    requires
        uj < before <= range,
        range - before + uj <= u64::MAX,
    ensures
        ({
            let (d, dt) = (range - before + uj, now - at);
            let p = power_between(range, max_gap, Some((before, at)), uj, now);
            &&& p is Some <==> 0 < dt <= max_gap && d * 1000 <= 200 * dt
            &&& p matches Some(w) ==> 0 <= w && w * dt <= d * 1_000_000_000 < (w + 1) * dt
        }),
{
    let (d, dt) = (range - before + uj, now - at);
    if 0 < dt <= max_gap && d * 1000 <= IMPLAUSIBLE_WATTS * dt {
        lemma_rate(d, dt);
    }
}

/// Half a step goes away from zero, and power drawn is treated as power delivered.
pub proof fn half_a_step_goes_away_from_zero(uw: int)
    ensures
        quantized(-uw) == -quantized(uw),
        uw >= 0 ==> -50_000 < quantized(uw) - uw <= 50_000,
        uw <= 0 ==> -50_000 <= quantized(uw) - uw < 50_000,
{
}

}
