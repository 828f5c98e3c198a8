use vstd::prelude::*;

verus! {

/// One reading of the system times (100 ns ticks) and of a monotonic clock.
#[derive(Clone, Copy, Debug, PartialEq, Eq, Structural)]
pub struct CpuSample {
    /// Monotonic clock, in nanoseconds.
    pub at_ns: u64,
    pub idle: u64,
    pub kernel: u64,
    pub user: u64,
}

/// Ticks since the baseline: idle ticks, and kernel plus user ticks (kernel
/// time includes idle time).
#[derive(Clone, Copy, Debug, PartialEq, Eq, Structural)]
pub struct CpuDelta {
    pub idle: u64,
    pub total: u64,
}

/// Shortest time between two readings for the baseline to move on (200 ms).
pub const MIN_BASELINE_NS: u64 = 200_000_000;

/// `a - b`, or 0 when `b` is larger (std `u64::saturating_sub`).
pub open spec fn sat_sub(a: u64, b: u64) -> u64 {
    if a >= b {
        (a - b) as u64
    } else {
        0
    }
}

/// Whether the kernel and user deltas against `prev` add up within `u64`.
pub open spec fn delta_fits(prev: CpuSample, now: CpuSample) -> bool {
    sat_sub(now.kernel, prev.kernel) + sat_sub(now.user, prev.user) <= u64::MAX
}

/// The next baseline and the ticks to report for a new reading: the first
/// reading only becomes the baseline; later ones are measured against the
/// baseline, which moves to the new reading once at least
/// `MIN_BASELINE_NS` passed since it was taken (a clock that went back
/// counts as no time).
pub open spec fn cpu_step_spec(last: Option<CpuSample>, now: CpuSample) -> (Option<CpuSample>, Option<CpuDelta>) {
    match last {
        None => (Some(now), None),
        Some(prev) => {
            let delta = CpuDelta {
                idle: sat_sub(now.idle, prev.idle),
                total: (sat_sub(now.kernel, prev.kernel) + sat_sub(now.user, prev.user)) as u64,
            };
            if sat_sub(now.at_ns, prev.at_ns) >= MIN_BASELINE_NS {
                (Some(now), Some(delta))
            } else {
                (Some(prev), Some(delta))
            }
        },
    }
}

/// One CPU-load reading: the baseline to keep and the ticks since the
/// previous baseline (`None` for the first reading). The load is then
/// `1 - idle / total` when `total` is not zero.
pub fn cpu_step(last: Option<CpuSample>, now: CpuSample) -> (r: (Option<CpuSample>, Option<CpuDelta>))
    requires
        last matches Some(prev) ==> delta_fits(prev, now),
    ensures
        r == cpu_step_spec(last, now),
{
    match last {
        None => (Some(now), None),
        Some(prev) => {
            let delta = CpuDelta {
                idle: now.idle.saturating_sub(prev.idle),
                total: now.kernel.saturating_sub(prev.kernel) + now.user.saturating_sub(prev.user),
            };
            if now.at_ns.saturating_sub(prev.at_ns) >= MIN_BASELINE_NS {
                (Some(now), Some(delta))
            } else {
                (Some(prev), Some(delta))
            }
        },
    }
}

/// A baseline, once set, is never dropped, and it only ever moves to a
/// reading that is at least `MIN_BASELINE_NS` newer.
pub proof fn law_baseline_moves_forward(last: Option<CpuSample>, now: CpuSample)
    ensures
        ({
            let (next, _) = cpu_step_spec(last, now);
            &&& next is Some
            &&& last matches Some(prev) ==> (next == Some(prev) || (next == Some(now) && now.at_ns
                >= prev.at_ns + MIN_BASELINE_NS))
        }),
{
}

} // verus!
