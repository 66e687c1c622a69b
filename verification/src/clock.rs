//! The gravity clock.

use vstd::prelude::*;

verus! {

/// Milliseconds of simulated time between automatic one-cell descents.
pub const GRAVITY_INTERVAL_MS: u32 = 1500;

/// A monotonic accumulator with a fixed firing threshold. Each simulation
/// step advances it by the elapsed time; on reaching the threshold it fires
/// exactly once and resets to zero, discarding any drift past the threshold
/// (no catch-up firing).
#[derive(Clone, Copy, PartialEq, Eq, Structural, Debug)]
pub struct GravityClock {
    pub acc_ms: u32,
}

impl GravityClock {
    /// Between steps the accumulator stays strictly below the threshold.
    pub open spec fn wf(self) -> bool {
        self.acc_ms < GRAVITY_INTERVAL_MS
    }

    pub fn new() -> (c: GravityClock)
        ensures
            c.wf(),
            c.acc_ms == 0,
    {
        GravityClock { acc_ms: 0 }
    }

    /// Advances the accumulator by the elapsed milliseconds and reports
    /// whether the threshold was reached. On firing the accumulator resets
    /// to zero no matter how far past the threshold it drifted.
    pub fn advance(&mut self, delta_ms: u32) -> (fired: bool)
        requires
            old(self).wf(),
        ensures
            final(self).wf(),
            fired <==> old(self).acc_ms + delta_ms >= GRAVITY_INTERVAL_MS,
            fired ==> final(self).acc_ms == 0,
            !fired ==> final(self).acc_ms == old(self).acc_ms + delta_ms,
    {
        if delta_ms >= GRAVITY_INTERVAL_MS - self.acc_ms {
            self.acc_ms = 0;
            true
        } else {
            self.acc_ms = self.acc_ms + delta_ms;
            false
        }
    }
}

} // verus!
