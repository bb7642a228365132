//! Delta-driven cadence clock: it accumulates elapsed wall-clock time, handed
//! in as whole milliseconds, and reports when the configured duration has
//! been reached.
use vstd::prelude::*;

verus! {

/// A cadence clock. `elapsed_ms` accumulates time until it reaches
/// `duration_ms`; the owner then resets it and acts.
pub struct MoveTimer {
    pub duration_ms: u64,
    pub elapsed_ms: u64,
}

impl MoveTimer {
    /// The accumulated time never runs past the configured duration.
    pub open spec fn wf(self) -> bool {
        self.elapsed_ms <= self.duration_ms
    }

    /// Whether accumulating `delta_ms` more reaches the configured duration.
    pub open spec fn fires(self, delta_ms: int) -> bool {
        self.elapsed_ms + delta_ms >= self.duration_ms
    }

    pub fn new(duration_ms: u64) -> (t: MoveTimer)
        ensures
            t.duration_ms == duration_ms,
            t.elapsed_ms == 0,
            t.wf(),
    {
        MoveTimer { duration_ms, elapsed_ms: 0 }
    }

    /// Accumulate `delta_ms` of elapsed time, capped at the duration.
    pub fn tick(&mut self, delta_ms: u64)
        requires
            old(self).wf(),
        ensures
            final(self).wf(),
            final(self).duration_ms == old(self).duration_ms,
            final(self).elapsed_ms as int == if old(self).fires(delta_ms as int) {
                old(self).duration_ms as int
            } else {
                old(self).elapsed_ms + delta_ms
            },
    {
        if delta_ms >= self.duration_ms - self.elapsed_ms {
            self.elapsed_ms = self.duration_ms;
        } else {
            self.elapsed_ms = self.elapsed_ms + delta_ms;
        }
    }

    /// Whether the accumulated time has reached the configured duration.
    pub fn finished(&self) -> (r: bool)
        ensures
            r == (self.elapsed_ms >= self.duration_ms),
    {
        self.elapsed_ms >= self.duration_ms
    }

    /// Start a new accumulation period.
    pub fn reset(&mut self)
        ensures
            final(self).duration_ms == old(self).duration_ms,
            final(self).elapsed_ms == 0,
            final(self).wf(),
    {
        self.elapsed_ms = 0;
    }
}

} // verus!
