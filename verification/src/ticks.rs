//! Fixed-timestep accumulator.
//!
//! Variable wall-clock frame time is converted into a deterministic whole
//! number of fixed-size ticks: each frame's delta is added to the carried
//! leftover, the whole ticks contained in the sum are run, and the
//! remainder is carried into the next frame.  No time is ever lost or
//! invented: `DT * ticks + new leftover == old leftover + delta` holds on
//! every call, so the cumulative tick count depends only on the cumulative
//! time.

use vstd::prelude::*;
use crate::fixed::DT;

verus! {

/// Carried sub-tick remainder, in fixed-point seconds.
pub struct TickAccumulator {
    pub leftover: i64,
}

/// The leftover is a proper sub-tick remainder.
pub open spec fn acc_wf(a: TickAccumulator) -> bool {
    0 <= a.leftover < DT
}

impl TickAccumulator {
    /// A fresh accumulator with nothing carried.
    pub fn new() -> (r: TickAccumulator)
        ensures
            r.leftover == 0,
            acc_wf(r),
    {
        TickAccumulator { leftover: 0 }
    }

    /// Add one frame's wall-clock delta and return how many whole fixed
    /// ticks to run now; the sub-tick remainder is carried.
    pub fn advance(&mut self, delta: i64) -> (ticks: u64)
        requires
            acc_wf(*old(self)),
            0 <= delta <= i64::MAX - DT,
        ensures
            acc_wf(*final(self)),
            ticks == (old(self).leftover + delta) / (DT as int),
            final(self).leftover == (old(self).leftover + delta) % (DT as int),
            DT * ticks + final(self).leftover == old(self).leftover + delta,
    {
        let acc: i64 = self.leftover + delta;
        let ticks: u64 = (acc as u64) / (DT as u64);
        self.leftover = ((acc as u64) % (DT as u64)) as i64;
        ticks
    }
}

} // verus!
