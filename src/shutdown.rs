//! Outstanding flush work: each closed window handed to the log and the
//! database is counted until its writer reports back, and shutdown waits
//! until the count is back at zero.
use vstd::prelude::*;

verus! {

pub struct FlushCounter {
    outstanding: u64,
}

impl FlushCounter {
    /// The number of flushes dispatched and not yet completed.
    pub closed spec fn count(&self) -> nat {
        self.outstanding as nat
    }

    pub fn new() -> (r: FlushCounter)
        ensures
            r.count() == 0,
    {
        FlushCounter { outstanding: 0 }
    }

    /// Counts one more flush under way; `false`, with nothing counted, where
    /// the count is already at its largest value.
    pub fn dispatch(&mut self) -> (r: bool)
        ensures
            r == (old(self).count() < u64::MAX),
            r ==> final(self).count() == old(self).count() + 1,
            !r ==> final(self).count() == old(self).count(),
    {
        if self.outstanding < u64::MAX {
            self.outstanding = self.outstanding + 1;
            true
        } else {
            false
        }
    }

    /// Counts one flush as done.
    pub fn complete(&mut self)
        requires
            old(self).count() > 0,
        ensures
            final(self).count() == old(self).count() - 1,
    {
        self.outstanding = self.outstanding - 1;
    }

    /// True when no flush is under way, so that shutdown may finish.
    pub fn is_idle(&self) -> (r: bool)
        ensures
            r == (self.count() == 0),
    {
        self.outstanding == 0
    }
}

} // verus!
