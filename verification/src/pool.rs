//! Occupancy figures of a permit pool.

use vstd::prelude::*;

verus! {

/// A snapshot of a counting semaphore: how many permits exist and how many are free.
#[derive(Debug, Clone)]
pub struct PoolStats {
    pub available: usize,
    pub total: usize,
}

impl PoolStats {
    /// Permits currently held: `total - available`, never below zero.
    pub open spec fn spec_active(&self) -> nat {
        if self.total >= self.available {
            (self.total - self.available) as nat
        } else {
            0
        }
    }

    /// Number of permits in use. A snapshot that reports more free permits
    /// than exist counts as idle.
    pub fn active(&self) -> (n: usize)
        ensures
            n == self.spec_active(),
            n <= self.total,
    {
        if self.total >= self.available {
            self.total - self.available
        } else {
            0
        }
    }
}

} // verus!
