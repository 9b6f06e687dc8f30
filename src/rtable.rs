use vstd::prelude::*;
use crate::error::{CircuitError, Table};

verus! {

/// The shared lookup domain `[0, bound)`.
#[derive(Clone, Copy, Debug, PartialEq, Eq, Structural)]
pub struct RangeTable {
    pub bound: u64,
}

impl RangeTable {
    /// Whether `v` lies in the domain.
    pub open spec fn spec_contains(self, v: int) -> bool {
        0 <= v < self.bound
    }

    /// Fills a domain of `capacity` values; fails when the backend has
    /// fewer than `capacity` rows.
    pub fn init(capacity: u64, rows: usize) -> (r: Result<RangeTable, CircuitError>)
        ensures
            capacity as int <= rows as int ==> r == Ok::<RangeTable, CircuitError>(RangeTable { bound: capacity }),
            capacity as int > rows as int ==> r == Err::<RangeTable, CircuitError>(CircuitError::CapacityExceeded(Table::Range)),
    {
        if capacity as u128 <= rows as u128 {
            Ok(RangeTable { bound: capacity })
        } else {
            Err(CircuitError::CapacityExceeded(Table::Range))
        }
    }

    /// Whether `v` lies in the domain.
    pub fn contains(&self, v: u64) -> (r: bool)
        ensures
            r == self.spec_contains(v as int),
    {
        v < self.bound
    }

    /// Whether `hi - lo - 1` lies in the domain, that is `lo < hi` with a
    /// gap the domain covers.
    pub fn contains_gap(&self, lo: u64, hi: u64) -> (r: bool)
        ensures
            r == self.spec_contains(hi - lo - 1),
    {
        if lo < hi {
            self.contains(hi - lo - 1)
        } else {
            false
        }
    }
}

} // verus!
