//! Timestamped moisture readings and the predicates that select them.
use vstd::prelude::*;
use crate::level::Level;

verus! {

/// One reading of the moisture sensor, with the clock value at which the
/// manager took it in. A reading is never changed once it is in the log.
#[derive(Clone, Copy, Debug)]
pub struct MoistureData {
    pub moisture_level: Level,
    pub timestamp: u64,
}

/// The readings that pruning at `cutoff` keeps: those taken at `cutoff`
/// or later.
pub open spec fn not_before(cutoff: u64) -> spec_fn(MoistureData) -> bool {
    |entry: MoistureData| entry.timestamp >= cutoff
}

/// The readings of the window from `start` to `end`, both ends included.
pub open spec fn within(start: u64, end: u64) -> spec_fn(MoistureData) -> bool {
    |entry: MoistureData| start <= entry.timestamp && entry.timestamp <= end
}

} // verus!
