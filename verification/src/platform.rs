//! The backend for targets without a supported native data source.

use vstd::prelude::*;

use crate::MemoryStats;

verus! {

/// Returns a snapshot of the memory used by the current process on a platform
/// that exposes no usable accounting source: there is never anything to
/// report, and no I/O is attempted. Callers treat "no data" and "not
/// supported here" identically.
pub fn memory_stats() -> (r: Option<MemoryStats>)
    ensures
        r is None,
{
    None
}

} // verus!
