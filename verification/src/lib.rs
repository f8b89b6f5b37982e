//! Statistics on the physical and virtual memory used by the current process.
//!
//! The measurement itself is assembled from small, fully specified pieces: a
//! permissive integer scanner ([`scan_int`]), readers for the two report
//! formats a kernel may expose ([`detailed_report_stats`] and
//! [`summary_report_stats`]), the once-per-process capability decision
//! ([`probe_outcome`]), and the per-call dispatch over a decided probe state
//! ([`stats_from_read`]). A host program performs the platform's own I/O --
//! checking that the detailed report source exists, querying the page size,
//! reading the report text -- and hands the plain values to these functions.

use vstd::prelude::*;

pub mod platform;
pub mod probe;
pub mod report;
pub mod scan;

use probe::ProbeState;
use report::{
    detailed_report_stats, detailed_rss_kb, detailed_size_kb, summary_report_stats,
    summary_rss_pages, summary_size_pages,
};
pub use scan::scan_int;

verus! {

/// Statistics on the memory used by the current process.
#[derive(Clone, Copy, PartialEq, Eq, Structural, Hash, Debug)]
pub struct MemoryStats {
    /// The "physical" memory used by this process: the resident set size on
    /// Linux and Android, the working set on Windows.
    pub physical_mem: usize,

    /// The "virtual" memory used by this process: the virtual size on Linux
    /// and Android, the pagefile usage on Windows.
    pub virtual_mem: usize,
}

/// The measurement a detailed report yields: each total is the sum of the
/// labelled lines in kibibytes, converted to bytes.
pub open spec fn detailed_stats(text: Seq<u8>) -> MemoryStats {
    MemoryStats {
        physical_mem: (detailed_rss_kb(text) * 1024) as usize,
        virtual_mem: (detailed_size_kb(text) * 1024) as usize,
    }
}

/// The measurement a summary report yields: each page count multiplied by the
/// page size.
pub open spec fn summary_stats(text: Seq<u8>, page_size: usize) -> MemoryStats {
    MemoryStats {
        physical_mem: (summary_rss_pages(text) * page_size) as usize,
        virtual_mem: (summary_size_pages(text) * page_size) as usize,
    }
}

/// Returns a snapshot of the memory used by the current process, or `None`
/// if the current memory usage cannot be queried.
///
/// The verified library performs no system calls of its own, so this entry
/// point behaves as it does on every platform without a usable data source:
/// it reports that no measurement is available. A host program produces real
/// measurements by doing the platform reads itself and handing the text to
/// [`probe_outcome`] and [`stats_from_read`].
pub fn memory_stats() -> (r: Option<MemoryStats>)
    ensures
        r is None,
{
    platform::memory_stats()
}

/// One measurement, taken after the capability probe has decided the data
/// source and the platform has read the chosen report. `report` carries the
/// text that was read, or `None` when the source could not be opened; an
/// unreadable source yields no result at all, never a partial one.
pub fn stats_from_read(state: &ProbeState, report: Option<&[u8]>) -> (r: Option<MemoryStats>)
    requires
        state.wf(),
        state.detailed_available ==> (report matches Some(t) ==> detailed_size_kb(t@) * 1024
            <= usize::MAX && detailed_rss_kb(t@) * 1024 <= usize::MAX),
        !state.detailed_available ==> (report matches Some(t) ==> summary_size_pages(t@)
            * state.page_size <= usize::MAX && summary_rss_pages(t@) * state.page_size
            <= usize::MAX),
    ensures
        report is None ==> r is None,
        state.detailed_available ==> (report matches Some(t) ==> r == Some(detailed_stats(t@))),
        !state.detailed_available ==> (report matches Some(t) ==> r == Some(
            summary_stats(t@, state.page_size),
        )),
{
    match report {
        None => None,
        Some(text) => {
            if state.detailed_available {
                Some(detailed_report_stats(text))
            } else {
                Some(summary_report_stats(text, state.page_size))
            }
        },
    }
}

} // verus!
