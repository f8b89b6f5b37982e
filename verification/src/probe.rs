//! The once-per-process capability decision.
//!
//! A kernel may expose the detailed memory-map report, or only the summary
//! page counts; the choice is probed once and holds for the life of the
//! process. The decision itself is a plain function of what the platform
//! reported, so a host program can run it under any single-initialization
//! primitive: whoever publishes the state, publishes it whole.

use vstd::prelude::*;

verus! {

/// The data-source choice a process makes once: whether the detailed report
/// exists and, when it does not, the page size the summary path multiplies
/// by.
#[derive(Clone, Copy, PartialEq, Eq, Structural, Debug)]
pub struct ProbeState {
    /// Whether the detailed memory-map report source exists on this kernel.
    pub detailed_available: bool,

    /// The system page size in bytes; meaningful only when the summary path
    /// was selected, zero otherwise.
    pub page_size: usize,
}

impl ProbeState {
    /// A published probe state is whole: it never pairs the summary path with
    /// an unset page size.
    pub open spec fn wf(self) -> bool {
        self.detailed_available || self.page_size >= 1
    }
}

/// The probe state that selects the detailed report.
pub open spec fn detailed_state() -> ProbeState {
    ProbeState { detailed_available: true, page_size: 0 }
}

/// The probe state that selects the summary report, with the page size its
/// readers will multiply by.
pub open spec fn summary_state(page_size: usize) -> ProbeState {
    ProbeState { detailed_available: false, page_size }
}

/// Decides the process-wide probe outcome from what the platform reported:
/// whether the detailed report source exists, and what the page-size
/// configuration query returned (`None` when it failed; the query is only
/// consulted when the detailed source is missing). A failed query leaves the
/// process without a usable data source, so every subsequent measurement
/// reads an empty outcome.
pub fn probe_outcome(detailed_exists: bool, page_size_query: Option<usize>) -> (r: Option<
    ProbeState,
>)
    requires
        page_size_query matches Some(p) ==> p >= 1,
    ensures
        detailed_exists ==> r == Some(detailed_state()),
        !detailed_exists ==> (page_size_query matches Some(p) ==> r == Some(summary_state(p))),
        !detailed_exists && page_size_query is None ==> r is None,
        r matches Some(state) ==> state.wf(),
{
    if detailed_exists {
        Some(ProbeState { detailed_available: true, page_size: 0 })
    } else {
        match page_size_query {
            Some(page_size) => Some(ProbeState { detailed_available: false, page_size }),
            None => None,
        }
    }
}

} // verus!
