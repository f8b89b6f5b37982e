use memory_stats::probe::probe_outcome;
use memory_stats::{memory_stats, stats_from_read, MemoryStats};

#[test]
fn probe_prefers_detailed_source() {
    let state = probe_outcome(true, None).unwrap();
    assert!(state.detailed_available);
}

#[test]
fn probe_falls_back_to_page_size() {
    let state = probe_outcome(false, Some(4096)).unwrap();
    assert!(!state.detailed_available);
    assert_eq!(state.page_size, 4096);
}

#[test]
fn probe_fails_without_page_size() {
    assert!(probe_outcome(false, None).is_none());
}

#[test]
fn probe_decision_is_stable_across_calls() {
    let first = probe_outcome(false, Some(4096));
    let second = probe_outcome(false, Some(4096));
    assert_eq!(first, second);
}

#[test]
fn unreadable_report_yields_no_result() {
    let detailed = probe_outcome(true, None).unwrap();
    assert!(stats_from_read(&detailed, None).is_none());
    let summary = probe_outcome(false, Some(4096)).unwrap();
    assert!(stats_from_read(&summary, None).is_none());
}

#[test]
fn read_dispatches_on_probe_state() {
    let detailed = probe_outcome(true, None).unwrap();
    let got = stats_from_read(&detailed, Some(b"Size: 100 kB\nRss: 40 kB\n".as_slice())).unwrap();
    assert_eq!(got, MemoryStats { physical_mem: 40960, virtual_mem: 102400 });

    let summary = probe_outcome(false, Some(4096)).unwrap();
    let got = stats_from_read(&summary, Some(b"1000 250 180 22 0 178 0".as_slice())).unwrap();
    assert_eq!(got, MemoryStats { physical_mem: 1024000, virtual_mem: 4096000 });
}

#[test]
fn library_entry_point_reports_no_data() {
    assert!(memory_stats().is_none());
    assert!(memory_stats().is_none());
}

#[test]
fn unsupported_platform_backend_reports_no_data() {
    assert!(memory_stats::platform::memory_stats().is_none());
}
