use memory_stats::report::{detailed_report_stats, summary_report_stats};
use memory_stats::MemoryStats;

#[test]
fn single_region_unit_conversion() {
    let text = b"00400000-00452000 r-xp 00000000 08:02 173521 /usr/bin/daemon\nSize:     100 kB\nRss:      40 kB\n";
    let stats = detailed_report_stats(text);
    assert_eq!(stats.virtual_mem, 102400);
    assert_eq!(stats.physical_mem, 40960);
}

#[test]
fn multi_region_accumulation_ignores_unrelated_lines() {
    let text = b"7f0000000000-7f0000021000 rw-p 00000000 00:00 0\nSize:     10 kB\nKernelPageSize: 4 kB\nRss:      3 kB\nVmFlags: rd ex mr\nSize:     20 kB\nRss:      5 kB\nShared_Clean: 2 kB\n";
    let stats = detailed_report_stats(text);
    assert_eq!(stats.virtual_mem, 30 * 1024);
    assert_eq!(stats.physical_mem, 8 * 1024);
}

#[test]
fn rollup_without_size_lines_yields_zero_virtual() {
    let text = b"00400000-7fffffffe000 ---p 00000000 00:00 0 [rollup]\nRss:    1024 kB\nPss:     512 kB\n";
    let stats = detailed_report_stats(text);
    assert_eq!(stats.virtual_mem, 0);
    assert_eq!(stats.physical_mem, 1024 * 1024);
}

#[test]
fn malformed_size_value_counts_as_zero_and_parsing_continues() {
    let text = b"Size: garbage kB\nSize:     7 kB\nRss: x\nRss:      2 kB\n";
    let stats = detailed_report_stats(text);
    assert_eq!(stats.virtual_mem, 7 * 1024);
    assert_eq!(stats.physical_mem, 2 * 1024);
}

#[test]
fn similar_labels_elsewhere_in_a_line_do_not_count() {
    let text = b"VmSize: 5 kB\nSwapRss: 6 kB\nSize: 1 kB\nRss: 2 kB";
    let stats = detailed_report_stats(text);
    assert_eq!(stats.virtual_mem, 1024);
    assert_eq!(stats.physical_mem, 2048);
}

#[test]
fn empty_report_yields_zero_totals() {
    let stats = detailed_report_stats(b"");
    assert_eq!(stats, MemoryStats { physical_mem: 0, virtual_mem: 0 });
}

#[test]
fn summary_multiplies_page_counts_by_page_size() {
    let stats = summary_report_stats(b"1000 250 180 22 0 178 0", 4096);
    assert_eq!(stats.virtual_mem, 4096000);
    assert_eq!(stats.physical_mem, 1024000);
}

#[test]
fn summary_with_trailing_newline() {
    let stats = summary_report_stats(b"3 2 1\n", 4096);
    assert_eq!(stats.virtual_mem, 3 * 4096);
    assert_eq!(stats.physical_mem, 2 * 4096);
}
