//! Readers for the two report formats a kernel may expose.
//!
//! The detailed report describes one mapped region after another; among each
//! region's fields stand a line labelled `Size:` and a line labelled `Rss:`,
//! each carrying a value in kibibytes. The reader sums the two kinds of line
//! into region-wide totals and ignores everything else. The summary report is
//! a single line of counters measured in pages; its first two integers are
//! the total mapped size and the resident set size.

use vstd::prelude::*;
use vstd::slice::slice_subrange;

use crate::scan::{scan_int, scan_len, scan_value};
use crate::MemoryStats;

verus! {

/// The label that opens a region's virtual-size line: the bytes of `Size:`.
pub open spec fn size_label() -> Seq<u8> {
    seq![83u8, 105u8, 122u8, 101u8, 58u8]
}

/// The label that opens a region's resident-size line: the bytes of `Rss:`.
pub open spec fn rss_label() -> Seq<u8> {
    seq![82u8, 115u8, 115u8, 58u8]
}

/// The index of the first line-break byte of `s`, or `s.len()` if there is
/// none.
pub open spec fn line_break(s: Seq<u8>) -> nat
    decreases s.len(),
{
    if s.len() == 0 {
        0
    } else if s[0] == 10 {
        0
    } else {
        1 + line_break(s.skip(1))
    }
}

/// The first line break lies within the sequence.
pub proof fn lemma_line_break_le(s: Seq<u8>)
    ensures
        line_break(s) <= s.len(),
    decreases s.len(),
{
    if s.len() > 0 && s[0] != 10 {
        lemma_line_break_le(s.skip(1));
    }
}

/// The lines of a report: the segments between line-break bytes, without the
/// breaks themselves.
pub open spec fn lines_of(s: Seq<u8>) -> Seq<Seq<u8>>
    decreases s.len(),
    via lines_of_decreases
{
    if s.len() == 0 {
        Seq::empty()
    } else {
        let n = line_break(s) as int;
        let rest = if n < s.len() {
            s.skip(n + 1)
        } else {
            s.skip(n)
        };
        seq![s.take(n)] + lines_of(rest)
    }
}

#[via_fn]
proof fn lines_of_decreases(s: Seq<u8>) {
    lemma_line_break_le(s);
}

/// What one line contributes to a labelled total: the value scanned after the
/// label when the line begins with it, zero otherwise.
pub open spec fn line_kb(line: Seq<u8>, label: Seq<u8>) -> nat {
    if label.is_prefix_of(line) {
        scan_value(line.skip(label.len() as int))
    } else {
        0
    }
}

/// The sum, in kibibytes, of the values carried by the lines that begin with
/// the given label.
pub open spec fn labeled_kb_total(lines: Seq<Seq<u8>>, label: Seq<u8>) -> nat
    decreases lines.len(),
{
    if lines.len() == 0 {
        0
    } else {
        line_kb(lines[0], label) + labeled_kb_total(lines.skip(1), label)
    }
}

/// The virtual-size total of a detailed report, in kibibytes: the sum of its
/// `Size:` lines.
pub open spec fn detailed_size_kb(text: Seq<u8>) -> nat {
    labeled_kb_total(lines_of(text), size_label())
}

/// The resident-set total of a detailed report, in kibibytes: the sum of its
/// `Rss:` lines.
pub open spec fn detailed_rss_kb(text: Seq<u8>) -> nat {
    labeled_kb_total(lines_of(text), rss_label())
}

/// The first integer of a summary report: the total mapped size in pages.
pub open spec fn summary_size_pages(text: Seq<u8>) -> nat {
    scan_value(text)
}

/// The second integer of a summary report: the resident set size in pages.
pub open spec fn summary_rss_pages(text: Seq<u8>) -> nat {
    scan_value(text.skip(scan_len(text) as int))
}

/// Whether the line begins with `Size:`.
fn is_size_line(line: &[u8]) -> (r: bool)
    ensures
        r == size_label().is_prefix_of(line@),
{
    let r = line.len() >= 5 && line[0] == 83 && line[1] == 105 && line[2] == 122 && line[3] == 101
        && line[4] == 58;
    proof {
        if r {
            assert(size_label() =~= line@.subrange(0, 5));
        } else if size_label().is_prefix_of(line@) {
            assert(line@[0] == 83 && line@[1] == 105 && line@[2] == 122 && line@[3] == 101
                && line@[4] == 58);
        }
    }
    r
}

/// Whether the line begins with `Rss:`.
fn is_rss_line(line: &[u8]) -> (r: bool)
    ensures
        r == rss_label().is_prefix_of(line@),
{
    let r = line.len() >= 4 && line[0] == 82 && line[1] == 115 && line[2] == 115 && line[3] == 58;
    proof {
        if r {
            assert(rss_label() =~= line@.subrange(0, 4));
        } else if rss_label().is_prefix_of(line@) {
            assert(line@[0] == 82 && line@[1] == 115 && line@[2] == 115 && line@[3] == 58);
        }
    }
    r
}

/// Reads a detailed memory-map report: the `Size:` lines and the `Rss:`
/// lines each carry a value in kibibytes, and the two running totals,
/// converted to bytes, give the virtual and the resident size of the
/// process. Every other line -- address ranges, permissions, the other
/// per-region fields -- is ignored, and a malformed value field counts as
/// zero. A rollup variant of the report without `Size:` lines yields a zero
/// virtual total rather than an error.
pub fn detailed_report_stats(text: &[u8]) -> (r: MemoryStats)
    requires
        detailed_size_kb(text@) * 1024 <= usize::MAX,
        detailed_rss_kb(text@) * 1024 <= usize::MAX,
    ensures
        r.virtual_mem == detailed_size_kb(text@) * 1024,
        r.physical_mem == detailed_rss_kb(text@) * 1024,
{
    let n = text.len();
    let mut pos: usize = 0;
    let mut size_kb: usize = 0;
    let mut rss_kb: usize = 0;
    proof {
        assert(text@.skip(0) =~= text@);
    }
    while pos < n
        invariant
            n == text@.len(),
            0 <= pos <= n,
            size_kb + labeled_kb_total(lines_of(text@.skip(pos as int)), size_label())
                == detailed_size_kb(text@),
            rss_kb + labeled_kb_total(lines_of(text@.skip(pos as int)), rss_label())
                == detailed_rss_kb(text@),
            detailed_size_kb(text@) * 1024 <= usize::MAX,
            detailed_rss_kb(text@) * 1024 <= usize::MAX,
        decreases n - pos,
    {
        let ghost u = text@.skip(pos as int);
        let mut end = pos;
        while end < n && text[end] != 10
            invariant
                n == text@.len(),
                0 <= pos <= end <= n,
                u == text@.skip(pos as int),
                line_break(u) == (end - pos) + line_break(text@.skip(end as int)),
            decreases n - end,
        {
            proof {
                assert(text@.skip(end as int)[0] == text@[end as int]);
                assert(text@.skip(end as int).skip(1) =~= text@.skip(end as int + 1));
            }
            end = end + 1;
        }
        proof {
            assert(line_break(text@.skip(end as int)) == 0);
            assert(line_break(u) == end - pos);
            lemma_line_break_le(u);
        }
        let line = slice_subrange(text, pos, end);
        let ghost rest = if line_break(u) < u.len() {
            u.skip(line_break(u) as int + 1)
        } else {
            u.skip(line_break(u) as int)
        };
        proof {
            assert(line@ =~= u.take(line_break(u) as int));
            assert(lines_of(u) == seq![u.take(line_break(u) as int)] + lines_of(rest));
            assert(lines_of(u)[0] == line@);
            assert(lines_of(u).skip(1) =~= lines_of(rest));
            assert(labeled_kb_total(lines_of(u), size_label()) == line_kb(line@, size_label())
                + labeled_kb_total(lines_of(rest), size_label()));
            assert(labeled_kb_total(lines_of(u), rss_label()) == line_kb(line@, rss_label())
                + labeled_kb_total(lines_of(rest), rss_label()));
            assert(detailed_size_kb(text@) <= detailed_size_kb(text@) * 1024);
            assert(detailed_rss_kb(text@) <= detailed_rss_kb(text@) * 1024);
        }
        if is_size_line(line) {
            proof {
                assert(line@[0] == 83);
                assert(!rss_label().is_prefix_of(line@));
            }
            let tail = slice_subrange(line, 5, line.len());
            proof {
                assert(tail@ =~= line@.skip(5));
            }
            let (v, _consumed) = scan_int(tail);
            size_kb = size_kb + v;
        } else if is_rss_line(line) {
            let tail = slice_subrange(line, 4, line.len());
            proof {
                assert(tail@ =~= line@.skip(4));
            }
            let (v, _consumed) = scan_int(tail);
            rss_kb = rss_kb + v;
        }
        pos = if end < n {
            end + 1
        } else {
            end
        };
        proof {
            assert(rest =~= text@.skip(pos as int));
        }
    }
    proof {
        assert(text@.skip(pos as int).len() == 0);
        assert(labeled_kb_total(lines_of(text@.skip(pos as int)), size_label()) == 0);
        assert(labeled_kb_total(lines_of(text@.skip(pos as int)), rss_label()) == 0);
    }
    MemoryStats { physical_mem: rss_kb * 1024, virtual_mem: size_kb * 1024 }
}

/// Reads a summary report: a single line of whitespace-separated counters
/// whose first integer is the total mapped size in pages and whose second is
/// the resident set size in pages; each is multiplied by the page size to
/// give bytes. The remaining columns are ignored.
pub fn summary_report_stats(text: &[u8], page_size: usize) -> (r: MemoryStats)
    requires
        page_size >= 1,
        summary_size_pages(text@) * page_size <= usize::MAX,
        summary_rss_pages(text@) * page_size <= usize::MAX,
    ensures
        r.virtual_mem == summary_size_pages(text@) * page_size,
        r.physical_mem == summary_rss_pages(text@) * page_size,
{
    proof {
        lemma_le_mul_positive(summary_size_pages(text@), page_size as nat);
        lemma_le_mul_positive(summary_rss_pages(text@), page_size as nat);
    }
    let (size_pages, idx) = scan_int(text);
    let rest = slice_subrange(text, idx, text.len());
    proof {
        assert(rest@ =~= text@.skip(idx as int));
    }
    let (rss_pages, _consumed) = scan_int(rest);
    MemoryStats { physical_mem: rss_pages * page_size, virtual_mem: size_pages * page_size }
}

/// Multiplying by a positive count never shrinks a total.
proof fn lemma_le_mul_positive(v: nat, p: nat)
    requires
        p >= 1,
    ensures
        v <= v * p,
{
    assert(v <= v * p) by (nonlinear_arith)
        requires
            p >= 1,
    ;
}

/// A labelled total does not depend on the unrelated lines around the
/// labelled ones: inserting a line that does not begin with the label --
/// an address range, a permission field, any other metadata -- anywhere in
/// the report leaves the total unchanged.
pub proof fn lemma_unrelated_line_changes_nothing(
    lines: Seq<Seq<u8>>,
    label: Seq<u8>,
    i: int,
    line: Seq<u8>,
)
    requires
        0 <= i <= lines.len(),
        !label.is_prefix_of(line),
    ensures
        labeled_kb_total(lines.insert(i, line), label) == labeled_kb_total(lines, label),
    decreases lines.len(),
{
    if i == 0 {
        assert(lines.insert(0, line)[0] == line);
        assert(lines.insert(0, line).skip(1) =~= lines);
    } else {
        lemma_unrelated_line_changes_nothing(lines.skip(1), label, i - 1, line);
        assert(lines.insert(i, line)[0] == lines[0]);
        assert(lines.insert(i, line).skip(1) =~= lines.skip(1).insert(i - 1, line));
    }
}

/// A rollup report, which omits the `Size:` lines altogether, yields a zero
/// virtual-size total; its `Rss:` lines are summed as in any other report,
/// and nothing fails.
pub proof fn lemma_rollup_report_zero_virtual(text: Seq<u8>)
    requires
        forall|i: int| 0 <= i < lines_of(text).len() ==> !size_label().is_prefix_of(
            #[trigger] lines_of(text)[i],
        ),
    ensures
        detailed_size_kb(text) == 0,
{
    lemma_unlabeled_lines_total_zero(lines_of(text), size_label());
}

/// No line carries the label, so the labelled total vanishes.
proof fn lemma_unlabeled_lines_total_zero(lines: Seq<Seq<u8>>, label: Seq<u8>)
    requires
        forall|i: int| 0 <= i < lines.len() ==> !label.is_prefix_of(#[trigger] lines[i]),
    ensures
        labeled_kb_total(lines, label) == 0,
    decreases lines.len(),
{
    if lines.len() > 0 {
        assert forall|i: int| 0 <= i < lines.skip(1).len() implies !label.is_prefix_of(
            #[trigger] lines.skip(1)[i],
        ) by {
            assert(lines.skip(1)[i] == lines[i + 1]);
        }
        lemma_unlabeled_lines_total_zero(lines.skip(1), label);
        assert(!label.is_prefix_of(lines[0]));
    }
}

} // verus!
