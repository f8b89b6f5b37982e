//! A permissive decimal scanner for the semi-structured report formats.
//!
//! The reports carry non-negative decimal values surrounded by spaces, labels
//! and unit suffixes. The scanner skips leading spaces, consumes a run of
//! digits, and stops at the first byte that is neither; a malformed or empty
//! value field simply scans to zero, it never fails.

use vstd::prelude::*;

verus! {

/// A decimal digit byte, `'0'` through `'9'`.
pub open spec fn is_digit(b: u8) -> bool {
    48 <= b <= 57
}

/// The numeric value of a digit byte; zero for every other byte.
pub open spec fn digit_val(b: u8) -> nat {
    if is_digit(b) {
        (b - 48) as nat
    } else {
        0
    }
}

/// The number of leading space bytes of `s`.
pub open spec fn space_run(s: Seq<u8>) -> nat
    decreases s.len(),
{
    if s.len() > 0 && s[0] == 32 {
        1 + space_run(s.skip(1))
    } else {
        0
    }
}

/// The number of leading decimal-digit bytes of `s`.
pub open spec fn digit_run(s: Seq<u8>) -> nat
    decreases s.len(),
{
    if s.len() > 0 && is_digit(s[0]) {
        1 + digit_run(s.skip(1))
    } else {
        0
    }
}

/// The value of `s` read as a decimal numeral, most significant digit first.
pub open spec fn digits_value(s: Seq<u8>) -> nat
    decreases s.len(),
{
    if s.len() == 0 {
        0
    } else {
        digits_value(s.drop_last()) * 10 + digit_val(s.last())
    }
}

/// The number [`scan_int`] extracts from `s`: the value of the run of digits
/// that follows the leading spaces. An empty run scans to zero.
pub open spec fn scan_value(s: Seq<u8>) -> nat {
    let t = s.skip(space_run(s) as int);
    digits_value(t.take(digit_run(t) as int))
}

/// How many bytes [`scan_int`] consumes from `s`: the leading spaces, the
/// digits, and the byte that ended the run, if the run did not reach the end.
pub open spec fn scan_len(s: Seq<u8>) -> nat {
    let t = s.skip(space_run(s) as int);
    if space_run(s) + digit_run(t) < s.len() {
        space_run(s) + digit_run(t) + 1
    } else {
        space_run(s) + digit_run(t)
    }
}

/// The leading space run never extends past the end of the sequence.
pub proof fn lemma_space_run_le(s: Seq<u8>)
    ensures
        space_run(s) <= s.len(),
    decreases s.len(),
{
    if s.len() > 0 && s[0] == 32 {
        lemma_space_run_le(s.skip(1));
    }
}

/// The leading digit run never extends past the end of the sequence.
pub proof fn lemma_digit_run_le(s: Seq<u8>)
    ensures
        digit_run(s) <= s.len(),
    decreases s.len(),
{
    if s.len() > 0 && is_digit(s[0]) {
        lemma_digit_run_le(s.skip(1));
    }
}

/// Reading more digits of a numeral never decreases its value.
pub proof fn lemma_digits_value_take_le(s: Seq<u8>, i: int, j: int)
    requires
        0 <= i <= j <= s.len(),
    ensures
        digits_value(s.take(i)) <= digits_value(s.take(j)),
    decreases j - i,
{
    if i < j {
        lemma_digits_value_take_le(s, i, j - 1);
        assert(s.take(j).drop_last() =~= s.take(j - 1));
        assert(digits_value(s.take(j)) == digits_value(s.take(j - 1)) * 10 + digit_val(
            s.take(j).last(),
        ));
        assert(digits_value(s.take(j - 1)) * 10 >= digits_value(s.take(j - 1)));
    }
}

/// A malformed value field scans to zero: when no digit follows the leading
/// spaces, nothing is contributed, and the scan still succeeds.
pub proof fn lemma_malformed_field_scans_to_zero(s: Seq<u8>)
    requires
        space_run(s) == s.len() || !is_digit(s[space_run(s) as int]),
    ensures
        scan_value(s) == 0,
{
    lemma_space_run_le(s);
    let t = s.skip(space_run(s) as int);
    if space_run(s) < s.len() {
        assert(t[0] == s[space_run(s) as int]);
        assert(digit_run(t) == 0);
    }
    assert(t.take(digit_run(t) as int) =~= Seq::<u8>::empty());
}

/// Extracts a non-negative decimal integer from a byte string that may
/// contain leading spaces and trailing bytes. Returns the extracted number
/// and the index of the next unread byte.
pub fn scan_int(s: &[u8]) -> (r: (usize, usize))
    requires
        scan_value(s@) <= usize::MAX,
    ensures
        r.0 == scan_value(s@),
        r.1 == scan_len(s@),
        r.1 <= s@.len(),
{
    let n = s.len();
    let mut idx: usize = 0;
    proof {
        assert(s@.skip(0) =~= s@);
    }
    while idx < n && s[idx] == 32
        invariant
            n == s@.len(),
            0 <= idx <= n,
            space_run(s@) == idx + space_run(s@.skip(idx as int)),
        decreases n - idx,
    {
        proof {
            assert(s@.skip(idx as int).skip(1) =~= s@.skip(idx as int + 1));
        }
        idx = idx + 1;
    }
    proof {
        assert(space_run(s@.skip(idx as int)) == 0);
    }
    let ghost start = idx as int;
    let ghost t = s@.skip(start);
    let mut out: usize = 0;
    while idx < n && 48 <= s[idx] && s[idx] <= 57
        invariant
            n == s@.len(),
            0 <= start <= idx as int <= n,
            t == s@.skip(start),
            space_run(s@) == start,
            scan_value(s@) <= usize::MAX,
            digit_run(t) == (idx - start) + digit_run(s@.skip(idx as int)),
            out == digits_value(t.take(idx - start)),
        decreases n - idx,
    {
        let b = s[idx];
        proof {
            let m = idx - start;
            assert(s@.skip(idx as int)[0] == s@[idx as int]);
            assert(digit_run(s@.skip(idx as int)) >= 1);
            assert(s@.skip(idx as int).skip(1) =~= s@.skip(idx as int + 1));
            assert(t[m] == s@[idx as int]);
            assert(t.take(m + 1).drop_last() =~= t.take(m));
            assert(t.take(m + 1).last() == t[m]);
            assert(digits_value(t.take(m + 1)) == digits_value(t.take(m)) * 10 + digit_val(t[m]));
            assert(m + 1 <= digit_run(t));
            lemma_digit_run_le(t);
            lemma_digits_value_take_le(t, m + 1, digit_run(t) as int);
            assert(digits_value(t.take(digit_run(t) as int)) == scan_value(s@));
            assert(out * 10 + digit_val(t[m]) <= usize::MAX);
        }
        out = out * 10 + (b - 48) as usize;
        idx = idx + 1;
    }
    proof {
        assert(digit_run(s@.skip(idx as int)) == 0);
        assert(digit_run(t) == idx - start);
        assert(t.take(digit_run(t) as int) =~= t.take(idx - start));
    }
    if idx < n {
        (out, idx + 1)
    } else {
        (out, idx)
    }
}

} // verus!
