use memory_stats::scan_int;

#[test]
fn scans_plain_number_and_consumes_separator() {
    assert_eq!(scan_int(b"1000 250"), (1000, 5));
}

#[test]
fn scans_after_leading_spaces() {
    assert_eq!(scan_int(b"   42 kB"), (42, 6));
}

#[test]
fn malformed_field_scans_to_zero() {
    assert_eq!(scan_int(b" garbage"), (0, 2));
}

#[test]
fn empty_input_scans_to_zero() {
    assert_eq!(scan_int(b""), (0, 0));
}

#[test]
fn stops_at_first_non_digit() {
    assert_eq!(scan_int(b"12a34"), (12, 3));
}

#[test]
fn number_at_end_of_input() {
    assert_eq!(scan_int(b"7"), (7, 1));
}

#[test]
fn spaces_only_input() {
    assert_eq!(scan_int(b"  "), (0, 2));
}

#[test]
fn keeps_leading_zeroes_value() {
    assert_eq!(scan_int(b"007 kB"), (7, 4));
}
