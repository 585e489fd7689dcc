use ledger_client::decimal::{push_decimal, scan_number};

#[test]
fn scan_reads_the_longest_run_of_digits() {
    assert_eq!(scan_number(b"1001", 0, u64::MAX), (4, Some(1001)));
    assert_eq!(scan_number(b"12.34", 0, u64::MAX), (2, Some(12)));
    assert_eq!(scan_number(b"12.34", 3, u64::MAX), (5, Some(34)));
}

#[test]
fn scan_of_an_empty_run_gives_zero_and_does_not_move() {
    assert_eq!(scan_number(b".5", 0, u64::MAX), (0, Some(0)));
    assert_eq!(scan_number(b"", 0, u64::MAX), (0, Some(0)));
    assert_eq!(scan_number(b"7", 1, u64::MAX), (1, Some(0)));
}

#[test]
fn scan_keeps_leading_zeros_out_of_the_value() {
    assert_eq!(scan_number(b"000042", 0, u64::MAX), (6, Some(42)));
    assert_eq!(scan_number(b"0000000000000000000000000000000", 0, 0), (31, Some(0)));
}

#[test]
fn scan_accepts_the_greatest_value_and_no_more() {
    assert_eq!(
        scan_number(b"18446744073709551615", 0, u64::MAX),
        (20, Some(u64::MAX))
    );
    assert_eq!(scan_number(b"18446744073709551616", 0, u64::MAX), (20, None));
    assert_eq!(
        scan_number(b"99999999999999999999999999", 0, u64::MAX),
        (26, None)
    );
    assert_eq!(scan_number(b"65535", 0, 65535), (5, Some(65535)));
    assert_eq!(scan_number(b"65536", 0, 65535), (5, None));
    assert_eq!(scan_number(b"10", 0, 9), (2, None));
    assert_eq!(scan_number(b"9", 0, 9), (1, Some(9)));
}

#[test]
fn scan_stops_at_what_is_no_digit() {
    assert_eq!(scan_number(b"12a", 0, u64::MAX), (2, Some(12)));
    assert_eq!(scan_number(b"1/2", 0, u64::MAX), (1, Some(1)));
    assert_eq!(scan_number(b"1:2", 0, u64::MAX), (1, Some(1)));
}

#[test]
fn push_writes_without_leading_zeros() {
    let mut out = String::new();
    push_decimal(&mut out, 0);
    assert_eq!(out, "0");
    push_decimal(&mut out, 7);
    assert_eq!(out, "07");
    push_decimal(&mut out, 1001);
    assert_eq!(out, "071001");
}

#[test]
fn push_writes_the_greatest_value() {
    let mut out = String::from("n=");
    push_decimal(&mut out, u64::MAX);
    assert_eq!(out, "n=18446744073709551615");
}

#[test]
fn what_is_written_is_read_back() {
    for n in [0u64, 1, 9, 10, 99, 100, 12345, 1 << 32, u64::MAX - 1, u64::MAX] {
        let mut out = String::new();
        push_decimal(&mut out, n);
        assert_eq!(scan_number(out.as_bytes(), 0, u64::MAX), (out.len(), Some(n)));
    }
}
