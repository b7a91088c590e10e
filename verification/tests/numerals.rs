use tasklist::numeral::{i64_to_string, parse_signed, parse_unsigned, u64_to_string, IntErrorKind};
use tasklist::parse::{parse_duration_result, parse_isize, parse_string, parse_u64, parse_usize};

#[test]
fn parse_usize_reads_plain_digits() {
    assert_eq!(parse_usize("0").unwrap(), 0);
    assert_eq!(parse_usize("42").unwrap(), 42);
    assert_eq!(parse_usize("+7").unwrap(), 7);
    assert_eq!(parse_usize("007").unwrap(), 7);
    assert_eq!(parse_usize("18446744073709551615").unwrap() as u64, u64::MAX);
}

#[test]
fn parse_usize_error_names_the_input() {
    let err = parse_usize("12a").unwrap_err();
    assert_eq!(
        err.to_string(),
        "Parsing error: Error parsing 12a to usize: invalid digit found in string"
    );
    let err = parse_usize("").unwrap_err();
    assert_eq!(
        err.to_string(),
        "Parsing error: Error parsing  to usize: cannot parse integer from empty string"
    );
    let err = parse_usize("18446744073709551616").unwrap_err();
    assert_eq!(
        err.to_string(),
        "Parsing error: Error parsing 18446744073709551616 to usize: number too large to fit in target type"
    );
}

#[test]
fn parse_usize_refuses_signs_blanks_and_separators() {
    for bad in ["-1", "+", "-", " 1", "1 ", "1_000", "0x10", "1.5", "\u{663}"] {
        assert!(parse_usize(bad).is_err(), "{bad:?} was read as a number");
    }
}

#[test]
fn parse_u64_reads_the_largest_value_and_no_more() {
    assert_eq!(parse_u64("18446744073709551615").unwrap(), u64::MAX);
    let err = parse_u64("18446744073709551616").unwrap_err();
    assert_eq!(
        err.to_string(),
        "Parsing error: Error parsing 18446744073709551616 to u64: number too large to fit in target type"
    );
    let err = parse_u64("99999999999999999999999999").unwrap_err();
    assert_eq!(
        err.to_string(),
        "Parsing error: Error parsing 99999999999999999999999999 to u64: number too large to fit in target type"
    );
}

#[test]
fn parse_isize_reads_both_signs() {
    assert_eq!(parse_isize("-5").unwrap(), -5);
    assert_eq!(parse_isize("+5").unwrap(), 5);
    assert_eq!(parse_isize("5").unwrap(), 5);
    assert_eq!(parse_isize("-0").unwrap(), 0);
    assert_eq!(parse_isize("9223372036854775807").unwrap() as i64, i64::MAX);
    assert_eq!(parse_isize("-9223372036854775808").unwrap() as i64, i64::MIN);
}

#[test]
fn parse_isize_reports_the_side_of_an_overflow() {
    let err = parse_isize("9223372036854775808").unwrap_err();
    assert_eq!(
        err.to_string(),
        "Parsing error: Error parsing 9223372036854775808 to isize: number too large to fit in target type"
    );
    let err = parse_isize("-9223372036854775809").unwrap_err();
    assert_eq!(
        err.to_string(),
        "Parsing error: Error parsing -9223372036854775809 to isize: number too small to fit in target type"
    );
    let err = parse_isize("--5").unwrap_err();
    assert_eq!(
        err.to_string(),
        "Parsing error: Error parsing --5 to isize: invalid digit found in string"
    );
}

#[test]
fn integer_readers_agree_with_the_standard_library() {
    let inputs = [
        "", "+", "-", "0", "12", "+12", "-12", "007", "1_0", " 1", "1 ", "a", "12a", "0x10",
        "18446744073709551615", "18446744073709551616", "9223372036854775807",
        "9223372036854775808", "-9223372036854775808", "-9223372036854775809", "\u{663}",
        "99999999999999999999x", "-99999999999999999999x", "18446744073709551616x",
        "18446744073709551615x", "1844674407370955161x", "9223372036854775808x",
        "9223372036854775807x", "-9223372036854775809x", "-9223372036854775808x", "+x", "-+1",
        "+-1", "++1", "999999999999999999999999999999-", "00000000000000000000000000000001",
        "-00000000000000000000000000000001", "0000000000000000000000000000000x",
    ];
    for s in inputs {
        match (parse_usize(s), s.parse::<usize>()) {
            (Ok(a), Ok(b)) => assert_eq!(a, b),
            (Err(a), Err(b)) => assert_eq!(
                a.to_string(),
                format!("Parsing error: Error parsing {} to usize: {}", s, b)
            ),
            _ => panic!("usize readers disagree on {s:?}"),
        }
        match (parse_u64(s), s.parse::<u64>()) {
            (Ok(a), Ok(b)) => assert_eq!(a, b),
            (Err(a), Err(b)) => assert_eq!(
                a.to_string(),
                format!("Parsing error: Error parsing {} to u64: {}", s, b)
            ),
            _ => panic!("u64 readers disagree on {s:?}"),
        }
        match (parse_isize(s), s.parse::<isize>()) {
            (Ok(a), Ok(b)) => assert_eq!(a, b),
            (Err(a), Err(b)) => assert_eq!(
                a.to_string(),
                format!("Parsing error: Error parsing {} to isize: {}", s, b)
            ),
            _ => panic!("isize readers disagree on {s:?}"),
        }
    }
}

#[test]
fn bounded_readers_keep_to_their_bounds() {
    assert_eq!(parse_unsigned("255", 255), Ok(255));
    assert_eq!(parse_unsigned("256", 255), Err(IntErrorKind::PosOverflow));
    assert_eq!(parse_unsigned("", 255), Err(IntErrorKind::Empty));
    assert_eq!(parse_unsigned("2x", 255), Err(IntErrorKind::InvalidDigit));
    assert_eq!(parse_unsigned("25x", 255), Err(IntErrorKind::InvalidDigit));
    assert_eq!(parse_unsigned("256x", 255), Err(IntErrorKind::PosOverflow));
    assert_eq!(parse_unsigned("x256", 255), Err(IntErrorKind::InvalidDigit));
    assert_eq!(parse_unsigned("0", 0), Ok(0));
    assert_eq!(parse_unsigned("1", 0), Err(IntErrorKind::PosOverflow));
    assert_eq!(parse_signed("-128", -128, 127), Ok(-128));
    assert_eq!(parse_signed("-129", -128, 127), Err(IntErrorKind::NegOverflow));
    assert_eq!(parse_signed("128", -128, 127), Err(IntErrorKind::PosOverflow));
    assert_eq!(parse_signed("127", -128, 127), Ok(127));
    assert_eq!(
        parse_signed("-99999999999999999999999", i64::MIN, i64::MAX),
        Err(IntErrorKind::NegOverflow)
    );
    assert_eq!(parse_signed("5", 10, 20), Err(IntErrorKind::NegOverflow));
    assert_eq!(parse_signed("15", 10, 20), Ok(15));
    assert_eq!(parse_signed("-5", -20, -10), Err(IntErrorKind::PosOverflow));
    assert_eq!(parse_signed("-15", -20, -10), Ok(-15));
    assert_eq!(parse_signed("0", 1, -1), Err(IntErrorKind::PosOverflow));
    assert_eq!(parse_signed("-9223372036854775808", i64::MIN, 0), Ok(i64::MIN));
    assert_eq!(parse_signed("-0", 0, 0), Ok(0));
}

#[test]
fn numbers_are_written_in_decimal() {
    assert_eq!(u64_to_string(0), "0");
    assert_eq!(u64_to_string(9), "9");
    assert_eq!(u64_to_string(10), "10");
    assert_eq!(u64_to_string(1234567890), "1234567890");
    assert_eq!(u64_to_string(u64::MAX), "18446744073709551615");
    assert_eq!(i64_to_string(0), "0");
    assert_eq!(i64_to_string(-1), "-1");
    assert_eq!(i64_to_string(i64::MAX), "9223372036854775807");
    assert_eq!(i64_to_string(i64::MIN), "-9223372036854775808");
}

#[test]
fn written_numbers_read_back() {
    for n in [0u64, 1, 9, 10, 99, 100, 4096, u64::MAX] {
        assert_eq!(parse_u64(&u64_to_string(n)).unwrap(), n);
    }
    for n in [i64::MIN, -100, -1, 0, 1, 100, i64::MAX] {
        assert_eq!(parse_isize(&i64_to_string(n)).unwrap() as i64, n);
    }
}

#[test]
fn parse_string_writes_tabs_as_four_spaces() {
    assert_eq!(parse_string("a\tb"), "a    b");
    assert_eq!(parse_string("\t"), "    ");
    assert_eq!(parse_string("\t\tx\t"), "        x    ");
    assert_eq!(parse_string("no tab here"), "no tab here");
    assert_eq!(parse_string(""), "");
    assert_eq!(parse_string("gr\u{fc}\u{df}e\tw\u{f6}rld"), "gr\u{fc}\u{df}e    w\u{f6}rld");
}

#[test]
fn parse_string_is_idempotent() {
    let once = parse_string("a\tb\tc");
    assert_eq!(parse_string(&once), once);
    assert!(!once.contains('\t'));
}

#[test]
fn parse_duration_is_always_present() {
    assert_eq!(parse_duration_result("0").unwrap(), Some(0));
    assert_eq!(parse_duration_result("90").unwrap(), Some(90));
    let err = parse_duration_result("-1").unwrap_err();
    assert_eq!(
        err.to_string(),
        "Parsing error: Error parsing -1 to u64: invalid digit found in string"
    );
    assert!(parse_duration_result("").is_err());
}
