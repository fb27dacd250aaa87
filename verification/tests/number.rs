use shell_core::number::{format_i32, parse_i32, IntErrorKind};

fn std_kind(text: &str) -> Result<i32, IntErrorKind> {
    text.parse::<i32>().map_err(|e| match e.kind() {
        std::num::IntErrorKind::Empty => IntErrorKind::Empty,
        std::num::IntErrorKind::InvalidDigit => IntErrorKind::InvalidDigit,
        std::num::IntErrorKind::PosOverflow => IntErrorKind::PosOverflow,
        std::num::IntErrorKind::NegOverflow => IntErrorKind::NegOverflow,
        other => panic!("{other:?}"),
    })
}

#[test]
fn format_matches_exact_values() {
    assert_eq!(format_i32(0), "0");
    assert_eq!(format_i32(7), "7");
    assert_eq!(format_i32(127), "127");
    assert_eq!(format_i32(-1), "-1");
    assert_eq!(format_i32(1000), "1000");
    assert_eq!(format_i32(i32::MAX), "2147483647");
    assert_eq!(format_i32(i32::MIN), "-2147483648");
}

#[test]
fn format_agrees_with_std() {
    let mut n: i64 = i32::MIN as i64;
    while n <= i32::MAX as i64 {
        assert_eq!(format_i32(n as i32), (n as i32).to_string());
        n += 9_999_991;
    }
    for n in -1100..1100 {
        assert_eq!(format_i32(n), n.to_string());
    }
}

#[test]
fn parse_reads_exact_values() {
    assert_eq!(parse_i32("0"), Ok(0));
    assert_eq!(parse_i32("9"), Ok(9));
    assert_eq!(parse_i32("+9"), Ok(9));
    assert_eq!(parse_i32("-9"), Ok(-9));
    assert_eq!(parse_i32("-0"), Ok(0));
    assert_eq!(parse_i32("007"), Ok(7));
    assert_eq!(parse_i32("00000000000000000000000012"), Ok(12));
    assert_eq!(parse_i32("2147483647"), Ok(i32::MAX));
    assert_eq!(parse_i32("-2147483648"), Ok(i32::MIN));
}

#[test]
fn parse_names_each_failure() {
    assert_eq!(parse_i32(""), Err(IntErrorKind::Empty));
    assert_eq!(parse_i32("+"), Err(IntErrorKind::InvalidDigit));
    assert_eq!(parse_i32("-"), Err(IntErrorKind::InvalidDigit));
    assert_eq!(parse_i32("abc"), Err(IntErrorKind::InvalidDigit));
    assert_eq!(parse_i32("12a"), Err(IntErrorKind::InvalidDigit));
    assert_eq!(parse_i32(" 1"), Err(IntErrorKind::InvalidDigit));
    assert_eq!(parse_i32("1 "), Err(IntErrorKind::InvalidDigit));
    assert_eq!(parse_i32("++1"), Err(IntErrorKind::InvalidDigit));
    assert_eq!(parse_i32("1_000"), Err(IntErrorKind::InvalidDigit));
    assert_eq!(parse_i32("2147483648"), Err(IntErrorKind::PosOverflow));
    assert_eq!(parse_i32("+2147483648"), Err(IntErrorKind::PosOverflow));
    assert_eq!(parse_i32("-2147483649"), Err(IntErrorKind::NegOverflow));
    assert_eq!(parse_i32("99999999999999999999"), Err(IntErrorKind::PosOverflow));
    assert_eq!(parse_i32("99999999999x"), Err(IntErrorKind::PosOverflow));
    assert_eq!(parse_i32("-99999999999x"), Err(IntErrorKind::NegOverflow));
    assert_eq!(parse_i32("214748364x"), Err(IntErrorKind::InvalidDigit));
    assert_eq!(parse_i32("\u{663}"), Err(IntErrorKind::InvalidDigit));
}

#[test]
fn parse_agrees_with_std() {
    let samples = [
        "", "+", "-", "0", "-0", "+0", "00", "1", "-1", "+1", "12", "1x", "x1", "2147483647",
        "2147483648", "-2147483648", "-2147483649", "21474836470", "000002147483647",
        "0000021474836470", "99999999999x", "9999999999x9", "-99999999999x", "214748364x",
        "2147483647x", "2147483648x", " 5", "5 ", "5\n", "--5", "+-5", "0x10", "1e3", "１",
        "4294967296", "18446744073709551616", "-18446744073709551616",
    ];
    for text in samples {
        assert_eq!(parse_i32(text), std_kind(text), "{text:?}");
    }
}

#[test]
fn parse_reads_back_what_format_wrote() {
    for n in [0, 1, -1, 5, 10, 99, 100, 127, 137, 255, -255, 65535, i32::MAX, i32::MIN] {
        assert_eq!(parse_i32(&format_i32(n)), Ok(n));
    }
}
