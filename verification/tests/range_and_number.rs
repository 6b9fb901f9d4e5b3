use ned::number::{parse_usize, usize_to_decimal, IntErrorKind};
use ned::range::Range;

#[test]
fn range_new_accepts_ordered_corners() {
    let r = Range::new((1, 2), (3, 4)).expect("ordered corners make a range");
    assert_eq!(r.start(), (1, 2));
    assert_eq!(r.end(), (3, 4));
}

#[test]
fn range_new_accepts_a_single_point() {
    let r = Range::new((5, 5), (5, 5)).expect("a point is a range");
    assert_eq!(r.start(), (5, 5));
    assert_eq!(r.end(), (5, 5));
}

#[test]
fn range_new_refuses_reversed_columns() {
    assert!(Range::new((4, 0), (3, 9)).is_none());
}

#[test]
fn range_new_refuses_reversed_rows() {
    assert!(Range::new((0, 9), (3, 2)).is_none());
}

#[test]
fn decimal_text_of_numbers() {
    assert_eq!(usize_to_decimal(0), "0");
    assert_eq!(usize_to_decimal(7), "7");
    assert_eq!(usize_to_decimal(305), "305");
    assert_eq!(usize_to_decimal(usize::MAX), usize::MAX.to_string());
}

#[test]
fn parse_plain_and_signed_digits() {
    assert_eq!(parse_usize("42"), Ok(42));
    assert_eq!(parse_usize("+7"), Ok(7));
    assert_eq!(parse_usize("007"), Ok(7));
}

#[test]
fn parse_refusals() {
    assert_eq!(parse_usize(""), Err(IntErrorKind::Empty));
    assert_eq!(parse_usize("+"), Err(IntErrorKind::InvalidDigit));
    assert_eq!(parse_usize("-"), Err(IntErrorKind::InvalidDigit));
    assert_eq!(parse_usize("-1"), Err(IntErrorKind::InvalidDigit));
    assert_eq!(parse_usize("12a"), Err(IntErrorKind::InvalidDigit));
    assert_eq!(parse_usize(" 1"), Err(IntErrorKind::InvalidDigit));
    assert_eq!(parse_usize("\u{0661}"), Err(IntErrorKind::InvalidDigit));
}

#[test]
fn parse_overflow_comes_before_a_later_bad_character() {
    let too_big = format!("{}0", usize::MAX);
    assert_eq!(parse_usize(&too_big), Err(IntErrorKind::PosOverflow));
    let too_big_then_bad = format!("{}0x", usize::MAX);
    assert_eq!(parse_usize(&too_big_then_bad), Err(IntErrorKind::PosOverflow));
    let bad_then_big = format!("x{}0", usize::MAX);
    assert_eq!(parse_usize(&bad_then_big), Err(IntErrorKind::InvalidDigit));
    assert_eq!(parse_usize(&usize::MAX.to_string()), Ok(usize::MAX));
}

fn std_kind(s: &str) -> Result<usize, IntErrorKind> {
    match s.parse::<usize>() {
        Ok(v) => Ok(v),
        Err(e) => Err(match e.kind() {
            std::num::IntErrorKind::Empty => IntErrorKind::Empty,
            std::num::IntErrorKind::InvalidDigit => IntErrorKind::InvalidDigit,
            std::num::IntErrorKind::PosOverflow => IntErrorKind::PosOverflow,
            other => panic!("unexpected kind {:?}", other),
        }),
    }
}

#[test]
fn parse_agrees_with_the_standard_library() {
    let max = usize::MAX.to_string();
    let cases = [
        "", "+", "-", "0", "+0", "00", "123", "+123", "-123", "1+2", "++1", "1 ", "é", "9x",
        &max, "99999999999999999999999999", "99999999999999999999999999x",
    ];
    for case in cases.iter() {
        assert_eq!(parse_usize(case), std_kind(case), "on {:?}", case);
    }
}

#[test]
fn decimal_text_reads_back() {
    for n in [0usize, 1, 9, 10, 99, 100, 12345, usize::MAX / 10, usize::MAX] {
        let text = usize_to_decimal(n);
        assert_eq!(text, n.to_string());
        assert_eq!(parse_usize(&text), Ok(n));
    }
}
