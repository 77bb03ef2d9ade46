use fmi_rs::decimal::{format_decimal, parse_u32, IntErrorKind};

fn chars(s: &str) -> Vec<char> {
    s.chars().collect()
}

#[test]
fn formats_decimal_numbers() {
    assert_eq!(format_decimal(0), "0");
    assert_eq!(format_decimal(7), "7");
    assert_eq!(format_decimal(1234567890), "1234567890");
    assert_eq!(format_decimal(u32::MAX as u128), "4294967295");
    assert_eq!(format_decimal(u128::MAX), u128::MAX.to_string());
}

#[test]
fn parses_decimal_u32_like_from_str() {
    for s in ["0", "7", "+7", "007", "4294967295", "123"] {
        assert_eq!(parse_u32(&chars(s)), Ok(s.parse::<u32>().unwrap()), "{s}");
    }
}

#[test]
fn refuses_what_from_str_refuses() {
    assert_eq!(parse_u32(&chars("")), Err(IntErrorKind::Empty));
    assert_eq!(parse_u32(&chars("+")), Err(IntErrorKind::InvalidDigit));
    assert_eq!(parse_u32(&chars("-")), Err(IntErrorKind::InvalidDigit));
    assert_eq!(parse_u32(&chars("-1")), Err(IntErrorKind::InvalidDigit));
    assert_eq!(parse_u32(&chars("12a")), Err(IntErrorKind::InvalidDigit));
    assert_eq!(parse_u32(&chars(" 1")), Err(IntErrorKind::InvalidDigit));
    assert_eq!(parse_u32(&chars("4294967296")), Err(IntErrorKind::PosOverflow));
    assert_eq!(parse_u32(&chars("99999999999a")), Err(IntErrorKind::PosOverflow));
    for s in ["", "+", "-1", "12a", "4294967296", "99999999999a"] {
        let kind = match s.parse::<u32>().unwrap_err().kind() {
            std::num::IntErrorKind::Empty => IntErrorKind::Empty,
            std::num::IntErrorKind::InvalidDigit => IntErrorKind::InvalidDigit,
            std::num::IntErrorKind::PosOverflow => IntErrorKind::PosOverflow,
            other => panic!("unexpected {other:?}"),
        };
        assert_eq!(parse_u32(&chars(s)), Err(kind), "{s}");
    }
}

#[test]
fn decimal_round_trip() {
    for v in [0u32, 1, 9, 10, 99, 100, 65535, 4294967295] {
        assert_eq!(parse_u32(&chars(&format_decimal(v as u128))), Ok(v));
    }
}
