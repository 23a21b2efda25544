use streamer_tools::num_text::{i64_to_string, parse_i32, IntErrorKind, ParseIntError};

fn err(kind: IntErrorKind) -> Result<i32, ParseIntError> {
    Err(ParseIntError { kind })
}

#[test]
fn decimal_text() {
    assert_eq!(i64_to_string(0), "0");
    assert_eq!(i64_to_string(1234), "1234");
    assert_eq!(i64_to_string(-56), "-56");
    assert_eq!(i64_to_string(i64::MIN), i64::MIN.to_string());
    assert_eq!(i64_to_string(i64::MAX), i64::MAX.to_string());
}

#[test]
fn parse_like_std() {
    for s in ["0", "+5", "-5", "007", "2147483647", "-2147483648", "", "+", "-", "1a",
              "2147483648", "-2147483649", "99999999999x", " 1", "1 ", "+-1", "١"] {
        let std_result = s.parse::<i32>().map_err(|e| e.kind().clone());
        let ours = parse_i32(s).map_err(|e| e.kind);
        let ours_std = ours.map_err(|k| match k {
            IntErrorKind::Empty => std::num::IntErrorKind::Empty,
            IntErrorKind::InvalidDigit => std::num::IntErrorKind::InvalidDigit,
            IntErrorKind::PosOverflow => std::num::IntErrorKind::PosOverflow,
            IntErrorKind::NegOverflow => std::num::IntErrorKind::NegOverflow,
        });
        assert_eq!(ours_std, std_result, "input {s:?}");
    }
}

#[test]
fn parse_errors() {
    assert_eq!(parse_i32(""), err(IntErrorKind::Empty));
    assert_eq!(parse_i32("-"), err(IntErrorKind::InvalidDigit));
    assert_eq!(parse_i32("3000000000"), err(IntErrorKind::PosOverflow));
    assert_eq!(parse_i32("-3000000000"), err(IntErrorKind::NegOverflow));
    assert_eq!(parse_i32("12"), Ok(12));
}
