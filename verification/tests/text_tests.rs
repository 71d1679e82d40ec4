use airnc::text::{decimal_text, parse_port, PortParseError};
use std::num::IntErrorKind;

fn std_kind(text: &str) -> Result<u16, PortParseError> {
    match text.parse::<u16>() {
        Ok(v) => Ok(v),
        Err(e) => match e.kind() {
            IntErrorKind::Empty => Err(PortParseError::Empty),
            IntErrorKind::InvalidDigit => Err(PortParseError::InvalidDigit),
            IntErrorKind::PosOverflow => Err(PortParseError::PosOverflow),
            other => panic!("unexpected kind {:?}", other),
        },
    }
}

#[test]
fn decimal_text_writes_numbers() {
    assert_eq!(decimal_text(0), "0");
    assert_eq!(decimal_text(7), "7");
    assert_eq!(decimal_text(10), "10");
    assert_eq!(decimal_text(8080), "8080");
    assert_eq!(decimal_text(65535), "65535");
    assert_eq!(decimal_text(u64::MAX), u64::MAX.to_string());
}

#[test]
fn parse_port_reads_ports() {
    assert_eq!(parse_port("8080"), Ok(8080));
    assert_eq!(parse_port("+80"), Ok(80));
    assert_eq!(parse_port("0065535"), Ok(65535));
    assert_eq!(parse_port("0"), Ok(0));
}

#[test]
fn parse_port_error_kinds() {
    assert_eq!(parse_port(""), Err(PortParseError::Empty));
    assert_eq!(parse_port("+"), Err(PortParseError::InvalidDigit));
    assert_eq!(parse_port("-"), Err(PortParseError::InvalidDigit));
    assert_eq!(parse_port("-1"), Err(PortParseError::InvalidDigit));
    assert_eq!(parse_port(" 80"), Err(PortParseError::InvalidDigit));
    assert_eq!(parse_port("65536"), Err(PortParseError::PosOverflow));
    assert_eq!(parse_port("99999x"), Err(PortParseError::PosOverflow));
    assert_eq!(parse_port("7000x0000"), Err(PortParseError::InvalidDigit));
}

#[test]
fn parse_port_agrees_with_std() {
    let cases = [
        "", "+", "-", "0", "00", "+0", "++1", "1+", "65535", "65536", "655350", "123456789012",
        "99999x", "7000x0000", "3306", " 3306", "3306 ", "é", "٣", "+65535", "-0", "12a",
    ];
    for c in cases.iter() {
        assert_eq!(parse_port(c), std_kind(c), "case {:?}", c);
    }
}

#[test]
fn port_text_round_trip() {
    for p in [0u16, 1, 9, 10, 99, 100, 3306, 8080, 10000, 65534, 65535] {
        assert_eq!(parse_port(&decimal_text(p as u64)), Ok(p));
    }
}
