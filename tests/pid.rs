use xycrd::pid::{parse_pid, parse_pid_text, PidError};

#[test]
fn test_parse_pid() {
    assert_eq!(parse_pid(b"123").unwrap(), 123);
}

#[test]
fn test_parse_pid_empty_string() {
    parse_pid(b"").unwrap_err();
}

#[test]
fn test_parse_pid_text() {
    parse_pid(b"asd").unwrap_err();
}

#[test]
fn parse_pid_errors_are_invalid_data() {
    assert_eq!(parse_pid(b""), Err(PidError::InvalidData));
    assert_eq!(parse_pid(b"asd"), Err(PidError::InvalidData));
}

#[test]
fn parse_pid_trims_surrounding_whitespace() {
    assert_eq!(parse_pid(b"  4711\n"), Ok(4711));
    assert_eq!(parse_pid(b"\t42\r\n"), Ok(42));
    assert_eq!(parse_pid("\u{a0}17\u{2003}".as_bytes()), Ok(17));
}

#[test]
fn parse_pid_replaces_invalid_utf8() {
    assert_eq!(parse_pid(b"\xff12"), Err(PidError::InvalidData));
    assert_eq!(parse_pid(b"12\xff"), Err(PidError::InvalidData));
}

#[test]
fn parse_pid_signs_and_range() {
    assert_eq!(parse_pid(b"+7"), Ok(7));
    assert_eq!(parse_pid(b"-7"), Ok(-7));
    assert_eq!(parse_pid(b"007"), Ok(7));
    assert_eq!(parse_pid(b"2147483647"), Ok(2147483647));
    assert_eq!(parse_pid(b"-2147483648"), Ok(-2147483648));
    assert_eq!(parse_pid(b"2147483648"), Err(PidError::InvalidData));
    assert_eq!(parse_pid(b"-2147483649"), Err(PidError::InvalidData));
    assert_eq!(parse_pid(b"99999999999999999999999"), Err(PidError::InvalidData));
    assert_eq!(parse_pid(b"-"), Err(PidError::InvalidData));
    assert_eq!(parse_pid(b"+"), Err(PidError::InvalidData));
    assert_eq!(parse_pid(b"1 2"), Err(PidError::InvalidData));
    assert_eq!(parse_pid(b"--1"), Err(PidError::InvalidData));
}

#[test]
fn parse_pid_text_does_not_trim() {
    assert_eq!(parse_pid_text("123"), Ok(123));
    assert_eq!(parse_pid_text(" 123"), Err(PidError::InvalidData));
    assert_eq!(parse_pid_text(""), Err(PidError::InvalidData));
}
