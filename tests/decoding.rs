use temp_monitor::{parse_reading, Aggregator, DecodeError};

#[test]
fn parses_kernel_reading_with_newline() {
    assert_eq!(parse_reading(b"45000\n"), Ok(45_000));
    assert_eq!(parse_reading(b"0"), Ok(0));
    assert_eq!(parse_reading(b"-1250 \t\r\n"), Ok(-1_250));
}

#[test]
fn rejects_text_that_is_not_a_number() {
    assert_eq!(parse_reading(b""), Err(DecodeError::NotANumber));
    assert_eq!(parse_reading(b" \n"), Err(DecodeError::NotANumber));
    assert_eq!(parse_reading(b"-"), Err(DecodeError::NotANumber));
    assert_eq!(parse_reading(b"45.5"), Err(DecodeError::NotANumber));
    assert_eq!(parse_reading(b" 45"), Err(DecodeError::NotANumber));
    assert_eq!(parse_reading(b"4a"), Err(DecodeError::NotANumber));
    assert_eq!(parse_reading(b"--3"), Err(DecodeError::NotANumber));
}

#[test]
fn rejects_values_outside_i32() {
    assert_eq!(parse_reading(b"2147483647"), Ok(i32::MAX));
    assert_eq!(parse_reading(b"-2147483648"), Ok(i32::MIN));
    assert_eq!(parse_reading(b"2147483648"), Err(DecodeError::OutOfRange));
    assert_eq!(parse_reading(b"-2147483649"), Err(DecodeError::OutOfRange));
    assert_eq!(parse_reading(b"99999999999999999999999"), Err(DecodeError::OutOfRange));
}

#[test]
fn tick_skips_undecodable_reading() {
    let mut a = Aggregator::new(1);
    assert_eq!(a.tick(b"garbage").err(), Some(DecodeError::NotANumber));
    assert_eq!(a.short().len(), 0);
    let s = a.tick(b"51000\n").unwrap();
    assert_eq!(s.current, 51_000);
    assert_eq!(s.short.unwrap().rounded(), 51_000);
    assert_eq!(a.tick(b"x").err(), Some(DecodeError::NotANumber));
    assert_eq!(a.short().len(), 1);
    assert_eq!(a.current(), 51_000);
}
