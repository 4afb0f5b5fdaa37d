use reo::decimal::{decimal_string, parse_u64};
use reo::{format_db_value, parse_db_value, RecordError};

#[test]
fn numbers_are_written_in_decimal() {
    assert_eq!(decimal_string(0), "0");
    assert_eq!(decimal_string(7), "7");
    assert_eq!(decimal_string(10), "10");
    assert_eq!(decimal_string(1234567890), "1234567890");
    assert_eq!(decimal_string(u64::MAX), "18446744073709551615");
}

#[test]
fn written_numbers_match_the_standard_form() {
    for n in [0u64, 1, 9, 10, 99, 100, 101, 4096, 1_700_000_000, u64::MAX - 1, u64::MAX] {
        assert_eq!(decimal_string(n), n.to_string());
        assert_eq!(parse_u64(&decimal_string(n)), Some(n));
    }
}

#[test]
fn numbers_are_read_from_decimal() {
    assert_eq!(parse_u64("0"), Some(0));
    assert_eq!(parse_u64("42"), Some(42));
    assert_eq!(parse_u64("007"), Some(7));
    assert_eq!(parse_u64("+5"), Some(5));
    assert_eq!(parse_u64("18446744073709551615"), Some(u64::MAX));
}

#[test]
fn what_is_no_number_is_refused() {
    assert_eq!(parse_u64(""), None);
    assert_eq!(parse_u64("+"), None);
    assert_eq!(parse_u64("-1"), None);
    assert_eq!(parse_u64("++1"), None);
    assert_eq!(parse_u64("1+"), None);
    assert_eq!(parse_u64(" 1"), None);
    assert_eq!(parse_u64("1 "), None);
    assert_eq!(parse_u64("12a"), None);
    assert_eq!(parse_u64("１２"), None);
    assert_eq!(parse_u64("18446744073709551616"), None);
    assert_eq!(parse_u64("99999999999999999999999"), None);
}

#[test]
fn reading_agrees_with_the_standard_parser() {
    let texts = [
        "", "0", "+0", "-0", "+", "1", "+1", "01", "1_000", "0x10", "123456", "18446744073709551615",
        "18446744073709551616", "+18446744073709551615", "184467440737095516150", "٣", "a", ":",
    ];
    for text in texts {
        assert_eq!(parse_u64(text), text.parse::<u64>().ok(), "{:?}", text);
    }
}

#[test]
fn record_is_expiry_separator_value() {
    assert_eq!(format_db_value(1234, "hello"), b"1234:hello".to_vec());
    assert_eq!(format_db_value(0, ""), b"0:".to_vec());
    assert_eq!(format_db_value(5, "é"), "5:é".as_bytes().to_vec());
}

#[test]
fn value_with_separators_survives_the_round_trip() {
    let raw = format_db_value(10, "a:b:c");
    assert_eq!(raw, b"10:a:b:c".to_vec());
    assert_eq!(parse_db_value(&raw), Ok((10, "a:b:c".to_string())));
}

#[test]
fn records_survive_the_round_trip() {
    let values = ["", ":", "::", "plain", "1:2", "multi\nline", "émoji 😀", "+1:x"];
    for expires_at in [0u64, 1, 1_700_000_000, u64::MAX] {
        for value in values {
            let raw = format_db_value(expires_at, value);
            assert_eq!(parse_db_value(&raw), Ok((expires_at, value.to_string())));
        }
    }
}

#[test]
fn record_is_split_at_the_first_separator_only() {
    assert_eq!(parse_db_value(b"7:8:9"), Ok((7, "8:9".to_string())));
    assert_eq!(parse_db_value(b"7:"), Ok((7, String::new())));
    assert_eq!(parse_db_value(b"+7:x"), Ok((7, "x".to_string())));
}

#[test]
fn bytes_that_are_not_text_are_no_record() {
    assert_eq!(parse_db_value(&[0xff, 0xfe]), Err(RecordError::NotText));
    assert_eq!(parse_db_value(&[b'1', b':', 0xc3]), Err(RecordError::NotText));
}

#[test]
fn text_without_separator_is_no_record() {
    assert_eq!(parse_db_value(b"1234"), Err(RecordError::MissingSeparator));
    assert_eq!(parse_db_value(b""), Err(RecordError::MissingSeparator));
}

#[test]
fn text_without_expiry_is_no_record() {
    assert_eq!(parse_db_value(b":value"), Err(RecordError::BadTimestamp));
    assert_eq!(parse_db_value(b"soon:value"), Err(RecordError::BadTimestamp));
    assert_eq!(parse_db_value(b"-1:value"), Err(RecordError::BadTimestamp));
    assert_eq!(parse_db_value(b"18446744073709551616:value"), Err(RecordError::BadTimestamp));
}
