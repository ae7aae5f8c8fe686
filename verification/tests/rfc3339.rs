use mercutio::rfc3339::{timestamp_error, timestamp_schema, with_chrono, with_jiff};

const VALID: [&str; 4] = [
    "2024-03-11T10:00:00Z",
    "2024-03-11T12:00:00+02:00",
    "2024-12-31T23:59:59-05:00",
    "2000-01-01T00:00:00+00:00",
];

#[test]
fn deserialize_valid_timestamps() {
    let _utc = with_jiff::Rfc3339::parse("2024-03-11T10:00:00Z").expect("valid UTC");
    let _offset = with_jiff::Rfc3339::parse("2024-03-11T12:00:00+02:00").expect("valid offset");
    let _utc = with_chrono::Rfc3339::parse("2024-03-11T10:00:00Z").expect("valid UTC");
    let _offset = with_chrono::Rfc3339::parse("2024-03-11T12:00:00+02:00").expect("valid offset");
}

#[test]
fn display_outputs_valid_rfc3339() {
    for input in VALID {
        let ts = with_jiff::Rfc3339::parse(input).expect("valid input");
        let displayed = ts.to_string();
        assert!(
            with_jiff::Rfc3339::parse(&displayed).is_ok(),
            "Display output '{displayed}' is not valid RFC 3339"
        );
        let ts = with_chrono::Rfc3339::parse(input).expect("valid input");
        let displayed = ts.to_string();
        assert!(
            with_chrono::Rfc3339::parse(&displayed).is_ok(),
            "Display output '{displayed}' is not valid RFC 3339"
        );
    }
}

#[test]
fn error_message_format() {
    let msg = with_chrono::Rfc3339::parse("2025-05-25 14:30:00")
        .err()
        .expect("not RFC 3339");
    assert!(msg.contains("invalid RFC 3339 timestamp '2025-05-25 14:30:00'"));
    assert!(msg.contains("Example: current time is"));
    let msg = with_jiff::Rfc3339::parse("2025-05-25 14:30:00")
        .err()
        .expect("not RFC 3339");
    assert!(msg.contains("invalid RFC 3339 timestamp '2025-05-25 14:30:00'"));
    assert!(msg.contains("Example: current time is"));
}

#[test]
fn rfc3339_roundtrip() {
    let ts = with_jiff::Rfc3339::parse("2024-03-11T10:00:00Z").expect("valid");
    let reparsed = with_jiff::Rfc3339::parse(&ts.to_string()).expect("valid");
    assert_eq!(reparsed.0, ts.0);
    let ts = with_chrono::Rfc3339::parse("2024-03-11T12:00:00+02:00").expect("valid");
    let reparsed = with_chrono::Rfc3339::parse(&ts.to_string()).expect("valid");
    assert_eq!(reparsed.timestamp(), ts.timestamp());
    assert_eq!(reparsed.to_string(), ts.to_string());
}

#[test]
fn json_schema() {
    let schema = timestamp_schema();
    assert_eq!(
        schema.to_pretty_text(),
        "{\n  \"format\": \"date-time\",\n  \"type\": \"string\"\n}"
    );
}

#[test]
fn timestamps_have_exact_texts() {
    let ts = with_jiff::Rfc3339::parse("2024-03-11T12:00:00+02:00").expect("valid");
    assert_eq!(ts.to_string(), "2024-03-11T10:00:00Z");
    let ts = with_chrono::Rfc3339::parse("2024-03-11T12:00:00+02:00").expect("valid");
    assert_eq!(ts.to_string(), "2024-03-11T12:00:00+02:00");
    assert_eq!(ts.timestamp(), 1_710_151_200);
    assert_eq!(
        timestamp_error("x", "too short", "2024-03-11T10:00:00Z"),
        "invalid RFC 3339 timestamp 'x': too short\nExample: current time is 2024-03-11T10:00:00Z"
    );
}

#[test]
fn equal_instants_are_equal() {
    let east = with_chrono::Rfc3339::parse("2024-03-11T12:00:00.25+02:00").expect("valid");
    let utc = with_chrono::Rfc3339::parse("2024-03-11T10:00:00.250Z").expect("valid");
    let later = with_chrono::Rfc3339::parse("2024-03-11T10:00:00.251Z").expect("valid");
    assert_eq!(east, utc);
    assert_ne!(utc, later);
    assert_eq!(east.offset(), 7200);
    assert_eq!(utc.offset(), 0);
    assert_eq!(east.timestamp_subsec_nanos(), 250_000_000);
}

#[test]
fn chrono_timestamps_are_read_back() {
    for text in [
        "0000-01-01T00:00:00Z",
        "0000-01-01T00:00:00+23:59",
        "9999-12-31T23:59:59.999999999-23:59",
        "9999-12-31T23:59:60Z",
        "2016-12-31T23:59:60.5+05:30",
        "1969-12-31T23:59:59.000001Z",
        "2024-03-11t10:00:00.1234567891z",
        "2024-03-11 10:00:00-00:00",
    ] {
        let first = with_chrono::Rfc3339::parse(text).expect("valid");
        let second = with_chrono::Rfc3339::parse(&first.to_string()).expect("valid");
        assert_eq!(first, second);
        assert_eq!(first.offset(), second.offset());
        assert_eq!(first.to_string(), second.to_string());
    }
}
