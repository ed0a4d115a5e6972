use chrono::{TimeZone, Utc};
use feedparser_rs_core::{
    convert_feed_error, datetime_to_struct_time, optional_datetime_to_struct_time, ExceptionKind,
    FeedError, Timestamp,
};

#[test]
fn test_convert_xml_error() {
    let err = FeedError::XmlError("malformed".to_string());
    let py_err = convert_feed_error(err);
    assert!(py_err.message.contains("XML parse error: malformed"));
    assert_eq!(py_err.kind, ExceptionKind::ValueError);
}

#[test]
fn test_convert_io_error() {
    let err = FeedError::IoError("file not found".to_string());
    let py_err = convert_feed_error(err);
    assert!(py_err.message.contains("I/O error: file not found"));
    assert_eq!(py_err.kind, ExceptionKind::RuntimeError);
}

#[test]
fn test_convert_invalid_format_error() {
    let err = FeedError::InvalidFormat("unknown format".to_string());
    let py_err = convert_feed_error(err);
    assert!(py_err
        .message
        .contains("Invalid feed format: unknown format"));
    assert_eq!(py_err.kind, ExceptionKind::ValueError);
}

#[test]
fn test_convert_encoding_error() {
    let err = FeedError::EncodingError("invalid encoding".to_string());
    let py_err = convert_feed_error(err);
    assert!(py_err.message.contains("Encoding error: invalid encoding"));
    assert_eq!(py_err.kind, ExceptionKind::ValueError);
}

#[test]
fn test_convert_json_error() {
    let err = FeedError::JsonError("invalid json".to_string());
    let py_err = convert_feed_error(err);
    assert!(py_err.message.contains("JSON parse error: invalid json"));
    assert_eq!(py_err.kind, ExceptionKind::ValueError);
}

#[test]
fn test_convert_unknown_error() {
    let err = FeedError::Unknown("unexpected".to_string());
    let py_err = convert_feed_error(err);
    assert!(py_err.message.contains("Unknown error: unexpected"));
    assert_eq!(py_err.kind, ExceptionKind::RuntimeError);
}

#[test]
fn an_http_error_is_a_runtime_error() {
    let foreign = convert_feed_error(FeedError::Http { message: "timeout".to_string() });
    assert_eq!(foreign.message, "HTTP error: timeout");
    assert_eq!(foreign.kind, ExceptionKind::RuntimeError);
}

fn stamp(y: i32, mo: u32, d: u32, h: u32, mi: u32, s: u32) -> Timestamp {
    let dt = Utc.with_ymd_and_hms(y, mo, d, h, mi, s).unwrap();
    Timestamp { seconds: dt.timestamp(), nanos: dt.timestamp_subsec_nanos() }
}

#[test]
fn test_datetime_to_struct_time() {
    // 2025-12-15 14:30:00 UTC (Monday)
    let dt = stamp(2025, 12, 15, 14, 30, 0);
    let st = datetime_to_struct_time(&dt).unwrap();

    assert_eq!(st.tm_year, 2025);
    assert_eq!(st.tm_mon, 12);
    assert_eq!(st.tm_mday, 15);
    assert_eq!(st.tm_hour, 14);
    assert_eq!(st.tm_min, 30);
    assert_eq!(st.tm_sec, 0);
    assert_eq!(st.tm_wday, 0); // Monday
    assert_eq!(st.tm_isdst, 0); // UTC
    assert_eq!(st.tm_yday, 349);
}

#[test]
fn test_optional_datetime_none() {
    let dt: Option<Timestamp> = None;
    let result = optional_datetime_to_struct_time(&dt);
    assert!(result.is_none());
}

#[test]
fn test_optional_datetime_some() {
    let dt = Some(stamp(2025, 1, 1, 0, 0, 0));
    let result = optional_datetime_to_struct_time(&dt);
    assert!(result.is_some());
    let st = result.unwrap();
    assert_eq!((st.tm_year, st.tm_mon, st.tm_mday, st.tm_yday), (2025, 1, 1, 1));
    assert_eq!(st.tm_wday, 2); // Wednesday
}

#[test]
fn the_calendar_does_not_reach_every_instant() {
    assert!(datetime_to_struct_time(&Timestamp { seconds: i64::MAX, nanos: 0 }).is_none());
    assert!(datetime_to_struct_time(&Timestamp { seconds: i64::MIN, nanos: 0 }).is_none());
    let sunday = datetime_to_struct_time(&Timestamp { seconds: -1, nanos: 0 }).unwrap();
    assert_eq!((sunday.tm_year, sunday.tm_mon, sunday.tm_mday), (1969, 12, 31));
    assert_eq!((sunday.tm_hour, sunday.tm_min, sunday.tm_sec), (23, 59, 59));
    assert_eq!(sunday.tm_wday, 2);
    assert_eq!(sunday.tm_yday, 365);
}
