use feedparser_rs_core::{parse_date, Timestamp};

fn at(seconds: i64) -> Option<Timestamp> {
    Some(Timestamp { seconds, nanos: 0 })
}

#[test]
fn dates_are_read_in_every_known_notation() {
    // RFC 2822
    assert_eq!(parse_date("Sat, 14 Dec 2024 10:30:00 +0000"), at(1734172200));
    assert_eq!(parse_date("Sat, 14 Dec 2024 10:30:00 GMT"), at(1734172200));
    assert_eq!(parse_date("14 Dec 2024 12:30:00 +0200"), at(1734172200));
    // RFC 3339
    assert_eq!(parse_date("2024-12-14T10:30:00Z"), at(1734172200));
    assert_eq!(parse_date("2024-12-14T12:30:00+02:00"), at(1734172200));
    assert_eq!(
        parse_date("2024-12-14T10:30:00.25Z"),
        Some(Timestamp { seconds: 1734172200, nanos: 250_000_000 })
    );
    // No zone: taken as UTC
    assert_eq!(parse_date("2024-12-14T10:30:00"), at(1734172200));
    assert_eq!(parse_date("2024-12-14 10:30:00"), at(1734172200));
    // A date alone: midnight
    assert_eq!(parse_date("2024-12-14"), at(1734134400));
    assert_eq!(parse_date("1970-01-01"), at(0));
    assert_eq!(parse_date("1969-12-31"), at(-86400));
    assert_eq!(parse_date("1969-12-31T23:59:59Z"), at(-1));
}

#[test]
fn a_date_is_trimmed_before_it_is_read() {
    assert_eq!(parse_date("  \t2024-12-14T10:30:00Z\r\n"), at(1734172200));
    assert_eq!(parse_date("\n2024-12-14 "), at(1734134400));
}

#[test]
fn what_is_no_date_is_none() {
    for text in [
        "",
        "   ",
        "\t\n",
        "not a date",
        "2024-13-01",
        "2024-02-30",
        "14/12/2024",
        "2024-12-14T25:00:00Z",
        "yesterday",
        "1734172200",
    ] {
        assert_eq!(parse_date(text), None, "{text:?}");
    }
}

#[test]
fn a_timestamp_counts_its_milliseconds() {
    assert_eq!(Timestamp { seconds: 0, nanos: 0 }.to_millis(), Some(0));
    assert_eq!(
        Timestamp { seconds: 1734172200, nanos: 250_000_000 }.to_millis(),
        Some(1_734_172_200_250)
    );
    assert_eq!(Timestamp { seconds: -1, nanos: 999_999_999 }.to_millis(), Some(-1));
    assert_eq!(Timestamp { seconds: -2, nanos: 0 }.to_millis(), Some(-2000));
    assert_eq!(
        Timestamp { seconds: 9_223_372_036_854_775, nanos: 807_000_000 }.to_millis(),
        Some(i64::MAX)
    );
    assert_eq!(
        Timestamp { seconds: 9_223_372_036_854_775, nanos: 808_000_000 }.to_millis(),
        None
    );
    assert_eq!(Timestamp { seconds: 9_223_372_036_854_776, nanos: 0 }.to_millis(), None);
    assert_eq!(Timestamp { seconds: i64::MIN, nanos: 0 }.to_millis(), None);
    assert_eq!(
        Timestamp { seconds: -9_223_372_036_854_776, nanos: 0 }.to_millis(),
        None
    );
    assert_eq!(
        Timestamp { seconds: -9_223_372_036_854_775, nanos: 0 }.to_millis(),
        Some(-9_223_372_036_854_775_000)
    );
}
