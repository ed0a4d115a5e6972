use feedparser_rs_core::error::prefixed;
use feedparser_rs_core::limits::{is_at_limit, limit_exceeded, try_push_limited};
use feedparser_rs_core::text::{
    bytes_eq, bytes_to_string, decimal_string, parse_number, parse_u32, parse_u64,
    starts_with_bytes,
};
use feedparser_rs_core::{charset_of, FeedError, LimitError, ParserLimits};

#[test]
fn numbers_are_written_in_decimal() {
    assert_eq!(decimal_string(0), "0");
    assert_eq!(decimal_string(7), "7");
    assert_eq!(decimal_string(10), "10");
    assert_eq!(decimal_string(12345), "12345");
    assert_eq!(decimal_string(100 * 1024 * 1024), "104857600");
    assert_eq!(decimal_string(usize::MAX), usize::MAX.to_string());
}

#[test]
fn numbers_are_read_as_the_standard_library_reads_them() {
    for text in [
        "", "+", "-", "0", "+0", "-0", "00", "7", "+7", "-7", " 7", "7 ", "1_000", "0x10", "1e3",
        "4294967295", "4294967296", "18446744073709551615", "18446744073709551616",
        "99999999999999999999999999", "١٢٣", "12a", "+-1", "++1",
    ] {
        assert_eq!(parse_u32(text.as_bytes()), text.parse::<u32>().ok(), "{text:?}");
        assert_eq!(parse_u64(text.as_bytes()), text.parse::<u64>().ok(), "{text:?}");
    }
    assert_eq!(parse_number(b"10", 10), Some(10));
    assert_eq!(parse_number(b"11", 10), None);
    assert_eq!(parse_number(b"0", 0), Some(0));
    assert_eq!(parse_number(b"1", 0), None);
}

#[test]
fn bytes_are_decoded_and_what_is_no_utf8_is_replaced() {
    assert_eq!(bytes_to_string(b""), "");
    assert_eq!(bytes_to_string("héllo ✓".as_bytes()), "héllo ✓");
    assert_eq!(bytes_to_string(b"a\xffb"), "a\u{FFFD}b");
    assert_eq!(bytes_to_string(b"\xe2\x9c"), "\u{FFFD}");
}

#[test]
fn bytes_are_compared() {
    assert!(bytes_eq(b"", b""));
    assert!(bytes_eq(b"abc", b"abc"));
    assert!(!bytes_eq(b"abc", b"abd"));
    assert!(!bytes_eq(b"abc", b"ab"));
    assert!(starts_with_bytes(b"http://x", b"http://"));
    assert!(starts_with_bytes(b"abc", b""));
    assert!(starts_with_bytes(b"abc", b"abc"));
    assert!(!starts_with_bytes(b"ab", b"abc"));
    assert!(!starts_with_bytes(b"xbc", b"abc"));
}

#[test]
fn the_default_limits_are_the_documented_ones() {
    let limits = ParserLimits::default();
    assert_eq!(limits.max_feed_size_bytes, 100 * 1024 * 1024);
    assert_eq!(limits.max_entries, 10_000);
    assert_eq!(limits.max_links_per_feed, 100);
    assert_eq!(limits.max_links_per_entry, 50);
    assert_eq!(limits.max_authors, 20);
    assert_eq!(limits.max_contributors, 20);
    assert_eq!(limits.max_tags, 100);
    assert_eq!(limits.max_content_blocks, 10);
    assert_eq!(limits.max_enclosures, 20);
    assert_eq!(limits.max_namespaces, 100);
    assert_eq!(limits.max_nesting_depth, 100);
    assert_eq!(limits.max_text_length, 10 * 1024 * 1024);
    assert_eq!(limits.max_attribute_length, 64 * 1024);
}

#[test]
fn limits_are_checked_and_reported() {
    let limits = ParserLimits {
        max_feed_size_bytes: 5,
        max_nesting_depth: 3,
        ..ParserLimits::default()
    };
    assert_eq!(limits.check_feed_size(0), Ok(()));
    assert_eq!(limits.check_feed_size(5), Ok(()));
    assert_eq!(
        limits.check_feed_size(6),
        Err(LimitError::FeedTooLarge { size: 6, max: 5 })
    );
    assert_eq!(limits.check_nesting_depth(3), Ok(()));
    assert_eq!(
        limits.check_nesting_depth(4),
        Err(LimitError::NestingTooDeep { depth: 4, max: 3 })
    );
    assert_eq!(
        LimitError::FeedTooLarge { size: 6, max: 5 }.to_string(),
        "Feed size (6 bytes) exceeds maximum (5 bytes)"
    );
    assert_eq!(
        LimitError::NestingTooDeep { depth: 4, max: 3 }.to_string(),
        "XML nesting depth 4 exceeds maximum 3"
    );
    assert_eq!(limit_exceeded("Entry", 10), "Entry limit exceeded: 10");
}

#[test]
fn a_full_list_takes_no_more() {
    let mut items = vec![1, 2];
    assert!(!is_at_limit(&items, 3));
    assert!(try_push_limited(&mut items, 3, 3));
    assert!(is_at_limit(&items, 3));
    assert!(!try_push_limited(&mut items, 4, 3));
    assert_eq!(items, vec![1, 2, 3]);
    let mut none: Vec<u8> = Vec::new();
    assert!(is_at_limit(&none, 0));
    assert!(!try_push_limited(&mut none, 1, 0));
    assert!(none.is_empty());
}

#[test]
fn every_error_prints_with_its_kind() {
    assert_eq!(FeedError::XmlError("m".into()).to_string(), "XML parsing error: m");
    assert_eq!(FeedError::IoError("m".into()).to_string(), "IO error: m");
    assert_eq!(FeedError::InvalidFormat("m".into()).to_string(), "Invalid feed format: m");
    assert_eq!(FeedError::EncodingError("m".into()).to_string(), "Encoding error: m");
    assert_eq!(FeedError::JsonError("m".into()).to_string(), "JSON parsing error: m");
    assert_eq!(FeedError::Http { message: "m".into() }.to_string(), "HTTP error: m");
    assert_eq!(FeedError::Unknown("m".into()).to_string(), "Unknown error: m");
    assert_eq!(prefixed("a", "b"), "ab");
}

#[test]
fn the_charset_of_a_content_type_is_found() {
    assert_eq!(charset_of("text/xml; charset=utf-8"), Some("utf-8".to_string()));
    assert_eq!(
        charset_of("application/rss+xml;charset=\"ISO-8859-1\""),
        Some("ISO-8859-1".to_string())
    );
    assert_eq!(
        charset_of("text/xml ;  CharSet=koi8-r  ; q=1"),
        Some("koi8-r".to_string())
    );
    assert_eq!(
        charset_of("text/xml; boundary=x; charset=a; charset=b"),
        Some("a".to_string())
    );
    assert_eq!(charset_of("charset=x"), Some("x".to_string()));
    assert_eq!(charset_of("text/xml"), None);
    assert_eq!(charset_of(""), None);
    assert_eq!(charset_of("text/xml; charset="), None);
    assert_eq!(charset_of("text/xml; charset=\"\""), None);
    assert_eq!(charset_of("text/xml; xcharset=utf-8"), None);
    assert_eq!(charset_of("text/xml; charset =utf-8"), None);
}

#[test]
fn limits_are_built_from_the_ceilings_on_size_and_lists() {
    let limits = ParserLimits::new(1, 2, 3, 4, 5, 6, 7, 8, 9);
    assert_eq!(limits.max_feed_size_bytes, 1);
    assert_eq!(limits.max_entries, 2);
    assert_eq!(limits.max_links_per_feed, 3);
    assert_eq!(limits.max_links_per_entry, 4);
    assert_eq!(limits.max_authors, 5);
    assert_eq!(limits.max_contributors, 6);
    assert_eq!(limits.max_tags, 7);
    assert_eq!(limits.max_content_blocks, 8);
    assert_eq!(limits.max_enclosures, 9);
    assert_eq!(limits.max_namespaces, 100);
    assert_eq!(limits.max_nesting_depth, 100);
    assert_eq!(limits.max_text_length, 10 * 1024 * 1024);
    assert_eq!(limits.max_attribute_length, 64 * 1024);
}
