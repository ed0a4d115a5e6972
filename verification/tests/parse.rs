use feedparser_rs_core::{detect_format, parse, parse_date, FeedVersion, ParsedFeed};

#[test]
fn test_parse_basic() {
    let xml = r#"
            <?xml version="1.0"?>
            <rss version="2.0">
                <channel>
                    <title>Test</title>
                </channel>
            </rss>
        "#;

    let result = parse(xml.as_bytes());
    assert!(result.is_ok());
}

#[test]
fn test_detect_format_returns_unknown() {
    let result = detect_format(b"test");
    assert_eq!(result, FeedVersion::Unknown);
}

#[test]
fn test_parse_returns_ok() {
    let result = parse(b"test");
    assert!(result.is_ok());
}

#[test]
fn test_parse_date_stub() {
    let result = parse_date("2024-12-14T10:30:00Z");
    // An RFC 3339 date is one of the notations that are read.
    assert!(result.is_some());
}

#[test]
fn test_parse_empty_input() {
    let result = parse(b"");

    // Should not panic, might return error or empty feed
    match result {
        Ok(feed) => {
            let _ = feed;
        }
        Err(_) => {}
    }
}

#[test]
fn test_parse_invalid_xml() {
    let result = parse(b"<invalid><xml>");

    // Should handle gracefully (either error or bozo flag)
    match result {
        Ok(feed) => {
            let _ = feed;
        }
        Err(_) => {}
    }
}

const RSS_BASIC: &str = r#"<?xml version="1.0" encoding="UTF-8"?>
<rss version="2.0">
  <channel>
    <title>Example RSS Feed</title>
    <link>http://example.com/</link>
    <description>An example feed</description>
    <item>
      <title>First</title>
      <link>http://example.com/1</link>
      <guid>http://example.com/1</guid>
    </item>
    <item>
      <title>Second</title>
      <link>http://example.com/2</link>
      <guid>http://example.com/2</guid>
    </item>
  </channel>
</rss>"#;

const ATOM_BASIC: &str = r#"<?xml version="1.0" encoding="UTF-8"?>
<feed xmlns="http://www.w3.org/2005/Atom">
  <title>Example Atom Feed</title>
  <link href="http://example.org/"/>
  <id>urn:uuid:60a76c80-d399-11d9-b93C-0003939e0af6</id>
  <updated>2003-12-13T18:30:02Z</updated>
  <entry>
    <title>First</title>
    <link href="http://example.org/1"/>
    <id>urn:uuid:1225c695-cfb8-4ebb-aaaa-80da344efa6a</id>
    <updated>2003-12-13T18:30:02Z</updated>
  </entry>
</feed>"#;

fn assert_feed_valid(result: &ParsedFeed) {
    assert!(result.version == FeedVersion::Unknown || !result.bozo);
}

#[test]
fn test_parse_rss_basic_fixture() {
    let result = parse(RSS_BASIC.as_bytes());

    assert!(result.is_ok(), "Failed to parse RSS fixture");
    let feed = result.unwrap();

    assert_eq!(feed.version, FeedVersion::Rss20);
    assert!(!feed.bozo);
    assert_eq!(feed.feed.title.as_deref(), Some("Example RSS Feed"));
    assert_eq!(feed.entries.len(), 2);

    assert_feed_valid(&feed);
}

#[test]
fn test_parse_atom_basic_fixture() {
    let result = parse(ATOM_BASIC.as_bytes());

    assert!(result.is_ok(), "Failed to parse Atom fixture");
    let feed = result.unwrap();

    assert_eq!(feed.version, FeedVersion::Atom10);
    assert!(!feed.bozo);
    assert_eq!(feed.feed.title.as_deref(), Some("Example Atom Feed"));

    assert_feed_valid(&feed);
}

#[test]
fn test_detect_format_rss() {
    let version = detect_format(RSS_BASIC.as_bytes());
    assert_eq!(version, FeedVersion::Rss20);
}

#[test]
fn test_detect_format_atom() {
    let version = detect_format(ATOM_BASIC.as_bytes());
    assert_eq!(version, FeedVersion::Atom10);
}
