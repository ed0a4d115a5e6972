use feedparser_rs_core::{
    parse, parse_json_feed, parse_json_feed_value, FeedVersion, ParserLimits, Timestamp,
};

const FEED: &str = r#"{
    "version": "https://jsonfeed.org/version/1.1",
    "title": "Example JSON Feed",
    "home_page_url": "https://example.org/",
    "feed_url": "https://example.org/feed.json",
    "description": "About",
    "icon": "https://example.org/icon.png",
    "favicon": "https://example.org/favicon.ico",
    "language": "en",
    "authors": [{"name": "A", "url": "https://a.example/"}, {"name": "B"}],
    "items": [
        {
            "id": "1",
            "url": "https://example.org/1",
            "title": "First Post",
            "summary": "S",
            "content_html": "<p>Hello</p>",
            "content_text": "Hello",
            "date_published": "2024-12-14T10:30:00Z",
            "date_modified": "2024-12-14T10:30:00+02:00",
            "authors": [{"name": "C"}],
            "tags": ["one", 2, "three"],
            "attachments": [
                {"url": "https://example.org/a.mp3", "mime_type": "audio/mpeg", "size_in_bytes": 12345},
                {"mime_type": "audio/mpeg"}
            ]
        },
        "not an item",
        {"id": "2", "date_published": "whenever"}
    ]
}"#;

#[test]
fn a_json_feed_is_read_member_by_member() {
    let feed = parse(FEED.as_bytes()).unwrap();
    assert_eq!(feed.version, FeedVersion::JsonFeed11);
    assert_eq!(feed.feed.title.as_deref(), Some("Example JSON Feed"));
    assert_eq!(feed.feed.link.as_deref(), Some("https://example.org/"));
    assert_eq!(feed.feed.id.as_deref(), Some("https://example.org/feed.json"));
    assert_eq!(feed.feed.links.len(), 2);
    assert_eq!(feed.feed.links[0].rel.as_deref(), Some("alternate"));
    assert_eq!(feed.feed.links[1].rel.as_deref(), Some("self"));
    assert_eq!(feed.feed.links[1].href, "https://example.org/feed.json");
    assert_eq!(feed.feed.subtitle.as_deref(), Some("About"));
    assert_eq!(feed.feed.icon.as_deref(), Some("https://example.org/icon.png"));
    assert_eq!(feed.feed.logo.as_deref(), Some("https://example.org/favicon.ico"));
    assert_eq!(feed.feed.language.as_deref(), Some("en"));
    assert_eq!(feed.feed.author.as_deref(), Some("A"));
    assert_eq!(feed.feed.authors.len(), 2);
    assert_eq!(feed.feed.authors[0].uri.as_deref(), Some("https://a.example/"));

    assert_eq!(feed.entries.len(), 2);
    let entry = &feed.entries[0];
    assert_eq!(entry.id.as_deref(), Some("1"));
    assert_eq!(entry.link.as_deref(), Some("https://example.org/1"));
    assert_eq!(entry.links.len(), 1);
    assert_eq!(entry.title.as_deref(), Some("First Post"));
    assert_eq!(entry.summary.as_deref(), Some("S"));
    assert_eq!(entry.content.len(), 2);
    assert_eq!(entry.content[0].value, "<p>Hello</p>");
    assert_eq!(entry.content[0].content_type.as_deref(), Some("text/html"));
    assert_eq!(entry.content[1].value, "Hello");
    assert_eq!(entry.content[1].content_type.as_deref(), Some("text/plain"));
    assert_eq!(entry.published, Some(Timestamp { seconds: 1734172200, nanos: 0 }));
    assert_eq!(entry.updated, Some(Timestamp { seconds: 1734165000, nanos: 0 }));
    assert_eq!(entry.author.as_deref(), Some("C"));
    assert_eq!(entry.tags.len(), 2);
    assert_eq!(entry.tags[0].term, "one");
    assert_eq!(entry.tags[1].term, "three");
    assert_eq!(entry.enclosures.len(), 1);
    assert_eq!(entry.enclosures[0].url, "https://example.org/a.mp3");
    assert_eq!(entry.enclosures[0].length, Some(12345));
    assert_eq!(entry.enclosures[0].enclosure_type.as_deref(), Some("audio/mpeg"));

    assert_eq!(feed.entries[1].id.as_deref(), Some("2"));
    assert!(feed.bozo);
    assert_eq!(
        feed.bozo_exception.as_deref(),
        Some("Invalid date_published format")
    );
}

#[test]
fn test_parse_json_feed_basic() {
    let json = br#"{
        "version": "https://jsonfeed.org/version/1.1",
        "title": "Example JSON Feed",
        "home_page_url": "https://example.org/",
        "items": [{"id": "1", "title": "First Post", "content_text": "Hello"}]
    }"#;
    let result = parse(json);

    assert!(result.is_ok(), "Failed to parse JSON Feed fixture");
    let feed = result.unwrap();

    assert_eq!(feed.version, FeedVersion::JsonFeed11);
    assert!(!feed.bozo);
    assert_eq!(feed.feed.title.as_deref(), Some("Example JSON Feed"));
    assert_eq!(feed.entries.len(), 1);
    assert_eq!(feed.entries[0].id.as_deref(), Some("1"));
    assert_eq!(feed.entries[0].title.as_deref(), Some("First Post"));
}

#[test]
fn test_parse_json_feed_10() {
    let json = br#"{
        "version": "https://jsonfeed.org/version/1",
        "title": "Example JSON Feed",
        "items": [{"id": "1", "content_text": "Hello"}]
    }"#;
    let result = parse(json);

    assert!(result.is_ok());
    let feed = result.unwrap();

    assert_eq!(feed.version, FeedVersion::JsonFeed10);
    assert!(!feed.bozo);
}

#[test]
fn test_parse_json_feed_minimal() {
    let json = br#"{"version": "https://jsonfeed.org/version/1.1", "title": "Minimal Feed", "items": []}"#;
    let result = parse(json);

    assert!(result.is_ok());
    let feed = result.unwrap();

    assert_eq!(feed.version, FeedVersion::JsonFeed11);
    assert!(!feed.bozo);
    assert_eq!(feed.feed.title.as_deref(), Some("Minimal Feed"));
    assert_eq!(feed.entries.len(), 0);
}

#[test]
fn json_feed_10_has_one_author() {
    let json = br#"{"version": "https:\/\/jsonfeed.org\/version\/1", "title": "Old",
        "author": {"name": "Solo"}, "items": [{"id": "a", "author": {"name": "Item Solo"}}]}"#;
    let feed = parse(json).unwrap();
    assert_eq!(feed.version, FeedVersion::JsonFeed10);
    assert!(!feed.bozo);
    assert_eq!(feed.feed.author.as_deref(), Some("Solo"));
    assert_eq!(feed.feed.authors.len(), 1);
    assert_eq!(feed.entries[0].author.as_deref(), Some("Item Solo"));
}

#[test]
fn a_value_is_read_as_it_was_parsed() {
    let value = serde_json::from_str::<serde_json::Value>(
        r#"{"version": "https://jsonfeed.org/version/1", "title": "T", "items": [{"id": "x", "title": "I"}]}"#,
    )
    .unwrap();
    let feed = parse_json_feed_value(&value, &ParserLimits::default());
    assert_eq!(feed.version, FeedVersion::JsonFeed10);
    assert!(!feed.bozo);
    assert_eq!(feed.feed.title.as_deref(), Some("T"));
    assert_eq!(feed.entries.len(), 1);
    assert_eq!(feed.entries[0].id.as_deref(), Some("x"));
    assert_eq!(feed.entries[0].title.as_deref(), Some("I"));

    let not_an_object = serde_json::from_str::<serde_json::Value>("[1, 2]").unwrap();
    let feed = parse_json_feed_value(&not_an_object, &ParserLimits::default());
    assert!(feed.bozo);
    assert_eq!(
        feed.bozo_exception.as_deref(),
        Some("JSON Feed document is not an object")
    );
    assert_eq!(feed.version, FeedVersion::Unknown);
}

#[test]
fn bytes_that_are_no_json_are_reported() {
    let feed = parse_json_feed(b"{\"title\": ", &ParserLimits::default());
    assert!(feed.bozo);
    let message = feed.bozo_exception.unwrap();
    assert!(message.starts_with("JSON parsing error: "), "{message}");
    assert!(message.len() > "JSON parsing error: ".len());
    assert!(feed.entries.is_empty());
    assert_eq!(feed.encoding, "utf-8");
}

#[test]
fn json_items_beyond_the_limit_are_dropped_and_reported() {
    let limits = ParserLimits {
        max_entries: 2,
        max_tags: 1,
        ..ParserLimits::default()
    };
    let value = serde_json::from_str::<serde_json::Value>(
        r#"{"items": [{"id": "1", "tags": ["a", "b"]}, {"id": "2"}, {"id": "3"}]}"#,
    )
    .unwrap();
    let feed = parse_json_feed_value(&value, &limits);
    assert_eq!(feed.entries.len(), 2);
    assert_eq!(feed.entries[0].tags.len(), 1);
    assert_eq!(feed.entries[1].id.as_deref(), Some("2"));
    assert!(feed.bozo);
    assert_eq!(feed.bozo_exception.as_deref(), Some("Entry limit exceeded: 2"));
}

#[test]
fn a_number_that_is_no_unsigned_integer_is_no_size() {
    let value = serde_json::from_str::<serde_json::Value>(
        r#"{"items": [{"attachments": [
            {"url": "u1", "size_in_bytes": -5},
            {"url": "u2", "size_in_bytes": 1.5},
            {"url": "u3", "size_in_bytes": "7"},
            {"url": "u4", "size_in_bytes": 18446744073709551615},
            {"url": ""}
        ]}]}"#,
    )
    .unwrap();
    let feed = parse_json_feed_value(&value, &ParserLimits::default());
    let enclosures = &feed.entries[0].enclosures;
    assert_eq!(enclosures.len(), 4);
    assert_eq!(enclosures[0].length, None);
    assert_eq!(enclosures[1].length, None);
    assert_eq!(enclosures[2].length, None);
    assert_eq!(enclosures[3].length, Some(u64::MAX));
}
