use feedparser_rs_core::{detect_format, parse, parse_with_limits, FeedError, FeedVersion, ParserLimits};

#[test]
fn each_format_is_told_from_its_first_tokens() {
    let cases: [(&[u8], FeedVersion); 18] = [
        (br#"<?xml version="1.0"?><rss version="2.0"></rss>"#, FeedVersion::Rss20),
        (b"<rss>", FeedVersion::Rss20),
        (br#"<rss version="0.91"><channel/></rss>"#, FeedVersion::Rss09x),
        (br#"<rss version='0.92'>"#, FeedVersion::Rss09x),
        (br#"<rss version="2.0.1">"#, FeedVersion::Rss20),
        (
            br#"<rdf:RDF xmlns:rdf="http://www.w3.org/1999/02/22-rdf-syntax-ns#" xmlns="http://purl.org/rss/1.0/">"#,
            FeedVersion::Rss10,
        ),
        (br#"<feed xmlns="http://www.w3.org/2005/Atom">"#, FeedVersion::Atom10),
        (br#"<!-- c --><feed>"#, FeedVersion::Atom10),
        (br#"<feed version="0.3" xmlns="http://purl.org/atom/ns#">"#, FeedVersion::Atom03),
        (br#"<feed xmlns="http://purl.org/atom/ns#">"#, FeedVersion::Atom03),
        (br#"{"version": "https://jsonfeed.org/version/1.1"}"#, FeedVersion::JsonFeed11),
        (b"\xEF\xBB\xBF \n\t{\"version\":\"https://jsonfeed.org/version/1\"}", FeedVersion::JsonFeed10),
        (br#"{"title": "no version"}"#, FeedVersion::Unknown),
        (br#"<html><body/></html>"#, FeedVersion::Unknown),
        (b"", FeedVersion::Unknown),
        (b"\x00\x01\x02\xff\xfe", FeedVersion::Unknown),
        (b"<", FeedVersion::Unknown),
        (b"[1, 2, 3]", FeedVersion::Unknown),
    ];
    for (data, expected) in cases {
        assert_eq!(
            detect_format(data),
            expected,
            "{:?}",
            String::from_utf8_lossy(data)
        );
    }
}

#[test]
fn an_input_larger_than_the_limit_is_the_one_hard_error() {
    let limits = ParserLimits {
        max_feed_size_bytes: 10,
        ..ParserLimits::default()
    };
    match parse_with_limits(b"<rss><channel/></rss>", limits) {
        Err(FeedError::InvalidFormat(message)) => {
            assert_eq!(message, "Feed size (21 bytes) exceeds maximum (10 bytes)");
        }
        other => panic!("unexpected {other:?}"),
    }
    assert_eq!(
        parse_with_limits(b"<rss><channel/></rss>", limits)
            .unwrap_err()
            .to_string(),
        "Invalid feed format: Feed size (21 bytes) exceeds maximum (10 bytes)"
    );
    // Exactly at the limit the input is parsed.
    assert!(parse_with_limits(b"0123456789", limits).is_ok());
    assert!(parse_with_limits(b"", limits).is_ok());
}

#[test]
fn input_that_is_no_feed_yields_an_empty_flagged_feed() {
    for data in [
        &b""[..],
        b"test",
        b"<invalid><xml>",
        b"\x00\xff\xfe garbage \x80",
        b"<rs",
        b"{\"a\": 1}",
    ] {
        let feed = parse(data).unwrap();
        assert_eq!(feed.version, FeedVersion::Unknown);
        assert!(feed.bozo);
        assert_eq!(feed.bozo_exception.as_deref(), Some("Unknown feed format"));
        assert!(feed.entries.is_empty());
        assert_eq!(feed.encoding, "utf-8");
    }
}

#[test]
fn a_truncated_feed_keeps_what_was_read() {
    let feed = parse(b"<rss version=\"2.0\"><channel><title>Test</title><item><title>One</title></item><item><tit").unwrap();
    assert_eq!(feed.version, FeedVersion::Rss20);
    assert_eq!(feed.feed.title.as_deref(), Some("Test"));
    assert!(feed.bozo);
    assert!(feed
        .bozo_exception
        .as_deref()
        .unwrap()
        .starts_with("XML parsing error: "));
    assert_eq!(feed.entries.len(), 1);
    assert_eq!(feed.entries[0].title.as_deref(), Some("One"));
}

#[test]
fn a_feed_without_its_closing_tag_is_read() {
    let feed = parse(b"<rss version=\"2.0\"><channel><title>Test</title><item><title>One</title></item></channel>").unwrap();
    assert_eq!(feed.feed.title.as_deref(), Some("Test"));
    assert_eq!(feed.entries.len(), 1);
    assert!(!feed.bozo);
}

#[test]
fn rss_of_every_version_keeps_the_version_that_was_detected() {
    let old = parse(br#"<rss version="0.91"><channel><title>Old</title><item><title>I</title></item></channel></rss>"#).unwrap();
    assert_eq!(old.version, FeedVersion::Rss09x);
    assert_eq!(old.feed.title.as_deref(), Some("Old"));
    assert_eq!(old.entries.len(), 1);

    let rdf = parse(
        br#"<rdf:RDF xmlns:rdf="http://www.w3.org/1999/02/22-rdf-syntax-ns#" xmlns="http://purl.org/rss/1.0/">
            <channel rdf:about="http://example.org/"><title>RDF</title>
              <items><rdf:Seq><rdf:li rdf:resource="http://example.org/1"/></rdf:Seq></items>
            </channel>
            <item rdf:about="http://example.org/1"><title>One</title><link>http://example.org/1</link></item>
            <item rdf:about="http://example.org/2"><title>Two</title></item>
        </rdf:RDF>"#,
    )
    .unwrap();
    assert_eq!(rdf.version, FeedVersion::Rss10);
    assert!(!rdf.bozo);
    assert_eq!(rdf.feed.title.as_deref(), Some("RDF"));
    assert_eq!(rdf.entries.len(), 2);
    assert_eq!(rdf.entries[0].link.as_deref(), Some("http://example.org/1"));
    assert_eq!(rdf.entries[1].title.as_deref(), Some("Two"));
    assert_eq!(rdf.namespaces.len(), 2);
}
