use chrono::{DateTime, Datelike};
use feedparser_rs_core::{parse_rss20, FeedVersion};

#[test]
fn test_parse_basic_rss() {
    let xml = br#"<?xml version="1.0"?>
        <rss version="2.0">
            <channel>
                <title>Test Feed</title>
                <link>http://example.com</link>
                <description>Test description</description>
            </channel>
        </rss>"#;

    let feed = parse_rss20(xml).unwrap();
    assert_eq!(feed.version, FeedVersion::Rss20);
    assert!(!feed.bozo);
    assert_eq!(feed.feed.title.as_deref(), Some("Test Feed"));
    assert_eq!(feed.feed.link.as_deref(), Some("http://example.com"));
    assert_eq!(feed.feed.subtitle.as_deref(), Some("Test description"));
}

#[test]
fn test_parse_rss_with_items() {
    let xml = br#"<?xml version="1.0"?>
        <rss version="2.0">
            <channel>
                <title>Test</title>
                <item>
                    <title>Item 1</title>
                    <link>http://example.com/1</link>
                    <description>Description 1</description>
                    <guid>item-1</guid>
                </item>
                <item>
                    <title>Item 2</title>
                    <link>http://example.com/2</link>
                </item>
            </channel>
        </rss>"#;

    let feed = parse_rss20(xml).unwrap();
    assert_eq!(feed.entries.len(), 2);
    assert_eq!(feed.entries[0].title.as_deref(), Some("Item 1"));
    assert_eq!(feed.entries[0].id.as_deref(), Some("item-1"));
    assert_eq!(feed.entries[1].title.as_deref(), Some("Item 2"));
}

#[test]
fn test_parse_rss_with_dates() {
    let xml = br#"<?xml version="1.0"?>
        <rss version="2.0">
            <channel>
                <pubDate>Sat, 14 Dec 2024 10:30:00 +0000</pubDate>
                <item>
                    <pubDate>Fri, 13 Dec 2024 09:00:00 +0000</pubDate>
                </item>
            </channel>
        </rss>"#;

    let feed = parse_rss20(xml).unwrap();
    assert!(feed.feed.updated.is_some());
    assert!(feed.entries[0].published.is_some());

    let stamp = feed.feed.updated.unwrap();
    let dt = DateTime::from_timestamp(stamp.seconds, stamp.nanos).unwrap();
    assert_eq!(dt.year(), 2024);
    assert_eq!(dt.month(), 12);
    assert_eq!(dt.day(), 14);
}

#[test]
fn test_parse_rss_with_invalid_date() {
    let xml = br#"<?xml version="1.0"?>
        <rss version="2.0">
            <channel>
                <pubDate>not a date</pubDate>
            </channel>
        </rss>"#;

    let feed = parse_rss20(xml).unwrap();
    assert!(feed.bozo);
    assert!(feed.bozo_exception.is_some());
    assert!(feed.bozo_exception.unwrap().contains("Invalid pubDate"));
}

#[test]
fn test_parse_rss_with_categories() {
    let xml = br#"<?xml version="1.0"?>
        <rss version="2.0">
            <channel>
                <item>
                    <category>Tech</category>
                    <category>News</category>
                </item>
            </channel>
        </rss>"#;

    let feed = parse_rss20(xml).unwrap();
    assert_eq!(feed.entries[0].tags.len(), 2);
    assert_eq!(feed.entries[0].tags[0].term, "Tech");
    assert_eq!(feed.entries[0].tags[1].term, "News");
}

#[test]
fn test_parse_rss_with_enclosure() {
    let xml = br#"<?xml version="1.0"?>
        <rss version="2.0">
            <channel>
                <item>
                    <enclosure url="http://example.com/audio.mp3"
                               length="12345"
                               type="audio/mpeg"/>
                </item>
            </channel>
        </rss>"#;

    let feed = parse_rss20(xml).unwrap();
    assert_eq!(feed.entries[0].enclosures.len(), 1);
    assert_eq!(
        feed.entries[0].enclosures[0].url,
        "http://example.com/audio.mp3"
    );
    assert_eq!(feed.entries[0].enclosures[0].length, Some(12345));
    assert_eq!(
        feed.entries[0].enclosures[0].enclosure_type.as_deref(),
        Some("audio/mpeg")
    );
}

#[test]
fn test_parse_rss_malformed_continues() {
    let xml = br#"<?xml version="1.0"?>
        <rss version="2.0">
            <channel>
                <title>Test</title>
                <item>
                    <title>Item 1</title>
                </item>
                <!-- Missing close tag but continues -->
        </rss>"#;

    let feed = parse_rss20(xml).unwrap();
    // Should still extract some data
    assert_eq!(feed.feed.title.as_deref(), Some("Test"));
}

#[test]
fn test_parse_rss_with_cdata() {
    let xml = br#"<?xml version="1.0"?>
        <rss version="2.0">
            <channel>
                <item>
                    <description><![CDATA[HTML <b>content</b> here]]></description>
                </item>
            </channel>
        </rss>"#;

    let feed = parse_rss20(xml).unwrap();
    assert_eq!(
        feed.entries[0].summary.as_deref(),
        Some("HTML <b>content</b> here")
    );
}

#[test]
fn escaped_markup_keeps_its_white_space() {
    let xml = br#"<rss version="2.0"><channel><item>
        <description>
            Hello &lt;b&gt;big&lt;/b&gt; world &amp; more
        </description>
    </item></channel></rss>"#;
    let feed = parse_rss20(xml).unwrap();
    assert!(!feed.bozo);
    assert_eq!(
        feed.entries[0].summary.as_deref(),
        Some("Hello <b>big</b> world & more")
    );
}

#[test]
fn every_item_of_a_document_becomes_an_entry_in_order() {
    let mut xml = String::from("<rss version=\"2.0\"><channel><title>T</title>");
    for i in 0..25 {
        xml.push_str(&format!(
            "<item><title>Item {i}</title><guid>g{i}</guid><enclosure url=\"http://e/{i}\"/></item>\n"
        ));
    }
    xml.push_str("</channel></rss>");
    let feed = parse_rss20(xml.as_bytes()).unwrap();
    assert!(!feed.bozo);
    assert_eq!(feed.entries.len(), 25);
    for (i, entry) in feed.entries.iter().enumerate() {
        assert_eq!(entry.title, Some(format!("Item {i}")));
        assert_eq!(entry.id, Some(format!("g{i}")));
        assert_eq!(entry.enclosures[0].url, format!("http://e/{i}"));
    }
}
