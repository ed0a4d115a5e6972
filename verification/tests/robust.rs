use feedparser_rs_core::{detect_format, parse_with_limits, ParsedFeed, ParserLimits};

const RSS: &str = r#"<?xml version="1.0"?>
<rss version="2.0" xmlns:atom="http://www.w3.org/2005/Atom" xmlns:itunes="http://www.itunes.com/dtds/podcast-1.0.dtd">
<channel><title>T &amp; T</title><link>http://e/</link><atom:link href="http://e/f" rel="self"/>
<image><url>http://e/i.png</url><title>I</title><width>10</width></image>
<itunes:owner><itunes:name>O</itunes:name></itunes:owner><itunes:category text="A"><itunes:category text="B"/></itunes:category>
<item><title><![CDATA[One <b>1</b>]]></title><link>http://e/1</link><pubDate>Sat, 14 Dec 2024 10:30:00 +0000</pubDate>
<enclosure url="http://e/1.mp3" length="5" type="audio/mpeg"/><category>c</category>
<source url="http://s/">S</source><unknown><deep><deeper>x</deeper></deep></unknown></item>
<item><title>Two</title><description>&lt;p&gt;two&#33;&lt;/p&gt;</description><guid>2</guid></item>
</channel></rss>"#;

const ATOM: &str = r#"<feed xmlns="http://www.w3.org/2005/Atom" xml:base="http://e/"><title type="html">A</title>
<link href="a"/><author><name>N</name><email>n@e</email></author><updated>2003-12-13T18:30:02Z</updated>
<entry><title>E</title><link href="e1" rel="alternate"/><id>1</id><content type="xhtml"><div>x <i>y</i></div></content>
<category term="t"/><source><title>S</title></source></entry></feed>"#;

const JSON: &str = r#"{"version":"https://jsonfeed.org/version/1.1","title":"J","authors":[{"name":"A"}],
"items":[{"id":"1","url":"http://e/1","tags":["a","b"],"attachments":[{"url":"u","size_in_bytes":3}],"date_published":"2024-12-14T10:30:00Z"},{"id":"2"}]}"#;

fn small_limits() -> ParserLimits {
    ParserLimits {
        max_entries: 1,
        max_links_per_feed: 1,
        max_links_per_entry: 1,
        max_authors: 1,
        max_contributors: 1,
        max_tags: 1,
        max_content_blocks: 1,
        max_enclosures: 1,
        max_namespaces: 1,
        max_nesting_depth: 4,
        max_text_length: 8,
        max_attribute_length: 8,
        ..ParserLimits::default()
    }
}

fn assert_well_formed(feed: &ParsedFeed, limits: &ParserLimits) {
    assert_eq!(feed.bozo, feed.bozo_exception.is_some());
    assert!(!feed.encoding.is_empty());
    assert!(feed.entries.len() <= limits.max_entries);
    assert!(feed.feed.links.len() <= limits.max_links_per_feed);
    assert!(feed.feed.tags.len() <= limits.max_tags);
    assert!(feed.feed.authors.len() <= limits.max_authors);
    assert!(feed.feed.contributors.len() <= limits.max_contributors);
    assert!(feed.namespaces.len() <= limits.max_namespaces);
    assert!(feed.feed.links.iter().all(|l| !l.href.is_empty()));
    assert!(feed.feed.tags.iter().all(|t| !t.term.is_empty()));
    assert!(feed.feed.image.iter().all(|i| !i.url.is_empty()));
    for (i, a) in feed.namespaces.iter().enumerate() {
        assert!(feed.namespaces[..i].iter().all(|b| b.prefix != a.prefix));
    }
    for entry in &feed.entries {
        assert!(entry.links.len() <= limits.max_links_per_entry);
        assert!(entry.tags.len() <= limits.max_tags);
        assert!(entry.enclosures.len() <= limits.max_enclosures);
        assert!(entry.authors.len() <= limits.max_authors);
        assert!(entry.contributors.len() <= limits.max_contributors);
        assert!(entry.content.len() <= limits.max_content_blocks);
        assert!(entry.links.iter().all(|l| !l.href.is_empty()));
        assert!(entry.tags.iter().all(|t| !t.term.is_empty()));
        assert!(entry.enclosures.iter().all(|e| !e.url.is_empty()));
    }
}

fn check(data: &[u8]) {
    let _ = detect_format(data);
    for limits in [ParserLimits::default(), small_limits()] {
        let feed = parse_with_limits(data, limits).unwrap();
        assert_well_formed(&feed, &limits);
    }
}

#[test]
fn every_prefix_of_a_document_yields_a_well_formed_feed() {
    for document in [RSS, ATOM, JSON] {
        let bytes = document.as_bytes();
        for end in 0..=bytes.len() {
            check(&bytes[..end]);
        }
    }
}

#[test]
fn every_document_with_one_byte_changed_yields_a_well_formed_feed() {
    for document in [RSS, ATOM, JSON] {
        let bytes = document.as_bytes();
        for at in 0..bytes.len() {
            for replacement in [b'<', b'>', b'&', b'"', b'/', 0u8, 0xFF] {
                let mut changed = bytes.to_vec();
                changed[at] = replacement;
                check(&changed);
            }
        }
    }
}

#[test]
fn random_bytes_yield_a_well_formed_feed() {
    let mut state: u64 = 0x2545_F491_4F6C_DD1D;
    let alphabet = b"<>/&;#=\"' \n!?[]-:abcrsfeditmchnlxRDF{}0123456789";
    for round in 0..3000 {
        let length = round % 97;
        let mut data = Vec::with_capacity(length);
        for _ in 0..length {
            state ^= state << 13;
            state ^= state >> 7;
            state ^= state << 17;
            let pick = (state >> 33) as usize;
            if pick % 5 == 0 {
                data.push((state >> 24) as u8);
            } else {
                data.push(alphabet[pick % alphabet.len()]);
            }
        }
        check(&data);
    }
}

#[test]
fn deep_nesting_is_held_to_the_limit_without_harm() {
    let mut xml = String::from("<rss><channel><item>");
    for _ in 0..5000 {
        xml.push_str("<a>");
    }
    xml.push_str("x");
    for _ in 0..5000 {
        xml.push_str("</a>");
    }
    xml.push_str("</item><item><title>after</title></item></channel></rss>");
    let limits = ParserLimits::default();
    let feed = parse_with_limits(xml.as_bytes(), limits).unwrap();
    assert_well_formed(&feed, &limits);
    assert!(feed.bozo);
    assert_eq!(
        feed.bozo_exception.as_deref(),
        Some("Invalid feed format: XML nesting depth 101 exceeds maximum 100")
    );
    // The item that went too deep is dropped; its sibling is read.
    assert_eq!(feed.entries.len(), 1);
    assert_eq!(feed.entries[0].title.as_deref(), Some("after"));

    let json = format!("{}1{}", "[".repeat(5000), "]".repeat(5000));
    let feed = parse_with_limits(json.as_bytes(), limits).unwrap();
    assert_well_formed(&feed, &limits);
}
