use feedparser_rs_core::{parse, parse_with_limits, FeedVersion, ParserLimits, TextType, Timestamp};

const FEED: &str = r#"<?xml version="1.0" encoding="utf-8"?>
<feed xmlns="http://www.w3.org/2005/Atom" xml:base="http://example.org/base/" xml:lang="en">
  <title type="html">Example &lt;b&gt;Feed&lt;/b&gt;</title>
  <subtitle>A subtitle</subtitle>
  <rights>(c) 2024</rights>
  <link href="http://example.org/feed/" rel="self"/>
  <link href="site/"/>
  <id>urn:uuid:60a76c80-d399-11d9-b93C-0003939e0af6</id>
  <updated>2003-12-13T18:30:02Z</updated>
  <icon>/icon.png</icon>
  <logo>/logo.png</logo>
  <generator uri="http://gen.example/" version="1.2">Gen</generator>
  <author><name>John Doe</name><email>john@example.org</email><uri>http://john.example/</uri></author>
  <author><name>Second</name></author>
  <contributor><name>Jane</name></contributor>
  <category term="tech" scheme="http://s/" label="Tech"/>
  <category label="no term"/>
  <entry xml:base="entries/">
    <title>Atom-Powered Robots Run Amok</title>
    <link href="robots.html"/>
    <link href="http://example.org/audio.mp3" rel="enclosure" type="audio/mpeg" length="1337"/>
    <id>urn:uuid:1225c695-cfb8-4ebb-aaaa-80da344efa6a</id>
    <updated>2003-12-13T18:30:02Z</updated>
    <published>2003-12-13T08:29:29-04:00</published>
    <summary type="text">Some text.</summary>
    <content type="xhtml" xml:lang="de"><div xmlns="http://www.w3.org/1999/xhtml">Hallo <b>Welt</b></div></content>
    <author><name>Entry Author</name></author>
    <category term="robots"/>
    <source><title>Origin</title><id>urn:origin</id><link href="http://origin.example/"/></source>
  </entry>
  <entry>
    <title>Second</title>
    <updated>soon</updated>
  </entry>
</feed>"#;

#[test]
fn an_atom_feed_is_read_field_by_field() {
    let feed = parse(FEED.as_bytes()).unwrap();
    assert_eq!(feed.version, FeedVersion::Atom10);
    let meta = &feed.feed;
    assert_eq!(meta.title.as_deref(), Some("Example <b>Feed</b>"));
    let title = meta.title_detail.as_ref().unwrap();
    assert_eq!(title.content_type, TextType::Html);
    assert_eq!(title.base.as_deref(), Some("http://example.org/base/"));
    assert_eq!(meta.subtitle.as_deref(), Some("A subtitle"));
    assert_eq!(meta.subtitle_detail.as_ref().unwrap().content_type, TextType::Text);
    assert_eq!(meta.rights.as_deref(), Some("(c) 2024"));
    assert_eq!(meta.links.len(), 2);
    assert_eq!(meta.links[0].href, "http://example.org/feed/");
    assert_eq!(meta.links[0].rel.as_deref(), Some("self"));
    assert_eq!(meta.links[1].href, "http://example.org/base/site/");
    assert_eq!(meta.links[1].rel.as_deref(), Some("alternate"));
    assert_eq!(meta.link.as_deref(), Some("http://example.org/base/site/"));
    assert_eq!(
        meta.id.as_deref(),
        Some("urn:uuid:60a76c80-d399-11d9-b93C-0003939e0af6")
    );
    assert_eq!(meta.updated, Some(Timestamp { seconds: 1071340202, nanos: 0 }));
    assert_eq!(meta.icon.as_deref(), Some("/icon.png"));
    assert_eq!(meta.logo.as_deref(), Some("/logo.png"));
    assert_eq!(meta.generator.as_deref(), Some("Gen"));
    let generator = meta.generator_detail.as_ref().unwrap();
    assert_eq!(generator.uri.as_deref(), Some("http://gen.example/"));
    assert_eq!(generator.version.as_deref(), Some("1.2"));
    assert_eq!(meta.author.as_deref(), Some("John Doe"));
    let author = meta.author_detail.as_ref().unwrap();
    assert_eq!(author.email.as_deref(), Some("john@example.org"));
    assert_eq!(author.uri.as_deref(), Some("http://john.example/"));
    assert_eq!(meta.authors.len(), 2);
    assert_eq!(meta.authors[1].name.as_deref(), Some("Second"));
    assert_eq!(meta.contributors.len(), 1);
    assert_eq!(meta.contributors[0].name.as_deref(), Some("Jane"));
    assert_eq!(meta.tags.len(), 1);
    assert_eq!(meta.tags[0].term, "tech");
    assert_eq!(meta.tags[0].scheme.as_deref(), Some("http://s/"));
    assert_eq!(meta.tags[0].label.as_deref(), Some("Tech"));
    assert_eq!(feed.namespaces.len(), 1);
    assert_eq!(feed.namespaces[0].prefix, "");
    assert_eq!(feed.namespaces[0].uri, "http://www.w3.org/2005/Atom");
}

#[test]
fn an_atom_entry_is_read_field_by_field() {
    let feed = parse(FEED.as_bytes()).unwrap();
    assert_eq!(feed.entries.len(), 2);
    let entry = &feed.entries[0];
    assert_eq!(entry.title.as_deref(), Some("Atom-Powered Robots Run Amok"));
    assert_eq!(entry.links.len(), 2);
    assert_eq!(
        entry.links[0].href,
        "http://example.org/base/entries/robots.html"
    );
    assert_eq!(entry.link.as_deref(), Some("http://example.org/base/entries/robots.html"));
    assert_eq!(entry.links[1].rel.as_deref(), Some("enclosure"));
    assert_eq!(entry.links[1].link_type.as_deref(), Some("audio/mpeg"));
    assert_eq!(entry.links[1].length, Some(1337));
    assert_eq!(
        entry.id.as_deref(),
        Some("urn:uuid:1225c695-cfb8-4ebb-aaaa-80da344efa6a")
    );
    assert_eq!(entry.updated, Some(Timestamp { seconds: 1071340202, nanos: 0 }));
    assert_eq!(
        entry.published,
        Some(Timestamp { seconds: 1071340202 - 21633, nanos: 0 })
    );
    assert_eq!(entry.summary.as_deref(), Some("Some text."));
    assert_eq!(entry.content.len(), 1);
    assert_eq!(entry.content[0].value, "Hallo Welt");
    assert_eq!(entry.content[0].content_type.as_deref(), Some("xhtml"));
    assert_eq!(entry.content[0].language.as_deref(), Some("de"));
    assert_eq!(
        entry.content[0].base.as_deref(),
        Some("http://example.org/base/entries/")
    );
    assert_eq!(entry.author.as_deref(), Some("Entry Author"));
    assert_eq!(entry.authors.len(), 1);
    assert_eq!(entry.tags.len(), 1);
    assert_eq!(entry.tags[0].term, "robots");
    let source = entry.source.as_ref().unwrap();
    assert_eq!(source.title.as_deref(), Some("Origin"));
    assert_eq!(source.id.as_deref(), Some("urn:origin"));
    assert_eq!(source.link.as_deref(), Some("http://origin.example/"));
}

#[test]
fn an_atom_date_that_cannot_be_read_is_reported() {
    let feed = parse(FEED.as_bytes()).unwrap();
    assert!(feed.bozo);
    assert_eq!(feed.bozo_exception.as_deref(), Some("Invalid updated format"));
    assert_eq!(feed.entries[1].title.as_deref(), Some("Second"));
    assert_eq!(feed.entries[1].updated, None);
}

#[test]
fn atom_lists_keep_within_their_limits() {
    let limits = ParserLimits {
        max_entries: 1,
        max_authors: 1,
        max_links_per_feed: 1,
        ..ParserLimits::default()
    };
    let feed = parse_with_limits(FEED.as_bytes(), limits).unwrap();
    assert_eq!(feed.entries.len(), 1);
    assert_eq!(feed.feed.authors.len(), 1);
    assert_eq!(feed.feed.links.len(), 1);
    assert!(feed.bozo);
    assert_eq!(feed.bozo_exception.as_deref(), Some("Entry limit exceeded: 1"));
}

#[test]
fn atom_03_is_told_apart_and_read() {
    let xml = br#"<feed version="0.3" xmlns="http://purl.org/atom/ns#">
        <title>Old</title>
        <tagline>Tag</tagline>
        <copyright>C</copyright>
        <modified>2003-12-13T18:30:02Z</modified>
        <author><name>A</name><url>http://a.example/</url></author>
        <entry><title>E</title><issued>2003-12-13T18:30:02Z</issued><modified>2003-12-13T18:30:02Z</modified></entry>
    </feed>"#;
    let feed = parse(xml).unwrap();
    assert_eq!(feed.version, FeedVersion::Atom03);
    assert!(!feed.bozo);
    assert_eq!(feed.feed.title.as_deref(), Some("Old"));
    assert_eq!(feed.feed.subtitle.as_deref(), Some("Tag"));
    assert_eq!(feed.feed.rights.as_deref(), Some("C"));
    assert_eq!(feed.feed.updated, Some(Timestamp { seconds: 1071340202, nanos: 0 }));
    assert_eq!(
        feed.feed.author_detail.as_ref().unwrap().uri.as_deref(),
        Some("http://a.example/")
    );
    assert_eq!(feed.entries.len(), 1);
    assert_eq!(feed.entries[0].published, feed.entries[0].updated);
}

#[test]
fn an_entry_document_is_read_as_a_feed_of_one() {
    let xml = br#"<entry xmlns="http://www.w3.org/2005/Atom"><title>Alone</title><id>x</id></entry>"#;
    let feed = feedparser_rs_core::parse_atom_events(
        &feedparser_rs_core::tokenize(xml),
        &ParserLimits::default(),
    );
    assert_eq!(feed.version, FeedVersion::Atom10);
    assert_eq!(feed.entries.len(), 1);
    assert_eq!(feed.entries[0].title.as_deref(), Some("Alone"));
    assert_eq!(feed.entries[0].id.as_deref(), Some("x"));
}
