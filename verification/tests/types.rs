use feedparser_rs_core::{Entry, FeedMeta, FeedVersion, Link, ParsedFeed, Person, TextType};

#[test]
fn lib_test_parsed_feed_new() {
    let feed = ParsedFeed::new();
    assert_eq!(feed.encoding, "utf-8");
    assert!(!feed.bozo);
    assert_eq!(feed.version, FeedVersion::Unknown);
}

#[test]
fn test_feed_version_display() {
    assert_eq!(FeedVersion::Rss20.to_string(), "rss20");
    assert_eq!(FeedVersion::Atom10.to_string(), "atom10");
}

#[test]
fn test_link_default() {
    let link = Link::default();
    assert!(link.href.is_empty());
    assert!(link.rel.is_none());
}

#[test]
fn test_person_default() {
    let person = Person::default();
    assert!(person.name.is_none());
    assert!(person.email.is_none());
    assert!(person.uri.is_none());
}

#[test]
fn test_text_type_equality() {
    assert_eq!(TextType::Text, TextType::Text);
    assert_ne!(TextType::Text, TextType::Html);
}

#[test]
fn test_entry_default() {
    let entry = Entry::default();
    assert!(entry.id.is_none());
    assert!(entry.title.is_none());
    assert!(entry.links.is_empty());
    assert!(entry.content.is_empty());
    assert!(entry.authors.is_empty());
}

#[test]
fn test_entry_clone() {
    let entry = Entry {
        title: Some("Test".to_string()),
        links: vec![Link::default()],
        ..Default::default()
    };
    let cloned = entry.clone();
    assert_eq!(cloned.title.as_deref(), Some("Test"));
    assert_eq!(cloned.links.len(), 1);
}

#[test]
fn test_feed_meta_default() {
    let meta = FeedMeta::default();
    assert!(meta.title.is_none());
    assert!(meta.links.is_empty());
    assert!(meta.authors.is_empty());
}

#[test]
fn test_parsed_feed_default() {
    let feed = ParsedFeed::default();
    assert!(!feed.bozo);
    assert!(feed.bozo_exception.is_none());
    assert_eq!(feed.version, FeedVersion::Unknown);
    assert!(feed.entries.is_empty());
}

#[test]
fn feed_test_parsed_feed_new() {
    let feed = ParsedFeed::new();
    assert_eq!(feed.encoding, "utf-8");
    assert!(!feed.bozo);
}

#[test]
fn test_parsed_feed_clone() {
    let feed = ParsedFeed {
        version: FeedVersion::Rss20,
        bozo: true,
        ..ParsedFeed::new()
    };

    assert_eq!(feed.version, FeedVersion::Rss20);
    assert!(feed.bozo);
}

#[test]
fn test_capacity_constructors() {
    let feed = ParsedFeed::with_capacity(100);
    assert_eq!(feed.encoding, "utf-8");
    assert_eq!(feed.entries.capacity(), 100);
    assert!(feed.namespaces.capacity() >= 8);

    let rss_meta = FeedMeta::with_rss_capacity();
    assert!(rss_meta.links.capacity() >= 2);
    assert!(rss_meta.authors.capacity() >= 1);
    assert!(rss_meta.tags.capacity() >= 3);

    let atom_meta = FeedMeta::with_atom_capacity();
    assert!(atom_meta.links.capacity() >= 4);
    assert!(atom_meta.authors.capacity() >= 2);
    assert!(atom_meta.tags.capacity() >= 5);

    let entry = Entry::with_capacity();
    assert!(entry.links.capacity() >= 2);
    assert!(entry.content.capacity() >= 1);
    assert!(entry.authors.capacity() >= 1);
    assert!(entry.tags.capacity() >= 3);
}

#[test]
fn every_version_has_its_name() {
    assert_eq!(FeedVersion::Rss20.as_str(), "rss20");
    assert_eq!(FeedVersion::Rss10.as_str(), "rss10");
    assert_eq!(FeedVersion::Rss09x.as_str(), "rss09x");
    assert_eq!(FeedVersion::Atom03.as_str(), "atom03");
    assert_eq!(FeedVersion::Atom10.as_str(), "atom10");
    assert_eq!(FeedVersion::JsonFeed10.as_str(), "json10");
    assert_eq!(FeedVersion::JsonFeed11.as_str(), "json11");
    assert_eq!(FeedVersion::Unknown.as_str(), "");
    assert_eq!(FeedVersion::default(), FeedVersion::Unknown);
}

#[test]
fn a_default_feed_has_no_encoding_and_a_new_one_has() {
    assert_eq!(ParsedFeed::default().encoding, "");
    assert_eq!(ParsedFeed::new().encoding, "utf-8");
    assert!(ParsedFeed::new().namespaces.is_empty());
}
