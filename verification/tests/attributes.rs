use feedparser_rs_core::{Enclosure, Link, Tag, XmlAttr};

fn attrs(pairs: &[(&str, &str)]) -> Vec<XmlAttr> {
    pairs
        .iter()
        .map(|(k, v)| XmlAttr::new(k.as_bytes().to_vec(), v.as_bytes().to_vec()))
        .collect()
}

#[test]
fn a_link_is_built_from_its_attributes() {
    let link = Link::from_attributes(
        &attrs(&[
            ("href", "http://e/"),
            ("rel", "self"),
            ("type", "text/html"),
            ("title", "T"),
            ("hreflang", "en"),
            ("length", "42"),
            ("other", "x"),
        ]),
        100,
    )
    .unwrap();
    assert_eq!(link.href, "http://e/");
    assert_eq!(link.rel.as_deref(), Some("self"));
    assert_eq!(link.link_type.as_deref(), Some("text/html"));
    assert_eq!(link.title.as_deref(), Some("T"));
    assert_eq!(link.hreflang.as_deref(), Some("en"));
    assert_eq!(link.length, Some(42));

    let plain = Link::from_attributes(&attrs(&[("href", "x"), ("length", "many")]), 100).unwrap();
    assert_eq!(plain.rel.as_deref(), Some("alternate"));
    assert_eq!(plain.length, None);

    assert!(Link::from_attributes(&attrs(&[("rel", "self")]), 100).is_none());
    assert!(Link::from_attributes(&attrs(&[("href", "")]), 100).is_none());
    assert!(Link::from_attributes(&attrs(&[]), 100).is_none());
}

#[test]
fn of_several_attributes_of_one_name_the_last_counts() {
    let link = Link::from_attributes(&attrs(&[("href", "first"), ("href", "second")]), 100).unwrap();
    assert_eq!(link.href, "second");
    // One that is too long does not count at all.
    let link =
        Link::from_attributes(&attrs(&[("href", "short"), ("href", "much too long")]), 5).unwrap();
    assert_eq!(link.href, "short");
    assert!(Link::from_attributes(&attrs(&[("href", "much too long")]), 5).is_none());
    let exact = Link::from_attributes(&attrs(&[("href", "12345")]), 5).unwrap();
    assert_eq!(exact.href, "12345");
}

#[test]
fn a_tag_is_built_from_its_attributes() {
    let tag = Tag::from_attributes(
        &attrs(&[("term", "t"), ("scheme", "s"), ("label", "l")]),
        100,
    )
    .unwrap();
    assert_eq!(tag.term, "t");
    assert_eq!(tag.scheme.as_deref(), Some("s"));
    assert_eq!(tag.label.as_deref(), Some("l"));
    let tag = Tag::from_attributes(&attrs(&[("scheme", "s"), ("term", "t"), ("domain", "d")]), 100)
        .unwrap();
    assert_eq!(tag.scheme.as_deref(), Some("d"));
    assert!(Tag::from_attributes(&attrs(&[("label", "l")]), 100).is_none());
    assert!(Tag::from_attributes(&attrs(&[("term", "")]), 100).is_none());
}

#[test]
fn an_enclosure_is_built_from_its_attributes() {
    let enclosure = Enclosure::from_attributes(
        &attrs(&[("url", "http://e/a.mp3"), ("length", "12345"), ("type", "audio/mpeg")]),
        100,
    )
    .unwrap();
    assert_eq!(enclosure.url, "http://e/a.mp3");
    assert_eq!(enclosure.length, Some(12345));
    assert_eq!(enclosure.enclosure_type.as_deref(), Some("audio/mpeg"));
    let bare = Enclosure::from_attributes(&attrs(&[("url", "u"), ("length", "-1")]), 100).unwrap();
    assert_eq!(bare.length, None);
    assert_eq!(bare.enclosure_type, None);
    assert!(Enclosure::from_attributes(&attrs(&[("type", "audio/mpeg")]), 100).is_none());
    assert!(Enclosure::from_attributes(&attrs(&[("url", "")]), 100).is_none());
}

#[test]
fn attribute_values_that_are_no_utf8_are_decoded_with_replacements() {
    let raw = vec![XmlAttr::new(b"url".to_vec(), b"http://e/\xff".to_vec())];
    let enclosure = Enclosure::from_attributes(&raw, 100).unwrap();
    assert_eq!(enclosure.url, "http://e/\u{FFFD}");
}

#[test]
fn references_in_attribute_values_are_resolved() {
    let raw = attrs(&[
        ("url", "http://e/?a=1&amp;b=2&#38;c=3"),
        ("type", "a &lt; b &unknown; & c"),
    ]);
    let enclosure = Enclosure::from_attributes(&raw, 100).unwrap();
    assert_eq!(enclosure.url, "http://e/?a=1&b=2&c=3");
    assert_eq!(enclosure.enclosure_type.as_deref(), Some("a < b &unknown; & c"));
    let lone = Enclosure::from_attributes(&attrs(&[("url", "a&b")]), 100).unwrap();
    assert_eq!(lone.url, "a&b");
    let end = Enclosure::from_attributes(&attrs(&[("url", "&quot;q&quot;&")]), 100).unwrap();
    assert_eq!(end.url, "\"q\"&");
}
