use feedparser_rs_core::{
    parse_rss20_events, ParserLimits, TextType, Timestamp, XmlAttr, XmlEvent,
};

fn start(name: &str) -> XmlEvent {
    XmlEvent::Start(name.as_bytes().to_vec(), Vec::new())
}

fn start_with(name: &str, attrs: &[(&str, &str)]) -> XmlEvent {
    XmlEvent::Start(
        name.as_bytes().to_vec(),
        attrs
            .iter()
            .map(|(k, v)| XmlAttr::new(k.as_bytes().to_vec(), v.as_bytes().to_vec()))
            .collect(),
    )
}

fn end(name: &str) -> XmlEvent {
    XmlEvent::End(name.as_bytes().to_vec())
}

fn text(value: &str) -> XmlEvent {
    XmlEvent::Text(value.as_bytes().to_vec())
}

fn field(name: &str, value: &str) -> Vec<XmlEvent> {
    vec![start(name), text(value), end(name)]
}

fn item(title: &str) -> Vec<XmlEvent> {
    let mut events = vec![start("item")];
    events.extend(field("title", title));
    events.push(end("item"));
    events
}

fn channel(children: Vec<Vec<XmlEvent>>) -> Vec<XmlEvent> {
    let mut events = vec![start("rss"), start("channel")];
    for child in children {
        events.extend(child);
    }
    events.push(end("channel"));
    events.push(end("rss"));
    events
}

#[test]
fn a_channel_is_read_field_by_field() {
    let events = channel(vec![
        field("title", "T"),
        field("link", "http://example.com/"),
        field("description", "D"),
        field("language", "en"),
        field("managingEditor", "ed@example.com"),
        field("webMaster", "web@example.com"),
        field("generator", "G"),
        field("ttl", "60"),
        field("category", "C"),
        field("pubDate", "Sat, 14 Dec 2024 10:30:00 +0000"),
    ]);
    let feed = parse_rss20_events(&events, &ParserLimits::default());
    assert!(!feed.bozo);
    assert_eq!(feed.bozo_exception, None);
    assert_eq!(feed.encoding, "utf-8");
    assert_eq!(feed.feed.title.as_deref(), Some("T"));
    assert_eq!(feed.feed.link.as_deref(), Some("http://example.com/"));
    assert_eq!(feed.feed.links.len(), 1);
    assert_eq!(feed.feed.links[0].href, "http://example.com/");
    assert_eq!(feed.feed.links[0].rel.as_deref(), Some("alternate"));
    assert_eq!(feed.feed.subtitle.as_deref(), Some("D"));
    assert_eq!(feed.feed.language.as_deref(), Some("en"));
    assert_eq!(feed.feed.author.as_deref(), Some("ed@example.com"));
    assert_eq!(feed.feed.publisher.as_deref(), Some("web@example.com"));
    assert_eq!(feed.feed.generator.as_deref(), Some("G"));
    assert_eq!(feed.feed.ttl, Some(60));
    assert_eq!(feed.feed.tags.len(), 1);
    assert_eq!(feed.feed.tags[0].term, "C");
    assert_eq!(
        feed.feed.updated,
        Some(Timestamp { seconds: 1734172200, nanos: 0 })
    );
    assert!(feed.entries.is_empty());
}

#[test]
fn an_item_is_read_field_by_field() {
    let mut events = vec![start("rss"), start("channel"), start("item")];
    events.extend(field("title", "T"));
    events.extend(field("link", "http://example.com/1"));
    events.extend(field("description", "<b>D</b>"));
    events.extend(field("guid", "g-1"));
    events.extend(field("author", "a@example.com"));
    events.extend(field("comments", "http://example.com/1#c"));
    events.extend(field("pubDate", "Fri, 13 Dec 2024 09:00:00 +0000"));
    events.extend(field("category", "One"));
    events.extend(field("category", "Two"));
    events.extend(vec![start("source"), start("title")]);
    events.push(text("Other feed"));
    events.extend(vec![end("title"), start("url"), text("http://o.example/"), end("url")]);
    events.push(end("source"));
    events.extend(vec![end("item"), end("channel"), end("rss")]);

    let feed = parse_rss20_events(&events, &ParserLimits::default());
    assert!(!feed.bozo);
    assert_eq!(feed.entries.len(), 1);
    let entry = &feed.entries[0];
    assert_eq!(entry.title.as_deref(), Some("T"));
    assert_eq!(entry.link.as_deref(), Some("http://example.com/1"));
    assert_eq!(entry.links.len(), 1);
    assert_eq!(entry.links[0].rel.as_deref(), Some("alternate"));
    assert_eq!(entry.summary.as_deref(), Some("<b>D</b>"));
    let detail = entry.summary_detail.as_ref().unwrap();
    assert_eq!(detail.value, "<b>D</b>");
    assert_eq!(detail.content_type, TextType::Html);
    assert_eq!(entry.id.as_deref(), Some("g-1"));
    assert_eq!(entry.author.as_deref(), Some("a@example.com"));
    assert_eq!(entry.comments.as_deref(), Some("http://example.com/1#c"));
    assert_eq!(
        entry.published,
        Some(Timestamp { seconds: 1734080400, nanos: 0 })
    );
    assert_eq!(entry.tags.len(), 2);
    assert_eq!(entry.tags[0].term, "One");
    assert_eq!(entry.tags[1].term, "Two");
    let source = entry.source.as_ref().unwrap();
    assert_eq!(source.title.as_deref(), Some("Other feed"));
    assert_eq!(source.link.as_deref(), Some("http://o.example/"));
    assert_eq!(source.id, None);
}

#[test]
fn entries_keep_document_order() {
    let events = channel((0..7).map(|i| item(&format!("Item {i}"))).collect());
    let feed = parse_rss20_events(&events, &ParserLimits::default());
    assert!(!feed.bozo);
    assert_eq!(feed.entries.len(), 7);
    for (i, entry) in feed.entries.iter().enumerate() {
        assert_eq!(entry.title, Some(format!("Item {i}")));
    }
}

#[test]
fn items_beyond_the_limit_are_dropped_and_reported() {
    for k in [0usize, 1, 3, 10] {
        let limits = ParserLimits {
            max_entries: k,
            ..ParserLimits::default()
        };
        let events = channel((0..k + 5).map(|i| item(&format!("Item {i}"))).collect());
        let feed = parse_rss20_events(&events, &limits);
        assert_eq!(feed.entries.len(), k);
        assert!(feed.bozo);
        assert_eq!(
            feed.bozo_exception,
            Some(format!("Entry limit exceeded: {k}"))
        );
        for (i, entry) in feed.entries.iter().enumerate() {
            assert_eq!(entry.title, Some(format!("Item {i}")));
        }
    }
}

#[test]
fn exactly_as_many_items_as_the_limit_are_all_kept() {
    let limits = ParserLimits {
        max_entries: 4,
        ..ParserLimits::default()
    };
    let events = channel((0..4).map(|i| item(&format!("Item {i}"))).collect());
    let feed = parse_rss20_events(&events, &limits);
    assert_eq!(feed.entries.len(), 4);
    assert!(!feed.bozo);
}

#[test]
fn a_self_closing_element_does_not_swallow_its_siblings() {
    // <atom:link/> in a channel, <enclosure/> in an item: each is a start
    // tag directly followed by its end tag.
    let mut events = vec![start("rss"), start("channel")];
    events.extend(vec![start_with("link", &[("rel", "self")]), end("link")]);
    events.push(start("item"));
    events.extend(vec![
        start_with("enclosure", &[("url", "http://e/a.mp3"), ("length", "7")]),
        end("enclosure"),
    ]);
    events.extend(field("title", "First"));
    events.push(end("item"));
    events.extend(item("Second"));
    events.extend(vec![end("channel"), end("rss")]);

    let feed = parse_rss20_events(&events, &ParserLimits::default());
    assert!(!feed.bozo);
    assert_eq!(feed.entries.len(), 2);
    assert_eq!(feed.entries[0].title.as_deref(), Some("First"));
    assert_eq!(feed.entries[0].enclosures.len(), 1);
    assert_eq!(feed.entries[0].enclosures[0].length, Some(7));
    assert_eq!(feed.entries[1].title.as_deref(), Some("Second"));
    // The empty <link> has no text, so no link is stored for it.
    assert_eq!(feed.feed.link.as_deref(), Some(""));
    assert!(feed.feed.links.is_empty());
}

#[test]
fn an_unknown_subtree_is_passed_over() {
    let mut events = vec![start("rss"), start("channel")];
    events.extend(vec![
        start("cloud"),
        start("inner"),
        text("x"),
        start("item"),
        end("item"),
        end("inner"),
        end("cloud"),
    ]);
    events.extend(field("title", "After"));
    events.extend(vec![end("channel"), end("rss")]);
    let feed = parse_rss20_events(&events, &ParserLimits::default());
    assert!(!feed.bozo);
    assert_eq!(feed.feed.title.as_deref(), Some("After"));
    assert!(feed.entries.is_empty());
}

#[test]
fn an_unknown_subtree_is_held_to_the_nesting_limit() {
    let limits = ParserLimits {
        max_nesting_depth: 4,
        ..ParserLimits::default()
    };
    let mut events = vec![start("rss"), start("channel")];
    events.extend(field("title", "Before"));
    // <a> sits at depth 3, <b> at 4, <c> at 5.
    events.extend(vec![
        start("a"),
        start("b"),
        start("c"),
        end("c"),
        end("b"),
        end("a"),
    ]);
    events.extend(field("language", "never read"));
    events.extend(vec![end("channel"), end("rss")]);
    let feed = parse_rss20_events(&events, &limits);
    assert!(feed.bozo);
    assert_eq!(
        feed.bozo_exception.as_deref(),
        Some("Invalid feed format: XML nesting depth 5 exceeds maximum 4")
    );
    assert_eq!(feed.feed.title.as_deref(), Some("Before"));
    assert_eq!(feed.feed.language, None);
}

#[test]
fn a_channel_deeper_than_the_limit_is_not_read() {
    let limits = ParserLimits {
        max_nesting_depth: 2,
        ..ParserLimits::default()
    };
    let events = channel(vec![field("title", "T")]);
    let feed = parse_rss20_events(&events, &limits);
    assert!(feed.bozo);
    assert_eq!(
        feed.bozo_exception.as_deref(),
        Some("Invalid feed format: XML nesting depth 3 exceeds maximum 2")
    );
    assert_eq!(feed.feed.title, None);
}

#[test]
fn an_item_that_cannot_be_read_is_dropped_and_its_sibling_is_kept() {
    let limits = ParserLimits {
        max_nesting_depth: 3,
        ..ParserLimits::default()
    };
    // Children of an item sit at depth 4: every item with a child fails.
    let mut events = vec![start("rss"), start("channel")];
    events.extend(item("too deep"));
    events.extend(vec![start("item"), end("item")]);
    events.extend(vec![end("channel"), end("rss")]);
    let feed = parse_rss20_events(&events, &limits);
    assert!(feed.bozo);
    assert_eq!(feed.entries.len(), 1);
    assert_eq!(feed.entries[0].title, None);
    assert_eq!(
        feed.bozo_exception.as_deref(),
        Some("Invalid feed format: XML nesting depth 4 exceeds maximum 3")
    );
}

#[test]
fn a_tokenizer_error_in_an_item_drops_only_that_item() {
    let mut events = vec![start("rss"), start("channel")];
    events.extend(vec![
        start("item"),
        start("title"),
        XmlEvent::Error("bad".to_string()),
        end("title"),
        end("item"),
    ]);
    events.extend(item("Good"));
    events.extend(vec![end("channel"), end("rss")]);
    let feed = parse_rss20_events(&events, &ParserLimits::default());
    assert!(feed.bozo);
    assert_eq!(feed.bozo_exception.as_deref(), Some("XML parsing error: bad"));
    assert_eq!(feed.entries.len(), 1);
    assert_eq!(feed.entries[0].title.as_deref(), Some("Good"));
}

#[test]
fn a_tokenizer_error_in_a_channel_ends_the_channel() {
    let mut events = vec![start("rss"), start("channel")];
    events.extend(field("title", "T"));
    events.push(XmlEvent::Error("broken".to_string()));
    events.extend(field("language", "en"));
    events.extend(vec![end("channel")]);
    events.extend(vec![start("channel")]);
    events.extend(field("generator", "second channel"));
    events.extend(vec![end("channel"), end("rss")]);
    let feed = parse_rss20_events(&events, &ParserLimits::default());
    assert!(feed.bozo);
    assert_eq!(
        feed.bozo_exception.as_deref(),
        Some("XML parsing error: broken")
    );
    assert_eq!(feed.feed.title.as_deref(), Some("T"));
    assert_eq!(feed.feed.language, None);
    // Reading goes on behind the channel that was cut short.
    assert_eq!(feed.feed.generator.as_deref(), Some("second channel"));
}

#[test]
fn a_tokenizer_error_at_the_top_level_ends_the_reading() {
    let mut events = vec![start("rss"), XmlEvent::Error("early".to_string())];
    events.push(start("channel"));
    events.extend(field("title", "T"));
    events.extend(vec![end("channel"), end("rss")]);
    let feed = parse_rss20_events(&events, &ParserLimits::default());
    assert!(feed.bozo);
    assert_eq!(feed.bozo_exception.as_deref(), Some("XML parsing error: early"));
    assert_eq!(feed.feed.title, None);
}

#[test]
fn text_is_joined_and_references_are_resolved() {
    let mut events = vec![start("rss"), start("channel"), start("title")];
    events.extend(vec![
        text("A"),
        XmlEvent::Reference(b"amp".to_vec()),
        XmlEvent::CData(b"<B>".to_vec()),
        XmlEvent::Reference(b"#60".to_vec()),
        XmlEvent::Reference(b"#x3E".to_vec()),
        XmlEvent::Reference(b"lt".to_vec()),
        XmlEvent::Reference(b"gt".to_vec()),
        XmlEvent::Reference(b"apos".to_vec()),
        XmlEvent::Reference(b"quot".to_vec()),
        XmlEvent::Other,
        XmlEvent::Reference(b"nbsp".to_vec()),
        XmlEvent::Reference(b"#0".to_vec()),
    ]);
    events.extend(vec![end("title"), end("channel"), end("rss")]);
    let feed = parse_rss20_events(&events, &ParserLimits::default());
    assert!(!feed.bozo);
    assert_eq!(feed.feed.title.as_deref(), Some("A&<B><><>'\"&nbsp;&#0;"));
}

#[test]
fn cdata_and_character_data_read_alike() {
    let as_text = channel(vec![vec![start("title"), text("HTML <b>x</b> here"), end("title")]]);
    let as_cdata = channel(vec![vec![
        start("title"),
        XmlEvent::CData(b"HTML <b>x</b> here".to_vec()),
        end("title"),
    ]]);
    let limits = ParserLimits::default();
    let a = parse_rss20_events(&as_text, &limits);
    let b = parse_rss20_events(&as_cdata, &limits);
    assert_eq!(a.feed.title.as_deref(), Some("HTML <b>x</b> here"));
    assert_eq!(a.feed.title, b.feed.title);
}

#[test]
fn a_text_node_longer_than_the_limit_is_left_out() {
    let limits = ParserLimits {
        max_text_length: 3,
        ..ParserLimits::default()
    };
    let events = channel(vec![vec![
        start("title"),
        text("abc"),
        text("defg"),
        XmlEvent::CData(b"hijk".to_vec()),
        text("l"),
        end("title"),
    ]]);
    let feed = parse_rss20_events(&events, &limits);
    assert!(!feed.bozo);
    assert_eq!(feed.feed.title.as_deref(), Some("abcl"));
}

#[test]
fn white_space_is_cut_off_the_ends_of_a_text_and_kept_inside() {
    let events = channel(vec![vec![
        start("title"),
        text("\n   Hello "),
        XmlEvent::Reference(b"lt".to_vec()),
        text("b"),
        XmlEvent::Reference(b"gt".to_vec()),
        text(" world \t\r\n"),
        end("title"),
    ]]);
    let feed = parse_rss20_events(&events, &ParserLimits::default());
    assert_eq!(feed.feed.title.as_deref(), Some("Hello <b> world"));

    let blank = channel(vec![vec![start("title"), text(" \n "), end("title")]]);
    let feed = parse_rss20_events(&blank, &ParserLimits::default());
    assert_eq!(feed.feed.title.as_deref(), Some(""));
}

#[test]
fn markup_inside_a_text_field_is_passed_over() {
    let events = channel(vec![vec![
        start("title"),
        text("a"),
        start("b"),
        text("c"),
        end("b"),
        text("d"),
        end("title"),
    ]]);
    let feed = parse_rss20_events(&events, &ParserLimits::default());
    assert_eq!(feed.feed.title.as_deref(), Some("acd"));
}

#[test]
fn a_date_that_cannot_be_read_is_reported_and_an_empty_one_is_not() {
    let limits = ParserLimits::default();
    let bad = parse_rss20_events(&channel(vec![field("pubDate", "not a date")]), &limits);
    assert!(bad.bozo);
    assert_eq!(bad.bozo_exception.as_deref(), Some("Invalid pubDate format"));
    assert_eq!(bad.feed.updated, None);

    let empty = parse_rss20_events(
        &channel(vec![vec![start("pubDate"), end("pubDate")]]),
        &limits,
    );
    assert!(!empty.bozo);
    assert_eq!(empty.bozo_exception, None);

    let absent = parse_rss20_events(&channel(vec![field("title", "T")]), &limits);
    assert!(!absent.bozo);

    let mut in_item = vec![start("item")];
    in_item.extend(field("pubDate", "yesterday"));
    in_item.push(end("item"));
    let item_bad = parse_rss20_events(&channel(vec![in_item]), &limits);
    assert!(item_bad.bozo);
    assert_eq!(
        item_bad.bozo_exception.as_deref(),
        Some("Invalid pubDate format")
    );
    assert_eq!(item_bad.entries.len(), 1);
    assert_eq!(item_bad.entries[0].published, None);
}

#[test]
fn full_lists_stop_growing_and_are_reported() {
    let limits = ParserLimits {
        max_tags: 2,
        max_links_per_feed: 1,
        max_links_per_entry: 1,
        max_enclosures: 1,
        ..ParserLimits::default()
    };
    let feed = parse_rss20_events(
        &channel(vec![
            field("category", "a"),
            field("category", "b"),
            field("category", "c"),
        ]),
        &limits,
    );
    assert_eq!(feed.feed.tags.len(), 2);
    assert_eq!(feed.bozo_exception.as_deref(), Some("Tag limit exceeded: 2"));

    let feed = parse_rss20_events(
        &channel(vec![field("link", "http://a/"), field("link", "http://b/")]),
        &limits,
    );
    assert_eq!(feed.feed.links.len(), 1);
    assert_eq!(feed.feed.links[0].href, "http://a/");
    assert_eq!(feed.feed.link.as_deref(), Some("http://b/"));
    assert_eq!(feed.bozo_exception.as_deref(), Some("Link limit exceeded: 1"));

    let mut it = vec![start("item")];
    it.extend(field("link", "http://a/"));
    it.extend(field("link", "http://b/"));
    it.push(end("item"));
    let feed = parse_rss20_events(&channel(vec![it]), &limits);
    assert_eq!(feed.entries[0].links.len(), 1);
    assert_eq!(feed.bozo_exception.as_deref(), Some("Link limit exceeded: 1"));

    let mut it = vec![start("item")];
    it.extend(vec![start_with("enclosure", &[("url", "http://a/1")]), end("enclosure")]);
    it.extend(vec![start_with("enclosure", &[("url", "http://a/2")]), end("enclosure")]);
    it.push(end("item"));
    let feed = parse_rss20_events(&channel(vec![it]), &limits);
    assert_eq!(feed.entries[0].enclosures.len(), 1);
    assert_eq!(feed.entries[0].enclosures[0].url, "http://a/1");
    assert_eq!(
        feed.bozo_exception.as_deref(),
        Some("Enclosure limit exceeded: 1")
    );

    let mut it = vec![start("item")];
    it.extend(field("category", "a"));
    it.extend(field("category", "b"));
    it.extend(field("category", "c"));
    it.push(end("item"));
    let feed = parse_rss20_events(&channel(vec![it]), &limits);
    assert_eq!(feed.entries[0].tags.len(), 2);
    assert_eq!(feed.bozo_exception.as_deref(), Some("Tag limit exceeded: 2"));
}

#[test]
fn an_image_is_read_and_one_without_a_url_is_reported() {
    let mut image = vec![start("image")];
    image.extend(field("url", "http://e/i.png"));
    image.extend(field("title", "I"));
    image.extend(field("link", "http://e/"));
    image.extend(field("width", "88"));
    image.extend(field("height", "tall"));
    image.extend(field("description", "D"));
    image.extend(field("extra", "x"));
    image.push(end("image"));
    let feed = parse_rss20_events(&channel(vec![image]), &ParserLimits::default());
    assert!(!feed.bozo);
    let image = feed.feed.image.as_ref().unwrap();
    assert_eq!(image.url, "http://e/i.png");
    assert_eq!(image.title.as_deref(), Some("I"));
    assert_eq!(image.link.as_deref(), Some("http://e/"));
    assert_eq!(image.width, Some(88));
    assert_eq!(image.height, None);
    assert_eq!(image.description.as_deref(), Some("D"));

    let mut image = vec![start("image")];
    image.extend(field("title", "I"));
    image.push(end("image"));
    let mut children = vec![image];
    children.push(field("title", "still read"));
    let feed = parse_rss20_events(&channel(children), &ParserLimits::default());
    assert!(feed.bozo);
    assert_eq!(
        feed.bozo_exception.as_deref(),
        Some("Invalid feed format: Image missing url")
    );
    assert!(feed.feed.image.is_none());
    assert_eq!(feed.feed.title.as_deref(), Some("still read"));
}

#[test]
fn ttl_must_be_a_number_of_32_bits() {
    let limits = ParserLimits::default();
    for (text, expected) in [
        ("0", Some(0u32)),
        ("+15", Some(15)),
        ("007", Some(7)),
        ("4294967295", Some(u32::MAX)),
        ("4294967296", None),
        ("", None),
        ("+", None),
        ("-1", None),
        ("1 ", Some(1)),
        ("1 2", None),
        ("1.5", None),
        ("12a", None),
    ] {
        let feed = parse_rss20_events(&channel(vec![field("ttl", text)]), &limits);
        assert_eq!(feed.feed.ttl, expected, "ttl {text:?}");
    }
}

#[test]
fn an_item_outside_a_channel_is_an_entry_too() {
    let mut events = vec![start("RDF"), start("channel")];
    events.extend(field("title", "T"));
    events.push(end("channel"));
    events.extend(item("One"));
    events.extend(item("Two"));
    events.push(end("RDF"));
    let feed = parse_rss20_events(&events, &ParserLimits::default());
    assert!(!feed.bozo);
    assert_eq!(feed.feed.title.as_deref(), Some("T"));
    assert_eq!(feed.entries.len(), 2);
    assert_eq!(feed.entries[0].title.as_deref(), Some("One"));
    assert_eq!(feed.entries[1].title.as_deref(), Some("Two"));
}

#[test]
fn an_unclosed_channel_is_read_to_the_end_of_the_input() {
    let mut events = vec![start("rss"), start("channel")];
    events.extend(field("title", "Test"));
    events.extend(item("Item 1"));
    let feed = parse_rss20_events(&events, &ParserLimits::default());
    assert!(!feed.bozo);
    assert_eq!(feed.feed.title.as_deref(), Some("Test"));
    assert_eq!(feed.entries.len(), 1);
}

#[test]
fn no_events_give_an_empty_feed() {
    let feed = parse_rss20_events(&Vec::new(), &ParserLimits::default());
    assert!(!feed.bozo);
    assert_eq!(feed.encoding, "utf-8");
    assert!(feed.entries.is_empty());
    assert_eq!(feed.feed.title, None);
}

#[test]
fn namespaces_are_recorded_once_per_prefix() {
    let limits = ParserLimits {
        max_namespaces: 2,
        ..ParserLimits::default()
    };
    let events = vec![
        start_with(
            "rss",
            &[
                ("version", "2.0"),
                ("xmlns:atom", "http://www.w3.org/2005/Atom"),
                ("xmlns", "http://default/"),
                ("xmlns:atom", "http://again/"),
            ],
        ),
        start_with("channel", &[("xmlns:dc", "http://purl.org/dc/elements/1.1/")]),
        end("channel"),
        end("rss"),
    ];
    let feed = parse_rss20_events(&events, &limits);
    assert_eq!(feed.namespaces.len(), 2);
    assert_eq!(feed.namespaces[0].prefix, "atom");
    assert_eq!(feed.namespaces[0].uri, "http://again/");
    assert_eq!(feed.namespaces[1].prefix, "");
    assert_eq!(feed.namespaces[1].uri, "http://default/");
    assert!(feed.bozo);
    assert_eq!(
        feed.bozo_exception.as_deref(),
        Some("Namespace limit exceeded: 2")
    );
}

#[test]
fn an_attribute_longer_than_the_limit_counts_as_absent() {
    let limits = ParserLimits {
        max_attribute_length: 10,
        ..ParserLimits::default()
    };
    let mut it = vec![start("item")];
    it.extend(vec![
        start_with(
            "enclosure",
            &[("url", "http://a/1"), ("type", "audio/mpeg-too-long")],
        ),
        end("enclosure"),
    ]);
    it.extend(vec![
        start_with("enclosure", &[("url", "http://a/longer-than-ten")]),
        end("enclosure"),
    ]);
    it.push(end("item"));
    let feed = parse_rss20_events(&channel(vec![it]), &limits);
    assert_eq!(feed.entries[0].enclosures.len(), 1);
    assert_eq!(feed.entries[0].enclosures[0].url, "http://a/1");
    assert_eq!(feed.entries[0].enclosures[0].enclosure_type, None);
}
