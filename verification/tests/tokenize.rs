use feedparser_rs_core::xml::root_element;
use feedparser_rs_core::{tokenize, XmlEvent};

fn names(events: &[XmlEvent]) -> Vec<String> {
    events
        .iter()
        .map(|e| match e {
            XmlEvent::Start(n, a) => format!("<{}:{}>", String::from_utf8_lossy(n), a.len()),
            XmlEvent::End(n) => format!("</{}>", String::from_utf8_lossy(n)),
            XmlEvent::Text(t) => format!("T[{}]", String::from_utf8_lossy(t)),
            XmlEvent::CData(t) => format!("C[{}]", String::from_utf8_lossy(t)),
            XmlEvent::Reference(t) => format!("&{};", String::from_utf8_lossy(t)),
            XmlEvent::Other => "other".to_string(),
            XmlEvent::Error(_) => "error".to_string(),
            XmlEvent::Eof => "eof".to_string(),
        })
        .collect()
}

#[test]
fn a_document_becomes_its_events() {
    let events = tokenize(
        br#"<?xml version="1.0"?>
        <a x="1" y='2'> one <!-- c --><ns:b/><![CDATA[<raw>]]>two &amp; three</a>"#,
    );
    assert_eq!(
        names(&events),
        vec![
            "other",
            "T[\n        ]",
            "<a:2>",
            "T[ one ]",
            "other",
            "<ns:b:0>",
            "</ns:b>",
            "C[<raw>]",
            "T[two ]",
            "&amp;",
            "T[ three]",
            "</a>",
        ]
    );
    match &events[2] {
        XmlEvent::Start(_, attrs) => {
            assert_eq!(attrs[0].key, b"x");
            assert_eq!(attrs[0].value, b"1");
            assert_eq!(attrs[1].key, b"y");
            assert_eq!(attrs[1].value, b"2");
        }
        other => panic!("unexpected {other:?}"),
    }
}

#[test]
fn empty_and_garbage_input_is_tokenized_without_harm() {
    assert!(tokenize(b"").is_empty());
    assert_eq!(names(&tokenize(b"   \n\t ")), vec!["T[   \n\t ]"]);
    assert_eq!(names(&tokenize(b"test")), vec!["T[test]"]);
    let garbage: Vec<u8> = (0u8..=255).collect();
    let events = tokenize(&garbage);
    assert!(events.iter().all(|e| !matches!(e, XmlEvent::Eof)));
    let truncated = tokenize(b"<rss><channel><title>Te");
    assert_eq!(
        names(&truncated),
        vec!["<rss:0>", "<channel:0>", "<title:0>", "T[Te]"]
    );
    let cut_in_tag = tokenize(b"<rss><chan");
    assert_eq!(names(&cut_in_tag), vec!["<rss:0>", "error"]);
}

#[test]
fn a_mismatched_end_tag_is_an_error_and_reading_goes_on() {
    let events = tokenize(b"<a><b></a><c/>");
    assert_eq!(names(&events), vec!["<a:0>", "<b:0>", "error", "<c:0>", "</c>"]);
    match &events[2] {
        XmlEvent::Error(message) => assert!(message.contains("ill-formed")),
        other => panic!("unexpected {other:?}"),
    }
}

#[test]
fn the_root_element_is_found_without_reading_on() {
    match root_element(b"<?xml version='1.0'?><!-- c --><rss version=\"2.0\"><broken") {
        Some(XmlEvent::Start(name, attrs)) => {
            assert_eq!(name, b"rss");
            assert_eq!(attrs.len(), 1);
            assert_eq!(attrs[0].key, b"version");
            assert_eq!(attrs[0].value, b"2.0");
        }
        other => panic!("unexpected {other:?}"),
    }
    assert!(root_element(b"").is_none());
    assert!(root_element(b"just text").is_none());
    assert!(root_element(b"</stray><rss/>").is_none());
}

#[test]
fn a_byte_order_mark_is_not_part_of_the_text() {
    let events = tokenize(b"\xEF\xBB\xBF<a>x</a>");
    assert_eq!(names(&events), vec!["<a:0>", "T[x]", "</a>"]);
}
