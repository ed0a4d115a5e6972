//! XML as a list of events.
//!
//! The tokenizer is `quick_xml`; this module turns what it reads into plain
//! values that the parsers can be verified against.

use vstd::prelude::*;
use quick_xml::events::Event;
use quick_xml::Reader;
use crate::xml::XmlEvent::{Start, End, Text, CData, Reference, Other, Error, Eof};

verus! {

/// One attribute of a start tag, as raw bytes.
#[derive(Debug, Clone)]
pub struct XmlAttr {
    /// The name as written, with its prefix if it has one.
    pub key: Vec<u8>,
    /// The value between the quotes, not unescaped.
    pub value: Vec<u8>,
}

/// The mathematical value of an [`XmlAttr`].
pub struct XmlAttrView {
    pub key: Seq<u8>,
    pub value: Seq<u8>,
}

impl DeepView for XmlAttr {
    type V = XmlAttrView;

    open spec fn deep_view(&self) -> XmlAttrView {
        XmlAttrView { key: self.key@, value: self.value@ }
    }
}

impl XmlAttr {
    /// An attribute from its two parts.
    pub fn new(key: Vec<u8>, value: Vec<u8>) -> (attr: XmlAttr)
        ensures
            attr.key == key,
            attr.value == value,
    {
        XmlAttr { key, value }
    }
}

/// One step of a document as the tokenizer reports it.
///
/// A self-closing tag is reported as a `Start` immediately followed by its
/// `End`.
#[derive(Debug, Clone)]
pub enum XmlEvent {
    /// A start tag: its name as written, with its prefix if it has one,
    /// and its attributes.
    Start(Vec<u8>, Vec<XmlAttr>),
    /// An end tag: its name as written.
    End(Vec<u8>),
    /// Character data between tags, white space included.
    Text(Vec<u8>),
    /// The content of a CDATA section.
    CData(Vec<u8>),
    /// An entity or character reference: what stands between `&` and `;`.
    Reference(Vec<u8>),
    /// A comment, declaration, processing instruction or doctype.
    Other,
    /// The tokenizer could not read the document here; its message.
    Error(String),
    /// The end of the input. A list of events holds none.
    Eof,
}

/// The mathematical value of an [`XmlEvent`].
pub enum XmlEventView {
    Start(Seq<u8>, Seq<XmlAttrView>),
    End(Seq<u8>),
    Text(Seq<u8>),
    CData(Seq<u8>),
    Reference(Seq<u8>),
    Other,
    Error(Seq<char>),
    Eof,
}

impl DeepView for XmlEvent {
    type V = XmlEventView;

    open spec fn deep_view(&self) -> XmlEventView {
        match self {
            XmlEvent::Start(name, attrs) => XmlEventView::Start(name@, attrs.deep_view()),
            XmlEvent::End(name) => XmlEventView::End(name@),
            XmlEvent::Text(bytes) => XmlEventView::Text(bytes@),
            XmlEvent::CData(bytes) => XmlEventView::CData(bytes@),
            XmlEvent::Reference(name) => XmlEventView::Reference(name@),
            XmlEvent::Other => XmlEventView::Other,
            XmlEvent::Error(message) => XmlEventView::Error(message@),
            XmlEvent::Eof => XmlEventView::Eof,
        }
    }
}

#[verifier::external_type_specification]
#[verifier::external_body]
#[verifier::reject_recursive_types(R)]
pub struct ExReader<R>(Reader<R>);

/// The events that the tokenizer reads from `data`, in order, up to but
/// without the end of input.
pub uninterp spec fn document_events(data: Seq<u8>) -> Seq<XmlEventView>;

/// The events that `reader` has still to deliver before it reports the end
/// of its input.
pub uninterp spec fn pending_events(reader: &Reader<&[u8]>) -> Seq<XmlEventView>;

/// `quick_xml::Reader::from_reader` on a byte slice, set to report a
/// self-closing tag as a start tag and an end tag.
///
/// Trusted: what the new reader will deliver is a function of the bytes
/// alone, and it is a finite list.
#[verifier::external_body]
fn open_reader(data: &[u8]) -> (reader: Reader<&[u8]>)
    ensures
        pending_events(&reader) == document_events(data@),
{
    let mut reader = Reader::from_reader(data);
    reader.config_mut().expand_empty_elements = true;
    reader
}

/// `quick_xml::Reader::read_event` on a byte slice, with the event copied
/// into plain values.
///
/// Trusted: the reader delivers its pending events one by one, and `Eof`
/// once none is left; a tokenizer error is delivered as an `Error` event
/// with the error's message.
#[verifier::external_body]
fn next_event(reader: &mut Reader<&[u8]>) -> (event: XmlEvent)
    ensures
        pending_events(old(reader)).len() == 0 ==> event is Eof && pending_events(final(reader))
            == pending_events(old(reader)),
        pending_events(old(reader)).len() > 0 ==> !(event is Eof) && event.deep_view()
            == pending_events(old(reader)).first() && pending_events(final(reader))
            == pending_events(old(reader)).drop_first(),
{
    match reader.read_event() {
        Ok(Event::Start(e)) => Start(
            e.name().as_ref().to_vec(),
            e.attributes().flatten().map(|a| XmlAttr::new(a.key.as_ref().to_vec(), a.value.into_owned())).collect(),
        ),
        Ok(Event::End(e)) => End(e.name().as_ref().to_vec()),
        Ok(Event::Text(e)) => Text(e.to_vec()),
        Ok(Event::CData(e)) => CData(e.to_vec()),
        Ok(Event::GeneralRef(e)) => Reference(e.to_vec()),
        Ok(Event::Eof) => Eof,
        Ok(_) => Other,
        Err(e) => Error(e.to_string()),
    }
}

/// Reads `data` to its end and returns every event met on the way.
pub fn tokenize(data: &[u8]) -> (events: Vec<XmlEvent>)
    ensures
        events.deep_view() == document_events(data@),
{
    let mut reader = open_reader(data);
    let mut events: Vec<XmlEvent> = Vec::new();
    assert(events.deep_view() =~= Seq::<XmlEventView>::empty());
    loop
        invariant
            events.deep_view() + pending_events(&reader) == document_events(data@),
        ensures
            events.deep_view() == document_events(data@),
        decreases pending_events(&reader).len(),
    {
        let ghost before = pending_events(&reader);
        let ghost seen = events.deep_view();
        let event = next_event(&mut reader);
        if let XmlEvent::Eof = event {
            assert(seen + before =~= seen);
            break ;
        }
        events.push(event);
        assert(events.deep_view() =~= seen.push(before.first()));
        assert(seen.push(before.first()) + before.drop_first() =~= seen + before);
    }
    events
}

/// The first start tag among the events from `pos` on; none where the
/// tokenizer reports an error before it, or the input ends.
pub open spec fn first_element(events: Seq<XmlEventView>, pos: int) -> Option<XmlEventView>
    decreases events.len() - pos,
{
    if pos < 0 || pos >= events.len() {
        None
    } else {
        match events[pos] {
            XmlEventView::Start(_, _) => Some(events[pos]),
            XmlEventView::Error(_) => None,
            _ => first_element(events, pos + 1),
        }
    }
}

/// Reads `data` up to its first start tag and returns it.
///
/// Nothing behind the root element is read. There is no root where the
/// tokenizer fails before one, or the input ends.
pub fn root_element(data: &[u8]) -> (root: Option<XmlEvent>)
    ensures
        root.deep_view() == first_element(document_events(data@), 0),
{
    let mut reader = open_reader(data);
    let ghost mut pos: int = 0;
    loop
        invariant
            0 <= pos <= document_events(data@).len(),
            pending_events(&reader) == document_events(data@).skip(pos),
            first_element(document_events(data@), pos) == first_element(document_events(data@), 0),
        decreases pending_events(&reader).len(),
    {
        let ghost before = pending_events(&reader);
        let event = next_event(&mut reader);
        proof {
            if before.len() > 0 {
                assert(before.drop_first() =~= document_events(data@).skip(pos + 1));
            }
        }
        match event {
            XmlEvent::Eof => {
                return None;
            },
            XmlEvent::Error(_) => {
                return None;
            },
            XmlEvent::Start(name, attrs) => {
                return Some(XmlEvent::Start(name, attrs));
            },
            _ => {
                proof {
                    pos = pos + 1;
                }
            },
        }
    }
}

} // verus!
