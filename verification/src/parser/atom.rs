//! The Atom parser.
//!
//! It walks a document the way the RSS parser does: each element that the
//! format knows is read from the span of events between its start tag and
//! the end tag that closes it.

use vstd::prelude::*;
use crate::error::{FeedError, FeedErrorView};
use crate::limits::{
    lemma_push_deep_view, limit_exceeded, limit_message, try_push_limited, ParserLimits,
};
use crate::parser::common::{
    after_close, capped, capped_sum, close_index, find_close, is_name, lemma_close_index_bounds,
    name_is, nesting_error, read_text, skip_element, span_skip, span_text, strip_prefix,
    too_deep, without_prefix,
};
use crate::parser::atom_invariants::lemma_atom_feed_well_formed;
use crate::parser::extension_invariants::lemma_unknown_extension_adds_nothing;
use crate::parser::extensions::{
    add_entry_extension, add_feed_extension, content_of_extension, entry_with_extension, extension,
    extension_of, feed_with_extension, read_extension_content, Extension,
};
use crate::parser::namespaces::{record_namespaces, with_namespaces};
use crate::parser::rss::{
    add_item, blank_item, error_of, feed_with_item, init_feed, item_result, set_diagnostic,
    with_diagnostic, ItemOutcome, ItemOutcomeView,
};
use crate::types::common::{
    attr_text, find_text, Content, ContentView, Generator, GeneratorView, Link, LinkView, Person,
    PersonView, Source, SourceView, Tag, TagView, TextConstruct, TextConstructView, TextType,
};
use crate::types::entry::{Entry, EntryView};
use crate::types::feed::{FeedMetaView, ParsedFeed, ParsedFeedView};
use crate::types::version::FeedVersion;
use crate::util::base_url::{
    combine_bases, combined_base, resolve_url, resolved_url, string_text_of, text_of,
};
use crate::util::date::{parse_date, parsed_date};
use crate::xml::{XmlAttr, XmlAttrView, XmlEvent, XmlEventView};

verus! {

/// The base as a string slice.
pub fn base_str(base: &Option<String>) -> (s: Option<&str>)
    ensures
        text_of(s) == string_text_of(*base),
{
    match base {
        Some(b) => Some(b.as_str()),
        None => None,
    }
}

/// A copy of the base.
pub fn base_copy(base: &Option<String>) -> (copy: Option<String>)
    ensures
        copy.deep_view() == string_text_of(*base),
{
    match base {
        Some(b) => Some(b.clone()),
        None => None,
    }
}

/// The base in force inside an element with the attributes `attrs`, where
/// `base` is in force around it: an `xml:base` is resolved against it.
pub open spec fn base_inside(
    base: Option<Seq<char>>,
    attrs: Seq<XmlAttrView>,
    limits: ParserLimits,
) -> Option<Seq<char>> {
    combined_base(base, attr_text(attrs, "xml:base", limits.max_attribute_length))
}

/// The base in force inside an element with the attributes `attrs`.
pub fn inner_base(base: &Option<String>, attrs: &Vec<XmlAttr>, limits: &ParserLimits) -> (inner:
    Option<String>)
    ensures
        string_text_of(inner) == base_inside(string_text_of(*base), attrs.deep_view(), *limits),
{
    let declared = find_text(attrs, "xml:base", limits.max_attribute_length);
    combine_bases(base_str(base), base_str(&declared))
}

/// How the text of an element with the attributes `attrs` is to be read.
pub open spec fn text_type_of(attrs: Seq<XmlAttrView>, limits: ParserLimits) -> TextType {
    match attr_text(attrs, "type", limits.max_attribute_length) {
        Some(t) => if t == "html"@ || t == "text/html"@ {
            TextType::Html
        } else if t == "xhtml"@ || t == "application/xhtml+xml"@ {
            TextType::Xhtml
        } else {
            TextType::Text
        },
        None => TextType::Text,
    }
}

/// Whether two strings hold the same text.
pub fn same_text(a: &String, b: &str) -> (same: bool)
    ensures
        same == (a@ == b@),
{
    let other = b.to_owned();
    *a == other
}

/// How the text of an element with the attributes `attrs` is to be read.
pub fn text_type(attrs: &Vec<XmlAttr>, limits: &ParserLimits) -> (kind: TextType)
    ensures
        kind == text_type_of(attrs.deep_view(), *limits),
{
    match find_text(attrs, "type", limits.max_attribute_length) {
        Some(t) => if same_text(&t, "html") || same_text(&t, "text/html") {
            TextType::Html
        } else if same_text(&t, "xhtml") || same_text(&t, "application/xhtml+xml") {
            TextType::Xhtml
        } else {
            TextType::Text
        },
        None => TextType::Text,
    }
}

/// The text construct of an element with the attributes `attrs` and the
/// text `value`, inside which `base` is in force.
pub open spec fn construct_of(
    value: Seq<char>,
    attrs: Seq<XmlAttrView>,
    base: Option<Seq<char>>,
    limits: ParserLimits,
) -> TextConstructView {
    TextConstructView {
        value,
        content_type: text_type_of(attrs, limits),
        language: attr_text(attrs, "xml:lang", limits.max_attribute_length),
        base: base_inside(base, attrs, limits),
    }
}

/// The text construct of an element.
pub fn construct(value: String, attrs: &Vec<XmlAttr>, base: &Option<String>, limits: &ParserLimits)
    -> (text: TextConstruct)
    ensures
        text.deep_view() == construct_of(
            value@,
            attrs.deep_view(),
            string_text_of(*base),
            *limits,
        ),
{
    TextConstruct {
        value,
        content_type: text_type(attrs, limits),
        language: find_text(attrs, "xml:lang", limits.max_attribute_length),
        base: inner_base(base, attrs, limits),
    }
}

/// The children of a person construct that the parser reads.
#[derive(Debug, Clone, Copy, PartialEq, Eq, Structural)]
pub enum PersonField {
    Name,
    Email,
    Uri,
    Other,
}

/// Which child of a person construct an element name stands for. The
/// prefix `atom:` does not count, here and for every other Atom element.
pub open spec fn person_field_of(name: Seq<u8>) -> PersonField {
    let name = without_prefix(name, "atom:");
    if is_name(name, "name") {
        PersonField::Name
    } else if is_name(name, "email") {
        PersonField::Email
    } else if is_name(name, "uri") || is_name(name, "url") {
        PersonField::Uri
    } else {
        PersonField::Other
    }
}

/// Which child of a person construct an element name stands for.
pub fn person_field(name: &[u8]) -> (field: PersonField)
    ensures
        field == person_field_of(name@),
{
    let name = strip_prefix(name, "atom:");
    if name_is(name, "name") {
        PersonField::Name
    } else if name_is(name, "email") {
        PersonField::Email
    } else if name_is(name, "uri") || name_is(name, "url") {
        PersonField::Uri
    } else {
        PersonField::Other
    }
}

/// The person after the child element `name`, whose content is `[lo, hi)`
/// and which sits at `depth`, was read.
pub open spec fn person_child(
    events: Seq<XmlEventView>,
    lo: int,
    hi: int,
    name: Seq<u8>,
    person: PersonView,
    depth: usize,
    limits: ParserLimits,
) -> Result<PersonView, FeedErrorView> {
    match person_field_of(name) {
        PersonField::Other => match span_skip(events, lo, hi, depth, limits.max_nesting_depth) {
            Ok(_) => Ok(person),
            Err(e) => Err(e),
        },
        field => match span_text(events, lo, hi, limits.max_text_length) {
            Ok(text) => Ok(
                match field {
                    PersonField::Name => PersonView { name: Some(text), ..person },
                    PersonField::Email => PersonView { email: Some(text), ..person },
                    _ => PersonView { uri: Some(text), ..person },
                },
            ),
            Err(e) => Err(e),
        },
    }
}

/// The person after the events in `[pos, hi)`, the rest of the content of a
/// person construct at `depth`, were read.
pub open spec fn person_from(
    events: Seq<XmlEventView>,
    pos: int,
    hi: int,
    person: PersonView,
    depth: usize,
    limits: ParserLimits,
) -> Result<PersonView, FeedErrorView>
    decreases hi - pos,
{
    if pos < 0 || pos >= hi || hi > events.len() {
        Ok(person)
    } else {
        match events[pos] {
            XmlEventView::Start(name, _) => if depth + 1 > limits.max_nesting_depth {
                Err(too_deep(depth + 1, limits.max_nesting_depth))
            } else {
                let close = close_index(events, pos + 1, hi, 0);
                proof {
                    lemma_close_index_bounds(events, pos + 1, hi, 0);
                }
                match person_child(events, pos + 1, close, name, person, capped(depth + 1), limits) {
                    Ok(next) => person_from(
                        events,
                        after_close(close, hi),
                        hi,
                        next,
                        depth,
                        limits,
                    ),
                    Err(e) => Err(e),
                }
            },
            XmlEventView::Error(message) => Err(FeedErrorView::XmlError(message)),
            _ => person_from(events, pos + 1, hi, person, depth, limits),
        }
    }
}

/// The person that the content `[lo, hi)` of a person construct at `depth`
/// describes.
pub open spec fn person_of(
    events: Seq<XmlEventView>,
    lo: int,
    hi: int,
    depth: usize,
    limits: ParserLimits,
) -> Result<PersonView, FeedErrorView> {
    person_from(events, lo, hi, PersonView::empty(), depth, limits)
}

/// The value of a parsed person or the error in its place.
pub open spec fn person_result(r: Result<Person, FeedError>) -> Result<PersonView, FeedErrorView> {
    match r {
        Ok(person) => Ok(person.deep_view()),
        Err(e) => Err(e.deep_view()),
    }
}

/// Reads the child element `name` of a person construct.
fn read_person_child(
    events: &Vec<XmlEvent>,
    lo: usize,
    hi: usize,
    name: &[u8],
    person: &mut Person,
    limits: &ParserLimits,
    depth: usize,
) -> (r: Result<(), FeedError>)
    requires
        lo <= hi <= events.len(),
    ensures
        match r {
            Ok(_) => person_child(
                events.deep_view(),
                lo as int,
                hi as int,
                name@,
                old(person).deep_view(),
                depth,
                *limits,
            ) == Ok::<PersonView, FeedErrorView>(final(person).deep_view()),
            Err(e) => person_child(
                events.deep_view(),
                lo as int,
                hi as int,
                name@,
                old(person).deep_view(),
                depth,
                *limits,
            ) == Err::<PersonView, FeedErrorView>(e.deep_view()),
        },
{
    let field = person_field(name);
    match field {
        PersonField::Other => skip_element(events, lo, hi, limits, depth),
        _ => match read_text(events, lo, hi, limits) {
            Ok(text) => {
                match field {
                    PersonField::Name => {
                        person.name = Some(text);
                    },
                    PersonField::Email => {
                        person.email = Some(text);
                    },
                    _ => {
                        person.uri = Some(text);
                    },
                }
                Ok(())
            },
            Err(e) => Err(e),
        },
    }
}

/// Reads the content `[lo, hi)` of a person construct (an `<author>` or a
/// `<contributor>`) that sits at `depth`.
///
/// The children `name`, `email` and `uri` are stored, any other child is
/// passed over. A child deeper than the nesting limit and a tokenizer
/// error are errors.
pub fn parse_person(
    events: &Vec<XmlEvent>,
    lo: usize,
    hi: usize,
    limits: &ParserLimits,
    depth: usize,
) -> (r: Result<Person, FeedError>)
    requires
        lo <= hi <= events.len(),
    ensures
        person_result(r) == person_of(events.deep_view(), lo as int, hi as int, depth, *limits),
{
    let mut person = Person::default();
    let mut pos: usize = lo;
    while pos < hi
        invariant
            lo <= pos <= hi <= events.len(),
            person_from(
                events.deep_view(),
                pos as int,
                hi as int,
                person.deep_view(),
                depth,
                *limits,
            ) == person_of(events.deep_view(), lo as int, hi as int, depth, *limits),
        decreases hi - pos,
    {
        match &events[pos] {
            XmlEvent::Start(name, _) => {
                if depth >= limits.max_nesting_depth {
                    return Err(nesting_error(capped_sum(depth, 1), limits.max_nesting_depth));
                }
                let close = find_close(events, pos + 1, hi);
                match read_person_child(
                    events,
                    pos + 1,
                    close,
                    name.as_slice(),
                    &mut person,
                    limits,
                    depth + 1,
                ) {
                    Ok(_) => {},
                    Err(e) => {
                        return Err(e);
                    },
                }
                pos = if close < hi {
                    close + 1
                } else {
                    hi
                };
            },
            XmlEvent::Error(message) => {
                return Err(FeedError::XmlError(message.clone()));
            },
            _ => {
                pos += 1;
            },
        }
    }
    Ok(person)
}

/// The link that the attributes of a `<link>` describe, with its target
/// resolved against `base`: none without a target.
pub open spec fn resolved_link(
    attrs: Seq<XmlAttrView>,
    base: Option<Seq<char>>,
    limits: ParserLimits,
) -> Option<LinkView> {
    match LinkView::from_attributes(attrs, limits.max_attribute_length) {
        Some(link) => {
            let href = resolved_url(link.href, base_inside(base, attrs, limits));
            if href.len() == 0 {
                None
            } else {
                Some(LinkView { href, ..link })
            }
        },
        None => None,
    }
}

/// The link that the attributes of a `<link>` describe, resolved.
pub fn parse_link(attrs: &Vec<XmlAttr>, base: &Option<String>, limits: &ParserLimits) -> (link:
    Option<Link>)
    ensures
        link.deep_view() == resolved_link(attrs.deep_view(), string_text_of(*base), *limits),
{
    match Link::from_attributes(attrs, limits.max_attribute_length) {
        Some(link) => {
            let inner = inner_base(base, attrs, limits);
            let href = resolve_url(link.href.as_str(), base_str(&inner));
            if href.as_str().is_empty() {
                None
            } else {
                let mut resolved = link;
                resolved.href = href;
                Some(resolved)
            }
        },
        None => None,
    }
}

/// Whether the link is the one a reader should follow.
pub open spec fn is_alternate(link: LinkView) -> bool {
    link.rel == Some("alternate"@)
}

/// Whether the link is the one a reader should follow.
pub fn alternate(link: &Link) -> (is: bool)
    ensures
        is == is_alternate(link.deep_view()),
{
    match &link.rel {
        Some(rel) => same_text(rel, "alternate"),
        None => false,
    }
}

/// The children of an Atom `<source>` that the parser reads.
#[derive(Debug, Clone, Copy, PartialEq, Eq, Structural)]
pub enum AtomSourceField {
    Title,
    Id,
    Link,
    Other,
}

/// Which child of an Atom `<source>` an element name stands for.
pub open spec fn atom_source_field_of(name: Seq<u8>) -> AtomSourceField {
    let name = without_prefix(name, "atom:");
    if is_name(name, "title") {
        AtomSourceField::Title
    } else if is_name(name, "id") {
        AtomSourceField::Id
    } else if is_name(name, "link") {
        AtomSourceField::Link
    } else {
        AtomSourceField::Other
    }
}

/// Which child of an Atom `<source>` an element name stands for.
pub fn atom_source_field(name: &[u8]) -> (field: AtomSourceField)
    ensures
        field == atom_source_field_of(name@),
{
    let name = strip_prefix(name, "atom:");
    if name_is(name, "title") {
        AtomSourceField::Title
    } else if name_is(name, "id") {
        AtomSourceField::Id
    } else if name_is(name, "link") {
        AtomSourceField::Link
    } else {
        AtomSourceField::Other
    }
}

/// The source after the child element `name` with the attributes `attrs`,
/// whose content is `[lo, hi)` and which sits at `depth`, was read.
pub open spec fn atom_source_child(
    events: Seq<XmlEventView>,
    lo: int,
    hi: int,
    name: Seq<u8>,
    attrs: Seq<XmlAttrView>,
    source: SourceView,
    depth: usize,
    base: Option<Seq<char>>,
    limits: ParserLimits,
) -> Result<SourceView, FeedErrorView> {
    match atom_source_field_of(name) {
        AtomSourceField::Title => match span_text(events, lo, hi, limits.max_text_length) {
            Ok(text) => Ok(SourceView { title: Some(text), ..source }),
            Err(e) => Err(e),
        },
        AtomSourceField::Id => match span_text(events, lo, hi, limits.max_text_length) {
            Ok(text) => Ok(SourceView { id: Some(text), ..source }),
            Err(e) => Err(e),
        },
        AtomSourceField::Link => match span_skip(events, lo, hi, depth, limits.max_nesting_depth) {
            Ok(_) => Ok(
                match resolved_link(attrs, base, limits) {
                    Some(link) => if is_alternate(link) {
                        SourceView { link: Some(link.href), ..source }
                    } else {
                        source
                    },
                    None => source,
                },
            ),
            Err(e) => Err(e),
        },
        AtomSourceField::Other => match span_skip(events, lo, hi, depth, limits.max_nesting_depth) {
            Ok(_) => Ok(source),
            Err(e) => Err(e),
        },
    }
}

/// The source after the events in `[pos, hi)`, the rest of the content of
/// an Atom `<source>` at `depth`, were read.
pub open spec fn atom_source_from(
    events: Seq<XmlEventView>,
    pos: int,
    hi: int,
    source: SourceView,
    depth: usize,
    base: Option<Seq<char>>,
    limits: ParserLimits,
) -> Result<SourceView, FeedErrorView>
    decreases hi - pos,
{
    if pos < 0 || pos >= hi || hi > events.len() {
        Ok(source)
    } else {
        match events[pos] {
            XmlEventView::Start(name, attrs) => if depth + 1 > limits.max_nesting_depth {
                Err(too_deep(depth + 1, limits.max_nesting_depth))
            } else {
                let close = close_index(events, pos + 1, hi, 0);
                proof {
                    lemma_close_index_bounds(events, pos + 1, hi, 0);
                }
                match atom_source_child(
                    events,
                    pos + 1,
                    close,
                    name,
                    attrs,
                    source,
                    capped(depth + 1),
                    base,
                    limits,
                ) {
                    Ok(next) => atom_source_from(
                        events,
                        after_close(close, hi),
                        hi,
                        next,
                        depth,
                        base,
                        limits,
                    ),
                    Err(e) => Err(e),
                }
            },
            XmlEventView::Error(message) => Err(FeedErrorView::XmlError(message)),
            _ => atom_source_from(events, pos + 1, hi, source, depth, base, limits),
        }
    }
}

/// The source that the content `[lo, hi)` of an Atom `<source>` at `depth`
/// describes.
pub open spec fn atom_source_of(
    events: Seq<XmlEventView>,
    lo: int,
    hi: int,
    depth: usize,
    base: Option<Seq<char>>,
    limits: ParserLimits,
) -> Result<SourceView, FeedErrorView> {
    atom_source_from(
        events,
        lo,
        hi,
        SourceView { title: None, link: None, id: None },
        depth,
        base,
        limits,
    )
}

/// Reads the child element `name` of an Atom `<source>`.
fn read_atom_source_child(
    events: &Vec<XmlEvent>,
    lo: usize,
    hi: usize,
    name: &[u8],
    attrs: &Vec<XmlAttr>,
    source: &mut Source,
    limits: &ParserLimits,
    depth: usize,
    base: &Option<String>,
) -> (r: Result<(), FeedError>)
    requires
        lo <= hi <= events.len(),
    ensures
        match r {
            Ok(_) => atom_source_child(
                events.deep_view(),
                lo as int,
                hi as int,
                name@,
                attrs.deep_view(),
                old(source).deep_view(),
                depth,
                string_text_of(*base),
                *limits,
            ) == Ok::<SourceView, FeedErrorView>(final(source).deep_view()),
            Err(e) => atom_source_child(
                events.deep_view(),
                lo as int,
                hi as int,
                name@,
                attrs.deep_view(),
                old(source).deep_view(),
                depth,
                string_text_of(*base),
                *limits,
            ) == Err::<SourceView, FeedErrorView>(e.deep_view()),
        },
{
    match atom_source_field(name) {
        AtomSourceField::Title => match read_text(events, lo, hi, limits) {
            Ok(text) => {
                source.title = Some(text);
                Ok(())
            },
            Err(e) => Err(e),
        },
        AtomSourceField::Id => match read_text(events, lo, hi, limits) {
            Ok(text) => {
                source.id = Some(text);
                Ok(())
            },
            Err(e) => Err(e),
        },
        AtomSourceField::Link => match skip_element(events, lo, hi, limits, depth) {
            Ok(_) => {
                match parse_link(attrs, base, limits) {
                    Some(link) => {
                        if alternate(&link) {
                            source.link = Some(link.href);
                        }
                    },
                    None => {},
                }
                Ok(())
            },
            Err(e) => Err(e),
        },
        AtomSourceField::Other => skip_element(events, lo, hi, limits, depth),
    }
}

/// The value of a parsed source or the error in its place.
pub open spec fn atom_source_result(r: Result<Source, FeedError>) -> Result<
    SourceView,
    FeedErrorView,
> {
    match r {
        Ok(source) => Ok(source.deep_view()),
        Err(e) => Err(e.deep_view()),
    }
}

/// Reads the content `[lo, hi)` of an Atom `<source>` element that sits at
/// `depth`.
///
/// The children `title` and `id` are stored, and of the `link` children
/// the target of the last `alternate` one; any other child is passed over.
/// A child deeper than the nesting limit and a tokenizer error are errors.
pub fn parse_atom_source(
    events: &Vec<XmlEvent>,
    lo: usize,
    hi: usize,
    limits: &ParserLimits,
    depth: usize,
    base: &Option<String>,
) -> (r: Result<Source, FeedError>)
    requires
        lo <= hi <= events.len(),
    ensures
        atom_source_result(r) == atom_source_of(
            events.deep_view(),
            lo as int,
            hi as int,
            depth,
            string_text_of(*base),
            *limits,
        ),
{
    let mut source = Source { title: None, link: None, id: None };
    let mut pos: usize = lo;
    while pos < hi
        invariant
            lo <= pos <= hi <= events.len(),
            atom_source_from(
                events.deep_view(),
                pos as int,
                hi as int,
                source.deep_view(),
                depth,
                string_text_of(*base),
                *limits,
            ) == atom_source_of(
                events.deep_view(),
                lo as int,
                hi as int,
                depth,
                string_text_of(*base),
                *limits,
            ),
        decreases hi - pos,
    {
        match &events[pos] {
            XmlEvent::Start(name, attrs) => {
                if depth >= limits.max_nesting_depth {
                    return Err(nesting_error(capped_sum(depth, 1), limits.max_nesting_depth));
                }
                let close = find_close(events, pos + 1, hi);
                match read_atom_source_child(
                    events,
                    pos + 1,
                    close,
                    name.as_slice(),
                    attrs,
                    &mut source,
                    limits,
                    depth + 1,
                    base,
                ) {
                    Ok(_) => {},
                    Err(e) => {
                        return Err(e);
                    },
                }
                pos = if close < hi {
                    close + 1
                } else {
                    hi
                };
            },
            XmlEvent::Error(message) => {
                return Err(FeedError::XmlError(message.clone()));
            },
            _ => {
                pos += 1;
            },
        }
    }
    Ok(source)
}

/// A copy of the person.
pub fn copy_person(person: &Person) -> (copy: Person)
    ensures
        copy.deep_view() == person.deep_view(),
{
    Person {
        name: base_copy(&person.name),
        email: base_copy(&person.email),
        uri: base_copy(&person.uri),
    }
}

/// The children of an Atom `<entry>` that the parser reads.
#[derive(Debug, Clone, Copy, PartialEq, Eq, Structural)]
pub enum AtomEntryField {
    Title,
    Summary,
    Content,
    Id,
    Updated,
    Published,
    Link,
    Author,
    Contributor,
    Category,
    Source,
    Other,
}

/// Which child of an `<entry>` an element name stands for. Atom 0.3 calls
/// `updated` `modified` and `published` `issued`.
pub open spec fn atom_entry_field_of(name: Seq<u8>) -> AtomEntryField {
    let name = without_prefix(name, "atom:");
    if is_name(name, "title") {
        AtomEntryField::Title
    } else if is_name(name, "summary") {
        AtomEntryField::Summary
    } else if is_name(name, "content") {
        AtomEntryField::Content
    } else if is_name(name, "id") {
        AtomEntryField::Id
    } else if is_name(name, "updated") || is_name(name, "modified") {
        AtomEntryField::Updated
    } else if is_name(name, "published") || is_name(name, "issued") {
        AtomEntryField::Published
    } else if is_name(name, "link") {
        AtomEntryField::Link
    } else if is_name(name, "author") {
        AtomEntryField::Author
    } else if is_name(name, "contributor") {
        AtomEntryField::Contributor
    } else if is_name(name, "category") {
        AtomEntryField::Category
    } else if is_name(name, "source") {
        AtomEntryField::Source
    } else {
        AtomEntryField::Other
    }
}

/// Which child of an `<entry>` an element name stands for.
pub fn atom_entry_field(name: &[u8]) -> (field: AtomEntryField)
    ensures
        field == atom_entry_field_of(name@),
{
    let name = strip_prefix(name, "atom:");
    if name_is(name, "title") {
        AtomEntryField::Title
    } else if name_is(name, "summary") {
        AtomEntryField::Summary
    } else if name_is(name, "content") {
        AtomEntryField::Content
    } else if name_is(name, "id") {
        AtomEntryField::Id
    } else if name_is(name, "updated") || name_is(name, "modified") {
        AtomEntryField::Updated
    } else if name_is(name, "published") || name_is(name, "issued") {
        AtomEntryField::Published
    } else if name_is(name, "link") {
        AtomEntryField::Link
    } else if name_is(name, "author") {
        AtomEntryField::Author
    } else if name_is(name, "contributor") {
        AtomEntryField::Contributor
    } else if name_is(name, "category") {
        AtomEntryField::Category
    } else if name_is(name, "source") {
        AtomEntryField::Source
    } else {
        AtomEntryField::Other
    }
}

/// The content block of a `<content>` element with the attributes `attrs`
/// and the text `value`, inside which `base` is in force.
pub open spec fn content_of(
    value: Seq<char>,
    attrs: Seq<XmlAttrView>,
    base: Option<Seq<char>>,
    limits: ParserLimits,
) -> ContentView {
    ContentView {
        value,
        content_type: attr_text(attrs, "type", limits.max_attribute_length),
        language: attr_text(attrs, "xml:lang", limits.max_attribute_length),
        base: base_inside(base, attrs, limits),
    }
}

/// The entry after its child `field` with the attributes `attrs` was read
/// as `text`.
pub open spec fn entry_with_text(
    item: ItemOutcomeView,
    field: AtomEntryField,
    text: Seq<char>,
    attrs: Seq<XmlAttrView>,
    base: Option<Seq<char>>,
    limits: ParserLimits,
) -> ItemOutcomeView {
    let entry = item.entry;
    match field {
        AtomEntryField::Title => ItemOutcomeView {
            entry: EntryView {
                title: Some(text),
                title_detail: Some(construct_of(text, attrs, base, limits)),
                ..entry
            },
            ..item
        },
        AtomEntryField::Summary => ItemOutcomeView {
            entry: EntryView {
                summary: Some(text),
                summary_detail: Some(construct_of(text, attrs, base, limits)),
                ..entry
            },
            ..item
        },
        AtomEntryField::Content => if entry.content.len() < limits.max_content_blocks {
            ItemOutcomeView {
                entry: EntryView {
                    content: entry.content.push(content_of(text, attrs, base, limits)),
                    ..entry
                },
                ..item
            }
        } else {
            ItemOutcomeView {
                diagnostic: Some(limit_message("Content", limits.max_content_blocks)),
                ..item
            }
        },
        AtomEntryField::Id => ItemOutcomeView { entry: EntryView { id: Some(text), ..entry }, ..item },
        AtomEntryField::Updated => match parsed_date(text) {
            Some(date) => ItemOutcomeView { entry: EntryView { updated: Some(date), ..entry }, ..item },
            None => if text.len() == 0 {
                item
            } else {
                ItemOutcomeView { diagnostic: Some("Invalid updated format"@), ..item }
            },
        },
        AtomEntryField::Published => match parsed_date(text) {
            Some(date) => ItemOutcomeView {
                entry: EntryView { published: Some(date), ..entry },
                ..item
            },
            None => if text.len() == 0 {
                item
            } else {
                ItemOutcomeView { diagnostic: Some("Invalid published format"@), ..item }
            },
        },
        _ => item,
    }
}

/// Stores the text of the child `field` in the entry.
pub fn set_entry_text(
    item: &mut ItemOutcome,
    field: AtomEntryField,
    text: String,
    attrs: &Vec<XmlAttr>,
    base: &Option<String>,
    limits: &ParserLimits,
)
    ensures
        final(item).deep_view() == entry_with_text(
            old(item).deep_view(),
            field,
            text@,
            attrs.deep_view(),
            string_text_of(*base),
            *limits,
        ),
{
    match field {
        AtomEntryField::Title => {
            item.entry.title = Some(text.clone());
            item.entry.title_detail = Some(construct(text, attrs, base, limits));
        },
        AtomEntryField::Summary => {
            item.entry.summary = Some(text.clone());
            item.entry.summary_detail = Some(construct(text, attrs, base, limits));
        },
        AtomEntryField::Content => {
            let block = Content {
                value: text,
                content_type: find_text(attrs, "type", limits.max_attribute_length),
                language: find_text(attrs, "xml:lang", limits.max_attribute_length),
                base: inner_base(base, attrs, limits),
            };
            let ghost before = item.entry.content;
            let ghost added = block;
            if try_push_limited(&mut item.entry.content, block, limits.max_content_blocks) {
                proof {
                    lemma_push_deep_view(before, item.entry.content, added);
                }
            } else {
                item.diagnostic = Some(limit_exceeded("Content", limits.max_content_blocks));
            }
        },
        AtomEntryField::Id => {
            item.entry.id = Some(text);
        },
        AtomEntryField::Updated => {
            match parse_date(text.as_str()) {
                Some(date) => {
                    item.entry.updated = Some(date);
                },
                None => {
                    if !text.as_str().is_empty() {
                        item.diagnostic = Some("Invalid updated format".to_owned());
                    }
                },
            }
        },
        AtomEntryField::Published => {
            match parse_date(text.as_str()) {
                Some(date) => {
                    item.entry.published = Some(date);
                },
                None => {
                    if !text.as_str().is_empty() {
                        item.diagnostic = Some("Invalid published format".to_owned());
                    }
                },
            }
        },
        _ => {},
    }
}

/// The entry after a `<link>` with the attributes `attrs` was read. The
/// first `alternate` link is also the main link of the entry.
pub open spec fn entry_with_link(
    item: ItemOutcomeView,
    attrs: Seq<XmlAttrView>,
    base: Option<Seq<char>>,
    limits: ParserLimits,
) -> ItemOutcomeView {
    match resolved_link(attrs, base, limits) {
        Some(link) => {
            let entry = if is_alternate(link) && item.entry.link is None {
                EntryView { link: Some(link.href), ..item.entry }
            } else {
                item.entry
            };
            if entry.links.len() < limits.max_links_per_entry {
                ItemOutcomeView { entry: EntryView { links: entry.links.push(link), ..entry }, ..item }
            } else {
                ItemOutcomeView {
                    entry,
                    diagnostic: Some(limit_message("Link", limits.max_links_per_entry)),
                }
            }
        },
        None => item,
    }
}

/// Stores the link that `attrs` describe in the entry.
pub fn add_entry_link(
    item: &mut ItemOutcome,
    attrs: &Vec<XmlAttr>,
    base: &Option<String>,
    limits: &ParserLimits,
)
    ensures
        final(item).deep_view() == entry_with_link(
            old(item).deep_view(),
            attrs.deep_view(),
            string_text_of(*base),
            *limits,
        ),
{
    match parse_link(attrs, base, limits) {
        Some(link) => {
            if alternate(&link) && item.entry.link.is_none() {
                item.entry.link = Some(link.href.clone());
            }
            let ghost before = item.entry.links;
            let ghost added = link;
            if try_push_limited(&mut item.entry.links, link, limits.max_links_per_entry) {
                proof {
                    lemma_push_deep_view(before, item.entry.links, added);
                }
            } else {
                item.diagnostic = Some(limit_exceeded("Link", limits.max_links_per_entry));
            }
        },
        None => {},
    }
}

/// The entry after a `<category>` with the attributes `attrs` was read.
pub open spec fn entry_with_category(
    item: ItemOutcomeView,
    attrs: Seq<XmlAttrView>,
    limits: ParserLimits,
) -> ItemOutcomeView {
    match TagView::from_attributes(attrs, limits.max_attribute_length) {
        Some(tag) => if item.entry.tags.len() < limits.max_tags {
            ItemOutcomeView {
                entry: EntryView { tags: item.entry.tags.push(tag), ..item.entry },
                ..item
            }
        } else {
            ItemOutcomeView { diagnostic: Some(limit_message("Tag", limits.max_tags)), ..item }
        },
        None => item,
    }
}

/// Stores the tag that `attrs` describe in the entry.
pub fn add_entry_category(item: &mut ItemOutcome, attrs: &Vec<XmlAttr>, limits: &ParserLimits)
    ensures
        final(item).deep_view() == entry_with_category(
            old(item).deep_view(),
            attrs.deep_view(),
            *limits,
        ),
{
    match Tag::from_attributes(attrs, limits.max_attribute_length) {
        Some(tag) => {
            let ghost before = item.entry.tags;
            let ghost added = tag;
            if try_push_limited(&mut item.entry.tags, tag, limits.max_tags) {
                proof {
                    lemma_push_deep_view(before, item.entry.tags, added);
                }
            } else {
                item.diagnostic = Some(limit_exceeded("Tag", limits.max_tags));
            }
        },
        None => {},
    }
}

/// The entry after an `<author>` was read. The first author is also the
/// main author of the entry.
pub open spec fn entry_with_author(
    item: ItemOutcomeView,
    person: PersonView,
    limits: ParserLimits,
) -> ItemOutcomeView {
    let entry = item.entry;
    if entry.authors.len() < limits.max_authors {
        let grown = EntryView { authors: entry.authors.push(person), ..entry };
        if entry.author_detail is None {
            ItemOutcomeView {
                entry: EntryView { author: person.name, author_detail: Some(person), ..grown },
                ..item
            }
        } else {
            ItemOutcomeView { entry: grown, ..item }
        }
    } else {
        ItemOutcomeView { diagnostic: Some(limit_message("Author", limits.max_authors)), ..item }
    }
}

/// Stores an author in the entry.
pub fn add_entry_author(item: &mut ItemOutcome, person: Person, limits: &ParserLimits)
    ensures
        final(item).deep_view() == entry_with_author(
            old(item).deep_view(),
            person.deep_view(),
            *limits,
        ),
{
    if item.entry.authors.len() < limits.max_authors {
        if item.entry.author_detail.is_none() {
            item.entry.author = base_copy(&person.name);
            item.entry.author_detail = Some(copy_person(&person));
        }
        let ghost before = item.entry.authors;
        let ghost added = person;
        item.entry.authors.push(person);
        proof {
            lemma_push_deep_view(before, item.entry.authors, added);
        }
    } else {
        item.diagnostic = Some(limit_exceeded("Author", limits.max_authors));
    }
}

/// The entry after a `<contributor>` was read.
pub open spec fn entry_with_contributor(
    item: ItemOutcomeView,
    person: PersonView,
    limits: ParserLimits,
) -> ItemOutcomeView {
    if item.entry.contributors.len() < limits.max_contributors {
        ItemOutcomeView {
            entry: EntryView { contributors: item.entry.contributors.push(person), ..item.entry },
            ..item
        }
    } else {
        ItemOutcomeView {
            diagnostic: Some(limit_message("Contributor", limits.max_contributors)),
            ..item
        }
    }
}

/// Stores a contributor in the entry.
pub fn add_entry_contributor(item: &mut ItemOutcome, person: Person, limits: &ParserLimits)
    ensures
        final(item).deep_view() == entry_with_contributor(
            old(item).deep_view(),
            person.deep_view(),
            *limits,
        ),
{
    let ghost before = item.entry.contributors;
    let ghost added = person;
    if try_push_limited(&mut item.entry.contributors, person, limits.max_contributors) {
        proof {
            lemma_push_deep_view(before, item.entry.contributors, added);
        }
    } else {
        item.diagnostic = Some(limit_exceeded("Contributor", limits.max_contributors));
    }
}

/// The entry after the child element `name` with the attributes `attrs`,
/// whose content is `[lo, hi)` and which sits at `depth`, was read.
pub open spec fn atom_entry_child(
    events: Seq<XmlEventView>,
    lo: int,
    hi: int,
    name: Seq<u8>,
    attrs: Seq<XmlAttrView>,
    item: ItemOutcomeView,
    depth: usize,
    base: Option<Seq<char>>,
    limits: ParserLimits,
) -> Result<ItemOutcomeView, FeedErrorView> {
    match atom_entry_field_of(name) {
        AtomEntryField::Link => match span_skip(events, lo, hi, depth, limits.max_nesting_depth) {
            Ok(_) => Ok(entry_with_link(item, attrs, base, limits)),
            Err(e) => Err(e),
        },
        AtomEntryField::Category => match span_skip(
            events,
            lo,
            hi,
            depth,
            limits.max_nesting_depth,
        ) {
            Ok(_) => Ok(entry_with_category(item, attrs, limits)),
            Err(e) => Err(e),
        },
        AtomEntryField::Author => match person_of(events, lo, hi, depth, limits) {
            Ok(person) => Ok(entry_with_author(item, person, limits)),
            Err(e) => Ok(ItemOutcomeView { diagnostic: Some(e.message()), ..item }),
        },
        AtomEntryField::Contributor => match person_of(events, lo, hi, depth, limits) {
            Ok(person) => Ok(entry_with_contributor(item, person, limits)),
            Err(e) => Ok(ItemOutcomeView { diagnostic: Some(e.message()), ..item }),
        },
        AtomEntryField::Source => match atom_source_of(
            events,
            lo,
            hi,
            depth,
            base_inside(base, attrs, limits),
            limits,
        ) {
            Ok(source) => Ok(
                ItemOutcomeView { entry: EntryView { source: Some(source), ..item.entry }, ..item },
            ),
            Err(e) => Ok(ItemOutcomeView { diagnostic: Some(e.message()), ..item }),
        },
        AtomEntryField::Other => match span_skip(events, lo, hi, depth, limits.max_nesting_depth) {
            Ok(_) => Ok(
                entry_with_extension(
                    item,
                    extension_of(name),
                    attrs,
                    content_of_extension(events, lo, hi, extension_of(name), limits).text,
                    limits,
                ),
            ),
            Err(e) => Err(e),
        },
        field => match span_text(events, lo, hi, limits.max_text_length) {
            Ok(text) => Ok(entry_with_text(item, field, text, attrs, base, limits)),
            Err(e) => Err(e),
        },
    }
}

/// The entry after the events in `[pos, hi)`, the rest of the content of an
/// `<entry>` at `depth`, were read.
pub open spec fn atom_entry_from(
    events: Seq<XmlEventView>,
    pos: int,
    hi: int,
    item: ItemOutcomeView,
    depth: usize,
    base: Option<Seq<char>>,
    limits: ParserLimits,
) -> Result<ItemOutcomeView, FeedErrorView>
    decreases hi - pos,
{
    if pos < 0 || pos >= hi || hi > events.len() {
        Ok(item)
    } else {
        match events[pos] {
            XmlEventView::Start(name, attrs) => if depth + 1 > limits.max_nesting_depth {
                Err(too_deep(depth + 1, limits.max_nesting_depth))
            } else {
                let close = close_index(events, pos + 1, hi, 0);
                proof {
                    lemma_close_index_bounds(events, pos + 1, hi, 0);
                }
                match atom_entry_child(
                    events,
                    pos + 1,
                    close,
                    name,
                    attrs,
                    item,
                    capped(depth + 1),
                    base,
                    limits,
                ) {
                    Ok(next) => atom_entry_from(
                        events,
                        after_close(close, hi),
                        hi,
                        next,
                        depth,
                        base,
                        limits,
                    ),
                    Err(e) => Err(e),
                }
            },
            XmlEventView::Error(message) => Err(FeedErrorView::XmlError(message)),
            _ => atom_entry_from(events, pos + 1, hi, item, depth, base, limits),
        }
    }
}

/// The entry that the content `[lo, hi)` of an `<entry>` at `depth`
/// describes, with the last thing in it that could not be read cleanly.
pub open spec fn atom_entry_of(
    events: Seq<XmlEventView>,
    lo: int,
    hi: int,
    depth: usize,
    base: Option<Seq<char>>,
    limits: ParserLimits,
) -> Result<ItemOutcomeView, FeedErrorView> {
    atom_entry_from(events, lo, hi, blank_item(), depth, base, limits)
}

/// Reads the child element `name` of an `<entry>`.
fn read_atom_entry_child(
    events: &Vec<XmlEvent>,
    lo: usize,
    hi: usize,
    name: &[u8],
    attrs: &Vec<XmlAttr>,
    item: &mut ItemOutcome,
    limits: &ParserLimits,
    depth: usize,
    base: &Option<String>,
) -> (r: Result<(), FeedError>)
    requires
        lo <= hi <= events.len(),
    ensures
        match r {
            Ok(_) => atom_entry_child(
                events.deep_view(),
                lo as int,
                hi as int,
                name@,
                attrs.deep_view(),
                old(item).deep_view(),
                depth,
                string_text_of(*base),
                *limits,
            ) == Ok::<ItemOutcomeView, FeedErrorView>(final(item).deep_view()),
            Err(e) => atom_entry_child(
                events.deep_view(),
                lo as int,
                hi as int,
                name@,
                attrs.deep_view(),
                old(item).deep_view(),
                depth,
                string_text_of(*base),
                *limits,
            ) == Err::<ItemOutcomeView, FeedErrorView>(e.deep_view()),
        },
{
    let field = atom_entry_field(name);
    match field {
        AtomEntryField::Link => match skip_element(events, lo, hi, limits, depth) {
            Ok(_) => {
                add_entry_link(item, attrs, base, limits);
                Ok(())
            },
            Err(e) => Err(e),
        },
        AtomEntryField::Category => match skip_element(events, lo, hi, limits, depth) {
            Ok(_) => {
                add_entry_category(item, attrs, limits);
                Ok(())
            },
            Err(e) => Err(e),
        },
        AtomEntryField::Author => {
            match parse_person(events, lo, hi, limits, depth) {
                Ok(person) => {
                    add_entry_author(item, person, limits);
                },
                Err(e) => {
                    item.diagnostic = Some(e.to_string());
                },
            }
            Ok(())
        },
        AtomEntryField::Contributor => {
            match parse_person(events, lo, hi, limits, depth) {
                Ok(person) => {
                    add_entry_contributor(item, person, limits);
                },
                Err(e) => {
                    item.diagnostic = Some(e.to_string());
                },
            }
            Ok(())
        },
        AtomEntryField::Source => {
            let inner = inner_base(base, attrs, limits);
            match parse_atom_source(events, lo, hi, limits, depth, &inner) {
                Ok(source) => {
                    item.entry.source = Some(source);
                },
                Err(e) => {
                    item.diagnostic = Some(e.to_string());
                },
            }
            Ok(())
        },
        AtomEntryField::Other => match skip_element(events, lo, hi, limits, depth) {
            Ok(_) => {
                let ext = extension(name);
                if ext != Extension::Unknown {
                    let content = read_extension_content(events, lo, hi, ext, limits);
                    add_entry_extension(item, ext, attrs, content.text, limits);
                }
                Ok(())
            },
            Err(e) => Err(e),
        },
        _ => match read_text(events, lo, hi, limits) {
            Ok(text) => {
                set_entry_text(item, field, text, attrs, base, limits);
                Ok(())
            },
            Err(e) => Err(e),
        },
    }
}

/// Reads the content `[lo, hi)` of an `<entry>` element that sits at
/// `depth`, inside which `base` is in force.
///
/// Each child the format knows is stored in the entry; any other child is
/// passed over. A date that cannot be read, a list that is full, and a
/// person or a source that cannot be read leave the entry standing and are
/// reported in the diagnostic, of which the last one is kept. A child
/// deeper than the nesting limit and a tokenizer error are errors, and then
/// there is no entry.
pub fn parse_atom_entry(
    events: &Vec<XmlEvent>,
    lo: usize,
    hi: usize,
    limits: &ParserLimits,
    depth: usize,
    base: &Option<String>,
) -> (r: Result<ItemOutcome, FeedError>)
    requires
        lo <= hi <= events.len(),
    ensures
        item_result(r) == atom_entry_of(
            events.deep_view(),
            lo as int,
            hi as int,
            depth,
            string_text_of(*base),
            *limits,
        ),
{
    let mut item = ItemOutcome { entry: Entry::with_capacity(), diagnostic: None };
    let mut pos: usize = lo;
    while pos < hi
        invariant
            lo <= pos <= hi <= events.len(),
            atom_entry_from(
                events.deep_view(),
                pos as int,
                hi as int,
                item.deep_view(),
                depth,
                string_text_of(*base),
                *limits,
            ) == atom_entry_of(
                events.deep_view(),
                lo as int,
                hi as int,
                depth,
                string_text_of(*base),
                *limits,
            ),
        decreases hi - pos,
    {
        match &events[pos] {
            XmlEvent::Start(name, attrs) => {
                if depth >= limits.max_nesting_depth {
                    return Err(nesting_error(capped_sum(depth, 1), limits.max_nesting_depth));
                }
                let close = find_close(events, pos + 1, hi);
                match read_atom_entry_child(
                    events,
                    pos + 1,
                    close,
                    name.as_slice(),
                    attrs,
                    &mut item,
                    limits,
                    depth + 1,
                    base,
                ) {
                    Ok(_) => {},
                    Err(e) => {
                        return Err(e);
                    },
                }
                pos = if close < hi {
                    close + 1
                } else {
                    hi
                };
            },
            XmlEvent::Error(message) => {
                return Err(FeedError::XmlError(message.clone()));
            },
            _ => {
                pos += 1;
            },
        }
    }
    Ok(item)
}

/// The children of an Atom `<feed>` that the parser reads.
#[derive(Debug, Clone, Copy, PartialEq, Eq, Structural)]
pub enum AtomFeedField {
    Title,
    Subtitle,
    Rights,
    Id,
    Updated,
    Icon,
    Logo,
    Generator,
    Link,
    Author,
    Contributor,
    Category,
    Entry,
    Other,
}

/// Which child of a `<feed>` an element name stands for. Atom 0.3 calls
/// `subtitle` `tagline`, `rights` `copyright` and `updated` `modified`.
pub open spec fn atom_feed_field_of(name: Seq<u8>) -> AtomFeedField {
    let name = without_prefix(name, "atom:");
    if is_name(name, "title") {
        AtomFeedField::Title
    } else if is_name(name, "subtitle") || is_name(name, "tagline") {
        AtomFeedField::Subtitle
    } else if is_name(name, "rights") || is_name(name, "copyright") {
        AtomFeedField::Rights
    } else if is_name(name, "id") {
        AtomFeedField::Id
    } else if is_name(name, "updated") || is_name(name, "modified") {
        AtomFeedField::Updated
    } else if is_name(name, "icon") {
        AtomFeedField::Icon
    } else if is_name(name, "logo") {
        AtomFeedField::Logo
    } else if is_name(name, "generator") {
        AtomFeedField::Generator
    } else if is_name(name, "link") {
        AtomFeedField::Link
    } else if is_name(name, "author") {
        AtomFeedField::Author
    } else if is_name(name, "contributor") {
        AtomFeedField::Contributor
    } else if is_name(name, "category") {
        AtomFeedField::Category
    } else if is_name(name, "entry") {
        AtomFeedField::Entry
    } else {
        AtomFeedField::Other
    }
}

/// Which child of a `<feed>` an element name stands for.
pub fn atom_feed_field(name: &[u8]) -> (field: AtomFeedField)
    ensures
        field == atom_feed_field_of(name@),
{
    let name = strip_prefix(name, "atom:");
    if name_is(name, "title") {
        AtomFeedField::Title
    } else if name_is(name, "subtitle") || name_is(name, "tagline") {
        AtomFeedField::Subtitle
    } else if name_is(name, "rights") || name_is(name, "copyright") {
        AtomFeedField::Rights
    } else if name_is(name, "id") {
        AtomFeedField::Id
    } else if name_is(name, "updated") || name_is(name, "modified") {
        AtomFeedField::Updated
    } else if name_is(name, "icon") {
        AtomFeedField::Icon
    } else if name_is(name, "logo") {
        AtomFeedField::Logo
    } else if name_is(name, "generator") {
        AtomFeedField::Generator
    } else if name_is(name, "link") {
        AtomFeedField::Link
    } else if name_is(name, "author") {
        AtomFeedField::Author
    } else if name_is(name, "contributor") {
        AtomFeedField::Contributor
    } else if name_is(name, "category") {
        AtomFeedField::Category
    } else if name_is(name, "entry") {
        AtomFeedField::Entry
    } else {
        AtomFeedField::Other
    }
}

/// The feed after the child `field` of its `<feed>` element, which has the
/// attributes `attrs`, was read as `text`.
pub open spec fn feed_with_text(
    feed: ParsedFeedView,
    field: AtomFeedField,
    text: Seq<char>,
    attrs: Seq<XmlAttrView>,
    base: Option<Seq<char>>,
    limits: ParserLimits,
) -> ParsedFeedView {
    let meta = feed.feed;
    match field {
        AtomFeedField::Title => ParsedFeedView {
            feed: FeedMetaView {
                title: Some(text),
                title_detail: Some(construct_of(text, attrs, base, limits)),
                ..meta
            },
            ..feed
        },
        AtomFeedField::Subtitle => ParsedFeedView {
            feed: FeedMetaView {
                subtitle: Some(text),
                subtitle_detail: Some(construct_of(text, attrs, base, limits)),
                ..meta
            },
            ..feed
        },
        AtomFeedField::Rights => ParsedFeedView {
            feed: FeedMetaView {
                rights: Some(text),
                rights_detail: Some(construct_of(text, attrs, base, limits)),
                ..meta
            },
            ..feed
        },
        AtomFeedField::Id => ParsedFeedView { feed: FeedMetaView { id: Some(text), ..meta }, ..feed },
        AtomFeedField::Updated => match parsed_date(text) {
            Some(date) => ParsedFeedView {
                feed: FeedMetaView { updated: Some(date), ..meta },
                ..feed
            },
            None => if text.len() == 0 {
                feed
            } else {
                with_diagnostic(feed, "Invalid updated format"@)
            },
        },
        AtomFeedField::Icon => ParsedFeedView {
            feed: FeedMetaView { icon: Some(text), ..meta },
            ..feed
        },
        AtomFeedField::Logo => ParsedFeedView {
            feed: FeedMetaView { logo: Some(text), ..meta },
            ..feed
        },
        AtomFeedField::Generator => ParsedFeedView {
            feed: FeedMetaView {
                generator: Some(text),
                generator_detail: Some(
                    GeneratorView {
                        value: text,
                        uri: attr_text(attrs, "uri", limits.max_attribute_length),
                        version: attr_text(attrs, "version", limits.max_attribute_length),
                    },
                ),
                ..meta
            },
            ..feed
        },
        _ => feed,
    }
}

/// Stores the text of the child `field` of the `<feed>` element.
pub fn set_feed_text(
    feed: &mut ParsedFeed,
    field: AtomFeedField,
    text: String,
    attrs: &Vec<XmlAttr>,
    base: &Option<String>,
    limits: &ParserLimits,
)
    ensures
        final(feed).deep_view() == feed_with_text(
            old(feed).deep_view(),
            field,
            text@,
            attrs.deep_view(),
            string_text_of(*base),
            *limits,
        ),
{
    match field {
        AtomFeedField::Title => {
            feed.feed.title = Some(text.clone());
            feed.feed.title_detail = Some(construct(text, attrs, base, limits));
        },
        AtomFeedField::Subtitle => {
            feed.feed.subtitle = Some(text.clone());
            feed.feed.subtitle_detail = Some(construct(text, attrs, base, limits));
        },
        AtomFeedField::Rights => {
            feed.feed.rights = Some(text.clone());
            feed.feed.rights_detail = Some(construct(text, attrs, base, limits));
        },
        AtomFeedField::Id => {
            feed.feed.id = Some(text);
        },
        AtomFeedField::Updated => {
            match parse_date(text.as_str()) {
                Some(date) => {
                    feed.feed.updated = Some(date);
                },
                None => {
                    if !text.as_str().is_empty() {
                        set_diagnostic(feed, "Invalid updated format".to_owned());
                    }
                },
            }
        },
        AtomFeedField::Icon => {
            feed.feed.icon = Some(text);
        },
        AtomFeedField::Logo => {
            feed.feed.logo = Some(text);
        },
        AtomFeedField::Generator => {
            feed.feed.generator = Some(text.clone());
            feed.feed.generator_detail = Some(
                Generator {
                    value: text,
                    uri: find_text(attrs, "uri", limits.max_attribute_length),
                    version: find_text(attrs, "version", limits.max_attribute_length),
                },
            );
        },
        _ => {},
    }
}

/// The feed after a `<link>` with the attributes `attrs` was read. The
/// first `alternate` link is also the main link of the feed.
pub open spec fn feed_with_link(
    feed: ParsedFeedView,
    attrs: Seq<XmlAttrView>,
    base: Option<Seq<char>>,
    limits: ParserLimits,
) -> ParsedFeedView {
    match resolved_link(attrs, base, limits) {
        Some(link) => {
            let meta = if is_alternate(link) && feed.feed.link is None {
                FeedMetaView { link: Some(link.href), ..feed.feed }
            } else {
                feed.feed
            };
            if meta.links.len() < limits.max_links_per_feed {
                ParsedFeedView { feed: FeedMetaView { links: meta.links.push(link), ..meta }, ..feed }
            } else {
                with_diagnostic(
                    ParsedFeedView { feed: meta, ..feed },
                    limit_message("Link", limits.max_links_per_feed),
                )
            }
        },
        None => feed,
    }
}

/// Stores the link that `attrs` describe in the feed.
pub fn add_feed_link(
    feed: &mut ParsedFeed,
    attrs: &Vec<XmlAttr>,
    base: &Option<String>,
    limits: &ParserLimits,
)
    ensures
        final(feed).deep_view() == feed_with_link(
            old(feed).deep_view(),
            attrs.deep_view(),
            string_text_of(*base),
            *limits,
        ),
{
    match parse_link(attrs, base, limits) {
        Some(link) => {
            if alternate(&link) && feed.feed.link.is_none() {
                feed.feed.link = Some(link.href.clone());
            }
            let ghost before = feed.feed.links;
            let ghost added = link;
            if try_push_limited(&mut feed.feed.links, link, limits.max_links_per_feed) {
                proof {
                    lemma_push_deep_view(before, feed.feed.links, added);
                }
            } else {
                set_diagnostic(feed, limit_exceeded("Link", limits.max_links_per_feed));
            }
        },
        None => {},
    }
}

/// The feed after a `<category>` with the attributes `attrs` was read.
pub open spec fn feed_with_category(
    feed: ParsedFeedView,
    attrs: Seq<XmlAttrView>,
    limits: ParserLimits,
) -> ParsedFeedView {
    match TagView::from_attributes(attrs, limits.max_attribute_length) {
        Some(tag) => if feed.feed.tags.len() < limits.max_tags {
            ParsedFeedView {
                feed: FeedMetaView { tags: feed.feed.tags.push(tag), ..feed.feed },
                ..feed
            }
        } else {
            with_diagnostic(feed, limit_message("Tag", limits.max_tags))
        },
        None => feed,
    }
}

/// Stores the tag that `attrs` describe in the feed.
pub fn add_feed_category(feed: &mut ParsedFeed, attrs: &Vec<XmlAttr>, limits: &ParserLimits)
    ensures
        final(feed).deep_view() == feed_with_category(
            old(feed).deep_view(),
            attrs.deep_view(),
            *limits,
        ),
{
    match Tag::from_attributes(attrs, limits.max_attribute_length) {
        Some(tag) => {
            let ghost before = feed.feed.tags;
            let ghost added = tag;
            if try_push_limited(&mut feed.feed.tags, tag, limits.max_tags) {
                proof {
                    lemma_push_deep_view(before, feed.feed.tags, added);
                }
            } else {
                set_diagnostic(feed, limit_exceeded("Tag", limits.max_tags));
            }
        },
        None => {},
    }
}

/// The feed after an `<author>` was read. The first author is also the
/// main author of the feed.
pub open spec fn feed_with_author(
    feed: ParsedFeedView,
    person: PersonView,
    limits: ParserLimits,
) -> ParsedFeedView {
    let meta = feed.feed;
    if meta.authors.len() < limits.max_authors {
        let grown = FeedMetaView { authors: meta.authors.push(person), ..meta };
        if meta.author_detail is None {
            ParsedFeedView {
                feed: FeedMetaView { author: person.name, author_detail: Some(person), ..grown },
                ..feed
            }
        } else {
            ParsedFeedView { feed: grown, ..feed }
        }
    } else {
        with_diagnostic(feed, limit_message("Author", limits.max_authors))
    }
}

/// Stores an author in the feed.
pub fn add_feed_author(feed: &mut ParsedFeed, person: Person, limits: &ParserLimits)
    ensures
        final(feed).deep_view() == feed_with_author(
            old(feed).deep_view(),
            person.deep_view(),
            *limits,
        ),
{
    if feed.feed.authors.len() < limits.max_authors {
        if feed.feed.author_detail.is_none() {
            feed.feed.author = base_copy(&person.name);
            feed.feed.author_detail = Some(copy_person(&person));
        }
        let ghost before = feed.feed.authors;
        let ghost added = person;
        feed.feed.authors.push(person);
        proof {
            lemma_push_deep_view(before, feed.feed.authors, added);
        }
    } else {
        set_diagnostic(feed, limit_exceeded("Author", limits.max_authors));
    }
}

/// The feed after a `<contributor>` was read.
pub open spec fn feed_with_contributor(
    feed: ParsedFeedView,
    person: PersonView,
    limits: ParserLimits,
) -> ParsedFeedView {
    if feed.feed.contributors.len() < limits.max_contributors {
        ParsedFeedView {
            feed: FeedMetaView {
                contributors: feed.feed.contributors.push(person),
                ..feed.feed
            },
            ..feed
        }
    } else {
        with_diagnostic(feed, limit_message("Contributor", limits.max_contributors))
    }
}

/// Stores a contributor in the feed.
pub fn add_feed_contributor(feed: &mut ParsedFeed, person: Person, limits: &ParserLimits)
    ensures
        final(feed).deep_view() == feed_with_contributor(
            old(feed).deep_view(),
            person.deep_view(),
            *limits,
        ),
{
    let ghost before = feed.feed.contributors;
    let ghost added = person;
    if try_push_limited(&mut feed.feed.contributors, person, limits.max_contributors) {
        proof {
            lemma_push_deep_view(before, feed.feed.contributors, added);
        }
    } else {
        set_diagnostic(feed, limit_exceeded("Contributor", limits.max_contributors));
    }
}

/// The feed after the child element `name` of its `<feed>` element, which
/// has the attributes `attrs`, whose content is `[lo, hi)` and which sits
/// at `depth`, was read.
pub open spec fn atom_feed_child(
    events: Seq<XmlEventView>,
    lo: int,
    hi: int,
    name: Seq<u8>,
    attrs: Seq<XmlAttrView>,
    feed: ParsedFeedView,
    depth: usize,
    base: Option<Seq<char>>,
    limits: ParserLimits,
) -> Result<ParsedFeedView, FeedErrorView> {
    match atom_feed_field_of(name) {
        AtomFeedField::Link => match span_skip(events, lo, hi, depth, limits.max_nesting_depth) {
            Ok(_) => Ok(feed_with_link(feed, attrs, base, limits)),
            Err(e) => Err(e),
        },
        AtomFeedField::Category => match span_skip(events, lo, hi, depth, limits.max_nesting_depth) {
            Ok(_) => Ok(feed_with_category(feed, attrs, limits)),
            Err(e) => Err(e),
        },
        AtomFeedField::Author => match person_of(events, lo, hi, depth, limits) {
            Ok(person) => Ok(feed_with_author(feed, person, limits)),
            Err(e) => Ok(with_diagnostic(feed, e.message())),
        },
        AtomFeedField::Contributor => match person_of(events, lo, hi, depth, limits) {
            Ok(person) => Ok(feed_with_contributor(feed, person, limits)),
            Err(e) => Ok(with_diagnostic(feed, e.message())),
        },
        AtomFeedField::Entry => if feed.entries.len() >= limits.max_entries {
            match span_skip(events, lo, hi, depth, limits.max_nesting_depth) {
                Ok(_) => Ok(with_diagnostic(feed, limit_message("Entry", limits.max_entries))),
                Err(e) => Err(e),
            }
        } else {
            match atom_entry_of(events, lo, hi, depth, base_inside(base, attrs, limits), limits) {
                Ok(item) => Ok(feed_with_item(feed, item)),
                Err(e) => Ok(with_diagnostic(feed, e.message())),
            }
        },
        AtomFeedField::Other => match span_skip(events, lo, hi, depth, limits.max_nesting_depth) {
            Ok(_) => Ok(
                feed_with_extension(
                    feed,
                    extension_of(name),
                    attrs,
                    content_of_extension(events, lo, hi, extension_of(name), limits),
                    limits,
                ),
            ),
            Err(e) => Err(e),
        },
        field => match span_text(events, lo, hi, limits.max_text_length) {
            Ok(text) => Ok(feed_with_text(feed, field, text, attrs, base, limits)),
            Err(e) => Err(e),
        },
    }
}

/// The feed after the events in `[pos, hi)`, the rest of the content of a
/// `<feed>` at `depth`, were read, and the error that ended the reading
/// early, if one did.
pub open spec fn atom_feed_from(
    events: Seq<XmlEventView>,
    pos: int,
    hi: int,
    feed: ParsedFeedView,
    depth: usize,
    base: Option<Seq<char>>,
    limits: ParserLimits,
) -> (ParsedFeedView, Option<FeedErrorView>)
    decreases hi - pos,
{
    if pos < 0 || pos >= hi || hi > events.len() {
        (feed, None)
    } else {
        match events[pos] {
            XmlEventView::Start(name, attrs) => if depth + 1 > limits.max_nesting_depth {
                (feed, Some(too_deep(depth + 1, limits.max_nesting_depth)))
            } else {
                let close = close_index(events, pos + 1, hi, 0);
                proof {
                    lemma_close_index_bounds(events, pos + 1, hi, 0);
                }
                match atom_feed_child(
                    events,
                    pos + 1,
                    close,
                    name,
                    attrs,
                    feed,
                    capped(depth + 1),
                    base,
                    limits,
                ) {
                    Ok(next) => atom_feed_from(
                        events,
                        after_close(close, hi),
                        hi,
                        next,
                        depth,
                        base,
                        limits,
                    ),
                    Err(e) => (feed, Some(e)),
                }
            },
            XmlEventView::Error(message) => (feed, Some(FeedErrorView::XmlError(message))),
            _ => atom_feed_from(events, pos + 1, hi, feed, depth, base, limits),
        }
    }
}

/// Reads the child element `name` of a `<feed>`.
fn read_atom_feed_child(
    events: &Vec<XmlEvent>,
    lo: usize,
    hi: usize,
    name: &[u8],
    attrs: &Vec<XmlAttr>,
    feed: &mut ParsedFeed,
    limits: &ParserLimits,
    depth: usize,
    base: &Option<String>,
) -> (r: Result<(), FeedError>)
    requires
        lo <= hi <= events.len(),
    ensures
        match r {
            Ok(_) => atom_feed_child(
                events.deep_view(),
                lo as int,
                hi as int,
                name@,
                attrs.deep_view(),
                old(feed).deep_view(),
                depth,
                string_text_of(*base),
                *limits,
            ) == Ok::<ParsedFeedView, FeedErrorView>(final(feed).deep_view()),
            Err(e) => final(feed).deep_view() == old(feed).deep_view() && atom_feed_child(
                events.deep_view(),
                lo as int,
                hi as int,
                name@,
                attrs.deep_view(),
                old(feed).deep_view(),
                depth,
                string_text_of(*base),
                *limits,
            ) == Err::<ParsedFeedView, FeedErrorView>(e.deep_view()),
        },
{
    let field = atom_feed_field(name);
    match field {
        AtomFeedField::Link => match skip_element(events, lo, hi, limits, depth) {
            Ok(_) => {
                add_feed_link(feed, attrs, base, limits);
                Ok(())
            },
            Err(e) => Err(e),
        },
        AtomFeedField::Category => match skip_element(events, lo, hi, limits, depth) {
            Ok(_) => {
                add_feed_category(feed, attrs, limits);
                Ok(())
            },
            Err(e) => Err(e),
        },
        AtomFeedField::Author => {
            match parse_person(events, lo, hi, limits, depth) {
                Ok(person) => {
                    add_feed_author(feed, person, limits);
                },
                Err(e) => {
                    set_diagnostic(feed, e.to_string());
                },
            }
            Ok(())
        },
        AtomFeedField::Contributor => {
            match parse_person(events, lo, hi, limits, depth) {
                Ok(person) => {
                    add_feed_contributor(feed, person, limits);
                },
                Err(e) => {
                    set_diagnostic(feed, e.to_string());
                },
            }
            Ok(())
        },
        AtomFeedField::Entry => {
            if feed.entries.len() >= limits.max_entries {
                match skip_element(events, lo, hi, limits, depth) {
                    Ok(_) => {
                        set_diagnostic(feed, limit_exceeded("Entry", limits.max_entries));
                        Ok(())
                    },
                    Err(e) => Err(e),
                }
            } else {
                let inner = inner_base(base, attrs, limits);
                match parse_atom_entry(events, lo, hi, limits, depth, &inner) {
                    Ok(item) => {
                        add_item(feed, item);
                    },
                    Err(e) => {
                        set_diagnostic(feed, e.to_string());
                    },
                }
                Ok(())
            }
        },
        AtomFeedField::Other => match skip_element(events, lo, hi, limits, depth) {
            Ok(_) => {
                let ext = extension(name);
                if ext != Extension::Unknown {
                    let content = read_extension_content(events, lo, hi, ext, limits);
                    add_feed_extension(feed, ext, attrs, content, limits);
                } else {
                    proof {
                        lemma_unknown_extension_adds_nothing(
                            feed.deep_view(),
                            attrs.deep_view(),
                            content_of_extension(
                                events.deep_view(),
                                lo as int,
                                hi as int,
                                ext,
                                *limits,
                            ),
                            *limits,
                        );
                    }
                }
                Ok(())
            },
            Err(e) => Err(e),
        },
        _ => match read_text(events, lo, hi, limits) {
            Ok(text) => {
                set_feed_text(feed, field, text, attrs, base, limits);
                Ok(())
            },
            Err(e) => Err(e),
        },
    }
}

/// Reads the content `[lo, hi)` of a `<feed>` element that sits at `depth`
/// into the feed; inside the element `base` is in force.
///
/// Each child the format knows is stored; any other child is passed over.
/// What is wrong with a single child is recorded in the feed and reading
/// goes on with the next child. A child deeper than the nesting limit and
/// a tokenizer error in the element itself end the reading: the feed keeps
/// what was read so far and the error is returned.
pub fn parse_atom_feed(
    events: &Vec<XmlEvent>,
    lo: usize,
    hi: usize,
    feed: &mut ParsedFeed,
    limits: &ParserLimits,
    depth: usize,
    base: &Option<String>,
) -> (r: Result<(), FeedError>)
    requires
        lo <= hi <= events.len(),
    ensures
        (final(feed).deep_view(), error_of(r)) == atom_feed_from(
            events.deep_view(),
            lo as int,
            hi as int,
            old(feed).deep_view(),
            depth,
            string_text_of(*base),
            *limits,
        ),
{
    let mut pos: usize = lo;
    while pos < hi
        invariant
            lo <= pos <= hi <= events.len(),
            atom_feed_from(
                events.deep_view(),
                pos as int,
                hi as int,
                feed.deep_view(),
                depth,
                string_text_of(*base),
                *limits,
            ) == atom_feed_from(
                events.deep_view(),
                lo as int,
                hi as int,
                old(feed).deep_view(),
                depth,
                string_text_of(*base),
                *limits,
            ),
        decreases hi - pos,
    {
        match &events[pos] {
            XmlEvent::Start(name, attrs) => {
                if depth >= limits.max_nesting_depth {
                    return Err(nesting_error(capped_sum(depth, 1), limits.max_nesting_depth));
                }
                let close = find_close(events, pos + 1, hi);
                match read_atom_feed_child(
                    events,
                    pos + 1,
                    close,
                    name.as_slice(),
                    attrs,
                    feed,
                    limits,
                    depth + 1,
                    base,
                ) {
                    Ok(_) => {},
                    Err(e) => {
                        return Err(e);
                    },
                }
                pos = if close < hi {
                    close + 1
                } else {
                    hi
                };
            },
            XmlEvent::Error(message) => {
                return Err(FeedError::XmlError(message.clone()));
            },
            _ => {
                pos += 1;
            },
        }
    }
    Ok(())
}

/// The depth at which a `<feed>` sits: it is the root.
pub open spec fn feed_depth() -> usize {
    1
}

/// The feed after a `<feed>` with the attributes `attrs` and the content
/// `[lo, hi)` was read. What ends its reading early is recorded.
pub open spec fn whole_feed(
    events: Seq<XmlEventView>,
    lo: int,
    hi: int,
    attrs: Seq<XmlAttrView>,
    feed: ParsedFeedView,
    limits: ParserLimits,
) -> ParsedFeedView {
    let (read, error) = atom_feed_from(
        events,
        lo,
        hi,
        feed,
        feed_depth(),
        base_inside(None, attrs, limits),
        limits,
    );
    match error {
        Some(e) => with_diagnostic(read, e.message()),
        None => read,
    }
}

/// The feed after an `<entry>` that is a document by itself was read. What
/// ends its reading early is recorded.
pub open spec fn loose_entry(
    events: Seq<XmlEventView>,
    lo: int,
    hi: int,
    name: Seq<u8>,
    attrs: Seq<XmlAttrView>,
    feed: ParsedFeedView,
    limits: ParserLimits,
) -> ParsedFeedView {
    match atom_feed_child(events, lo, hi, name, attrs, feed, feed_depth(), None, limits) {
        Ok(read) => read,
        Err(e) => with_diagnostic(feed, e.message()),
    }
}

/// The feed after the events from `pos` on were read at the top level of
/// an Atom document.
pub open spec fn atom_document_from(
    events: Seq<XmlEventView>,
    pos: int,
    feed: ParsedFeedView,
    limits: ParserLimits,
) -> ParsedFeedView
    decreases events.len() - pos,
{
    if pos < 0 || pos >= events.len() {
        feed
    } else {
        match events[pos] {
            XmlEventView::Start(name, attrs) => {
                let noted = with_namespaces(feed, attrs, 0, limits);
                let hi = events.len() as int;
                let close = close_index(events, pos + 1, hi, 0);
                proof {
                    lemma_close_index_bounds(events, pos + 1, hi, 0);
                }
                if is_name(without_prefix(name, "atom:"), "feed") {
                    atom_document_from(
                        events,
                        after_close(close, hi),
                        whole_feed(events, pos + 1, close, attrs, noted, limits),
                        limits,
                    )
                } else if atom_feed_field_of(name) == AtomFeedField::Entry {
                    atom_document_from(
                        events,
                        after_close(close, hi),
                        loose_entry(events, pos + 1, close, name, attrs, noted, limits),
                        limits,
                    )
                } else {
                    atom_document_from(events, pos + 1, noted, limits)
                }
            },
            XmlEventView::Error(message) => with_diagnostic(
                feed,
                FeedErrorView::XmlError(message).message(),
            ),
            _ => atom_document_from(events, pos + 1, feed, limits),
        }
    }
}

/// The feed that every Atom parse starts from.
pub open spec fn blank_atom() -> ParsedFeedView {
    ParsedFeedView { version: FeedVersion::Atom10, ..ParsedFeedView::initial() }
}

/// The feed that a document with the given events describes as Atom.
pub open spec fn atom_feed(events: Seq<XmlEventView>, limits: ParserLimits) -> ParsedFeedView {
    atom_document_from(events, 0, blank_atom(), limits)
}

/// Reads a tokenized document as Atom.
///
/// Every start tag met at the top level has its namespace declarations
/// recorded. Every `<feed>` met there is read into the feed, and so is an
/// `<entry>` that is a document by itself. An error that ends the reading
/// of one of them is recorded and reading goes on behind it; a tokenizer
/// error outside of them is recorded and ends the reading. Either way the
/// feed read so far is returned.
pub fn parse_atom_events(events: &Vec<XmlEvent>, limits: &ParserLimits) -> (feed: ParsedFeed)
    ensures
        feed.deep_view() == atom_feed(events.deep_view(), *limits),
        feed.deep_view().well_formed(*limits),
{
    proof {
        lemma_atom_feed_well_formed(events.deep_view(), *limits);
    }
    let mut feed = init_feed(FeedVersion::Atom10, limits.max_entries);
    let hi = events.len();
    let mut pos: usize = 0;
    let root: Option<String> = None;
    while pos < hi
        invariant
            pos <= hi == events.len(),
            root is None,
            atom_feed(events.deep_view(), *limits).well_formed(*limits),
            atom_document_from(events.deep_view(), pos as int, feed.deep_view(), *limits)
                == atom_feed(events.deep_view(), *limits),
        decreases hi - pos,
    {
        match &events[pos] {
            XmlEvent::Start(name, attrs) => {
                record_namespaces(&mut feed, attrs, limits);
                if name_is(strip_prefix(name.as_slice(), "atom:"), "feed") {
                    let close = find_close(events, pos + 1, hi);
                    let base = inner_base(&root, attrs, limits);
                    match parse_atom_feed(events, pos + 1, close, &mut feed, limits, 1, &base) {
                        Ok(_) => {},
                        Err(e) => {
                            set_diagnostic(&mut feed, e.to_string());
                        },
                    }
                    pos = if close < hi {
                        close + 1
                    } else {
                        hi
                    };
                } else if atom_feed_field(name.as_slice()) == AtomFeedField::Entry {
                    let close = find_close(events, pos + 1, hi);
                    match read_atom_feed_child(
                        events,
                        pos + 1,
                        close,
                        name.as_slice(),
                        attrs,
                        &mut feed,
                        limits,
                        1,
                        &root,
                    ) {
                        Ok(_) => {},
                        Err(e) => {
                            set_diagnostic(&mut feed, e.to_string());
                        },
                    }
                    pos = if close < hi {
                        close + 1
                    } else {
                        hi
                    };
                } else {
                    pos += 1;
                }
            },
            XmlEvent::Error(message) => {
                set_diagnostic(&mut feed, FeedError::XmlError(message.clone()).to_string());
                return feed;
            },
            _ => {
                pos += 1;
            },
        }
    }
    feed
}

} // verus!
