//! The RSS 2.0 parser.
//!
//! A document is walked as a list of events. Each element that the format
//! knows is read from the span of events between its start tag and the end
//! tag that closes it, so that whatever an element holds, reading goes on
//! with its next sibling.

use vstd::prelude::*;
use vstd::utf8::encode_utf8;
use crate::error::{FeedError, FeedErrorView};
use crate::limits::{
    lemma_push_deep_view, limit_exceeded, limit_message, try_push_limited, ParserLimits,
};
use crate::parser::extension_invariants::lemma_unknown_extension_adds_nothing;
use crate::parser::extensions::{
    add_entry_extension, add_feed_extension, content_of_extension, entry_with_extension, extension,
    extension_of, feed_with_extension, read_extension_content, Extension,
};
use crate::parser::invariants::lemma_rss_feed_well_formed;
use crate::parser::namespaces::{record_namespaces, with_namespaces};
use crate::parser::common::{
    after_close, capped, capped_sum, close_index, find_close, is_name, lemma_close_index_bounds,
    name_is, nesting_error, read_text, skip_element, span_skip, span_text, too_deep,
};
use crate::text::{number_within, parse_u32};
use crate::types::common::{
    Enclosure, EnclosureView, Image, ImageView, Link, LinkView, Source, SourceView, Tag, TagView,
    TextConstruct, TextConstructView, TextType,
};
use crate::types::entry::{Entry, EntryView};
use crate::types::feed::{ParsedFeed, ParsedFeedView, FeedMetaView};
use crate::types::version::FeedVersion;
use crate::util::date::{parse_date, parsed_date};
use crate::xml::{tokenize, document_events, XmlAttr, XmlAttrView, XmlEvent, XmlEventView};

verus! {

/// The children of `<image>` that the parser reads.
#[derive(Debug, Clone, Copy, PartialEq, Eq, Structural)]
pub enum ImageField {
    Url,
    Title,
    Link,
    Width,
    Height,
    Description,
    Other,
}

/// Which child of `<image>` an element name stands for.
pub open spec fn image_field_of(name: Seq<u8>) -> ImageField {
    if is_name(name, "url") {
        ImageField::Url
    } else if is_name(name, "title") {
        ImageField::Title
    } else if is_name(name, "link") {
        ImageField::Link
    } else if is_name(name, "width") {
        ImageField::Width
    } else if is_name(name, "height") {
        ImageField::Height
    } else if is_name(name, "description") {
        ImageField::Description
    } else {
        ImageField::Other
    }
}

/// Which child of `<image>` an element name stands for.
pub fn image_field(name: &[u8]) -> (field: ImageField)
    ensures
        field == image_field_of(name@),
{
    if name_is(name, "url") {
        ImageField::Url
    } else if name_is(name, "title") {
        ImageField::Title
    } else if name_is(name, "link") {
        ImageField::Link
    } else if name_is(name, "width") {
        ImageField::Width
    } else if name_is(name, "height") {
        ImageField::Height
    } else if name_is(name, "description") {
        ImageField::Description
    } else {
        ImageField::Other
    }
}

/// The number of 32 bits that `text` writes, if it writes one.
pub open spec fn text_number(text: Seq<char>) -> Option<u32> {
    match number_within(encode_utf8(text), u32::MAX as nat) {
        Some(n) => Some(n as u32),
        None => None,
    }
}

/// Reads `text` as a number of 32 bits.
pub fn number_of(text: &String) -> (number: Option<u32>)
    ensures
        number == text_number(text@),
{
    parse_u32(text.as_str().as_bytes())
}

/// The image after its child `field` was read as `text`.
pub open spec fn image_with(image: ImageView, field: ImageField, text: Seq<char>) -> ImageView {
    match field {
        ImageField::Url => ImageView { url: text, ..image },
        ImageField::Title => ImageView { title: Some(text), ..image },
        ImageField::Link => ImageView { link: Some(text), ..image },
        ImageField::Width => match text_number(text) {
            Some(width) => ImageView { width: Some(width), ..image },
            None => image,
        },
        ImageField::Height => match text_number(text) {
            Some(height) => ImageView { height: Some(height), ..image },
            None => image,
        },
        ImageField::Description => ImageView { description: Some(text), ..image },
        ImageField::Other => image,
    }
}

/// Stores the text of the child `field` in the image.
pub fn set_image_field(image: &mut Image, field: ImageField, text: String)
    ensures
        final(image).deep_view() == image_with(old(image).deep_view(), field, text@),
{
    match field {
        ImageField::Url => {
            image.url = text;
        },
        ImageField::Title => {
            image.title = Some(text);
        },
        ImageField::Link => {
            image.link = Some(text);
        },
        ImageField::Width => {
            match number_of(&text) {
                Some(width) => {
                    image.width = Some(width);
                },
                None => {},
            }
        },
        ImageField::Height => {
            match number_of(&text) {
                Some(height) => {
                    image.height = Some(height);
                },
                None => {},
            }
        },
        ImageField::Description => {
            image.description = Some(text);
        },
        ImageField::Other => {},
    }
}

/// The image after the child element `name`, whose content is `[lo, hi)`
/// and which sits at `depth`, was read.
pub open spec fn image_child(
    events: Seq<XmlEventView>,
    lo: int,
    hi: int,
    name: Seq<u8>,
    image: ImageView,
    depth: usize,
    limits: ParserLimits,
) -> Result<ImageView, FeedErrorView> {
    if image_field_of(name) == ImageField::Other {
        match span_skip(events, lo, hi, depth, limits.max_nesting_depth) {
            Ok(_) => Ok(image),
            Err(e) => Err(e),
        }
    } else {
        match span_text(events, lo, hi, limits.max_text_length) {
            Ok(text) => Ok(image_with(image, image_field_of(name), text)),
            Err(e) => Err(e),
        }
    }
}

/// The image after the events in `[pos, hi)`, the rest of the content of an
/// `<image>` at `depth`, were read.
pub open spec fn image_from(
    events: Seq<XmlEventView>,
    pos: int,
    hi: int,
    image: ImageView,
    depth: usize,
    limits: ParserLimits,
) -> Result<ImageView, FeedErrorView>
    decreases hi - pos,
{
    if pos < 0 || pos >= hi || hi > events.len() {
        Ok(image)
    } else {
        match events[pos] {
            XmlEventView::Start(name, _) => if depth + 1 > limits.max_nesting_depth {
                Err(too_deep(depth + 1, limits.max_nesting_depth))
            } else {
                let close = close_index(events, pos + 1, hi, 0);
                proof {
                    lemma_close_index_bounds(events, pos + 1, hi, 0);
                }
                match image_child(events, pos + 1, close, name, image, capped(depth + 1), limits) {
                    Ok(next) => image_from(events, after_close(close, hi), hi, next, depth, limits),
                    Err(e) => Err(e),
                }
            },
            XmlEventView::Error(message) => Err(FeedErrorView::XmlError(message)),
            _ => image_from(events, pos + 1, hi, image, depth, limits),
        }
    }
}

/// An image of which nothing is known yet.
pub open spec fn blank_image() -> ImageView {
    ImageView {
        url: Seq::empty(),
        title: None,
        link: None,
        width: None,
        height: None,
        description: None,
    }
}

/// The image that the content `[lo, hi)` of an `<image>` at `depth`
/// describes. An image without a URL is an error.
pub open spec fn image_of(
    events: Seq<XmlEventView>,
    lo: int,
    hi: int,
    depth: usize,
    limits: ParserLimits,
) -> Result<ImageView, FeedErrorView> {
    match image_from(events, lo, hi, blank_image(), depth, limits) {
        Ok(image) => if image.url.len() == 0 {
            Err(FeedErrorView::InvalidFormat("Image missing url"@))
        } else {
            Ok(image)
        },
        Err(e) => Err(e),
    }
}

/// The value of a parsed image or the error in its place.
pub open spec fn image_result(r: Result<Image, FeedError>) -> Result<ImageView, FeedErrorView> {
    match r {
        Ok(image) => Ok(image.deep_view()),
        Err(e) => Err(e.deep_view()),
    }
}

/// Reads the child element `name` of an `<image>`.
fn read_image_child(
    events: &Vec<XmlEvent>,
    lo: usize,
    hi: usize,
    name: &[u8],
    image: &mut Image,
    limits: &ParserLimits,
    depth: usize,
) -> (r: Result<(), FeedError>)
    requires
        lo <= hi <= events.len(),
    ensures
        match r {
            Ok(_) => image_child(
                events.deep_view(),
                lo as int,
                hi as int,
                name@,
                old(image).deep_view(),
                depth,
                *limits,
            ) == Ok::<ImageView, FeedErrorView>(final(image).deep_view()),
            Err(e) => image_child(
                events.deep_view(),
                lo as int,
                hi as int,
                name@,
                old(image).deep_view(),
                depth,
                *limits,
            ) == Err::<ImageView, FeedErrorView>(e.deep_view()),
        },
{
    let field = image_field(name);
    if field == ImageField::Other {
        skip_element(events, lo, hi, limits, depth)
    } else {
        match read_text(events, lo, hi, limits) {
            Ok(text) => {
                set_image_field(image, field, text);
                Ok(())
            },
            Err(e) => Err(e),
        }
    }
}

/// Reads the content `[lo, hi)` of an `<image>` element that sits at
/// `depth`.
///
/// The children `url`, `title`, `link`, `width`, `height` and `description`
/// are stored, any other child is passed over. A child deeper than the
/// nesting limit, a tokenizer error, and an image without a URL are errors.
pub fn parse_image(
    events: &Vec<XmlEvent>,
    lo: usize,
    hi: usize,
    limits: &ParserLimits,
    depth: usize,
) -> (r: Result<Image, FeedError>)
    requires
        lo <= hi <= events.len(),
    ensures
        image_result(r) == image_of(events.deep_view(), lo as int, hi as int, depth, *limits),
{
    let mut image = Image {
        url: String::new(),
        title: None,
        link: None,
        width: None,
        height: None,
        description: None,
    };
    let mut pos: usize = lo;
    while pos < hi
        invariant
            lo <= pos <= hi <= events.len(),
            image_from(events.deep_view(), pos as int, hi as int, image.deep_view(), depth, *limits)
                == image_from(
                events.deep_view(),
                lo as int,
                hi as int,
                blank_image(),
                depth,
                *limits,
            ),
        decreases hi - pos,
    {
        match &events[pos] {
            XmlEvent::Start(name, _) => {
                if depth >= limits.max_nesting_depth {
                    return Err(nesting_error(capped_sum(depth, 1), limits.max_nesting_depth));
                }
                let close = find_close(events, pos + 1, hi);
                match read_image_child(
                    events,
                    pos + 1,
                    close,
                    name.as_slice(),
                    &mut image,
                    limits,
                    depth + 1,
                ) {
                    Ok(_) => {},
                    Err(e) => {
                        return Err(e);
                    },
                }
                pos = if close < hi {
                    close + 1
                } else {
                    hi
                };
            },
            XmlEvent::Error(message) => {
                return Err(FeedError::XmlError(message.clone()));
            },
            _ => {
                pos += 1;
            },
        }
    }
    if image.url.as_str().is_empty() {
        return Err(FeedError::InvalidFormat("Image missing url".to_owned()));
    }
    Ok(image)
}

/// The children of `<source>` that the parser reads.
#[derive(Debug, Clone, Copy, PartialEq, Eq, Structural)]
pub enum SourceField {
    Title,
    Url,
    Other,
}

/// Which child of `<source>` an element name stands for.
pub open spec fn source_field_of(name: Seq<u8>) -> SourceField {
    if is_name(name, "title") {
        SourceField::Title
    } else if is_name(name, "url") {
        SourceField::Url
    } else {
        SourceField::Other
    }
}

/// Which child of `<source>` an element name stands for.
pub fn source_field(name: &[u8]) -> (field: SourceField)
    ensures
        field == source_field_of(name@),
{
    if name_is(name, "title") {
        SourceField::Title
    } else if name_is(name, "url") {
        SourceField::Url
    } else {
        SourceField::Other
    }
}

/// The source after the child element `name`, whose content is `[lo, hi)`
/// and which sits at `depth`, was read.
pub open spec fn source_child(
    events: Seq<XmlEventView>,
    lo: int,
    hi: int,
    name: Seq<u8>,
    source: SourceView,
    depth: usize,
    limits: ParserLimits,
) -> Result<SourceView, FeedErrorView> {
    match source_field_of(name) {
        SourceField::Title => match span_text(events, lo, hi, limits.max_text_length) {
            Ok(text) => Ok(SourceView { title: Some(text), ..source }),
            Err(e) => Err(e),
        },
        SourceField::Url => match span_text(events, lo, hi, limits.max_text_length) {
            Ok(text) => Ok(SourceView { link: Some(text), ..source }),
            Err(e) => Err(e),
        },
        SourceField::Other => match span_skip(events, lo, hi, depth, limits.max_nesting_depth) {
            Ok(_) => Ok(source),
            Err(e) => Err(e),
        },
    }
}

/// The source after the events in `[pos, hi)`, the rest of the content of a
/// `<source>` at `depth`, were read.
pub open spec fn source_from(
    events: Seq<XmlEventView>,
    pos: int,
    hi: int,
    source: SourceView,
    depth: usize,
    limits: ParserLimits,
) -> Result<SourceView, FeedErrorView>
    decreases hi - pos,
{
    if pos < 0 || pos >= hi || hi > events.len() {
        Ok(source)
    } else {
        match events[pos] {
            XmlEventView::Start(name, _) => if depth + 1 > limits.max_nesting_depth {
                Err(too_deep(depth + 1, limits.max_nesting_depth))
            } else {
                let close = close_index(events, pos + 1, hi, 0);
                proof {
                    lemma_close_index_bounds(events, pos + 1, hi, 0);
                }
                match source_child(events, pos + 1, close, name, source, capped(depth + 1), limits) {
                    Ok(next) => source_from(
                        events,
                        after_close(close, hi),
                        hi,
                        next,
                        depth,
                        limits,
                    ),
                    Err(e) => Err(e),
                }
            },
            XmlEventView::Error(message) => Err(FeedErrorView::XmlError(message)),
            _ => source_from(events, pos + 1, hi, source, depth, limits),
        }
    }
}

/// A source of which nothing is known yet.
pub open spec fn blank_source() -> SourceView {
    SourceView { title: None, link: None, id: None }
}

/// The source that the content `[lo, hi)` of a `<source>` at `depth`
/// describes.
pub open spec fn source_of(
    events: Seq<XmlEventView>,
    lo: int,
    hi: int,
    depth: usize,
    limits: ParserLimits,
) -> Result<SourceView, FeedErrorView> {
    source_from(events, lo, hi, blank_source(), depth, limits)
}

/// The value of a parsed source or the error in its place.
pub open spec fn source_result(r: Result<Source, FeedError>) -> Result<SourceView, FeedErrorView> {
    match r {
        Ok(source) => Ok(source.deep_view()),
        Err(e) => Err(e.deep_view()),
    }
}

/// Reads the child element `name` of a `<source>`.
fn read_source_child(
    events: &Vec<XmlEvent>,
    lo: usize,
    hi: usize,
    name: &[u8],
    source: &mut Source,
    limits: &ParserLimits,
    depth: usize,
) -> (r: Result<(), FeedError>)
    requires
        lo <= hi <= events.len(),
    ensures
        match r {
            Ok(_) => source_child(
                events.deep_view(),
                lo as int,
                hi as int,
                name@,
                old(source).deep_view(),
                depth,
                *limits,
            ) == Ok::<SourceView, FeedErrorView>(final(source).deep_view()),
            Err(e) => source_child(
                events.deep_view(),
                lo as int,
                hi as int,
                name@,
                old(source).deep_view(),
                depth,
                *limits,
            ) == Err::<SourceView, FeedErrorView>(e.deep_view()),
        },
{
    match source_field(name) {
        SourceField::Title => match read_text(events, lo, hi, limits) {
            Ok(text) => {
                source.title = Some(text);
                Ok(())
            },
            Err(e) => Err(e),
        },
        SourceField::Url => match read_text(events, lo, hi, limits) {
            Ok(text) => {
                source.link = Some(text);
                Ok(())
            },
            Err(e) => Err(e),
        },
        SourceField::Other => skip_element(events, lo, hi, limits, depth),
    }
}

/// Reads the content `[lo, hi)` of a `<source>` element that sits at
/// `depth`.
///
/// The children `title` and `url` are stored, any other child is passed
/// over. A child deeper than the nesting limit and a tokenizer error are
/// errors.
pub fn parse_source(
    events: &Vec<XmlEvent>,
    lo: usize,
    hi: usize,
    limits: &ParserLimits,
    depth: usize,
) -> (r: Result<Source, FeedError>)
    requires
        lo <= hi <= events.len(),
    ensures
        source_result(r) == source_of(events.deep_view(), lo as int, hi as int, depth, *limits),
{
    let mut source = Source { title: None, link: None, id: None };
    let mut pos: usize = lo;
    while pos < hi
        invariant
            lo <= pos <= hi <= events.len(),
            source_from(
                events.deep_view(),
                pos as int,
                hi as int,
                source.deep_view(),
                depth,
                *limits,
            ) == source_of(events.deep_view(), lo as int, hi as int, depth, *limits),
        decreases hi - pos,
    {
        match &events[pos] {
            XmlEvent::Start(name, _) => {
                if depth >= limits.max_nesting_depth {
                    return Err(nesting_error(capped_sum(depth, 1), limits.max_nesting_depth));
                }
                let close = find_close(events, pos + 1, hi);
                match read_source_child(
                    events,
                    pos + 1,
                    close,
                    name.as_slice(),
                    &mut source,
                    limits,
                    depth + 1,
                ) {
                    Ok(_) => {},
                    Err(e) => {
                        return Err(e);
                    },
                }
                pos = if close < hi {
                    close + 1
                } else {
                    hi
                };
            },
            XmlEvent::Error(message) => {
                return Err(FeedError::XmlError(message.clone()));
            },
            _ => {
                pos += 1;
            },
        }
    }
    Ok(source)
}

/// The enclosure that the attributes of an `<enclosure>` describe.
pub fn parse_enclosure(attrs: &Vec<XmlAttr>, limits: &ParserLimits) -> (enclosure: Option<
    Enclosure,
>)
    ensures
        enclosure.deep_view() == EnclosureView::from_attributes(
            attrs.deep_view(),
            limits.max_attribute_length,
        ),
{
    Enclosure::from_attributes(attrs, limits.max_attribute_length)
}

/// What reading one `<item>` yields: the entry, and the last thing in it
/// that could not be read cleanly.
#[derive(Debug, Clone)]
pub struct ItemOutcome {
    /// The entry as far as it could be read.
    pub entry: Entry,
    /// What was wrong with the item, if anything was.
    pub diagnostic: Option<String>,
}

/// The mathematical value of an [`ItemOutcome`].
pub struct ItemOutcomeView {
    pub entry: EntryView,
    pub diagnostic: Option<Seq<char>>,
}

impl DeepView for ItemOutcome {
    type V = ItemOutcomeView;

    open spec fn deep_view(&self) -> ItemOutcomeView {
        ItemOutcomeView { entry: self.entry.deep_view(), diagnostic: self.diagnostic.deep_view() }
    }
}

/// The children of `<item>` that the parser reads.
#[derive(Debug, Clone, Copy, PartialEq, Eq, Structural)]
pub enum ItemField {
    Title,
    Link,
    Description,
    Guid,
    PubDate,
    Author,
    Category,
    Comments,
    Enclosure,
    Source,
    Other,
}

/// Which child of `<item>` an element name stands for.
pub open spec fn item_field_of(name: Seq<u8>) -> ItemField {
    if is_name(name, "title") {
        ItemField::Title
    } else if is_name(name, "link") {
        ItemField::Link
    } else if is_name(name, "description") {
        ItemField::Description
    } else if is_name(name, "guid") {
        ItemField::Guid
    } else if is_name(name, "pubDate") {
        ItemField::PubDate
    } else if is_name(name, "author") {
        ItemField::Author
    } else if is_name(name, "category") {
        ItemField::Category
    } else if is_name(name, "comments") {
        ItemField::Comments
    } else if is_name(name, "enclosure") {
        ItemField::Enclosure
    } else if is_name(name, "source") {
        ItemField::Source
    } else {
        ItemField::Other
    }
}

/// Which child of `<item>` an element name stands for.
pub fn item_field(name: &[u8]) -> (field: ItemField)
    ensures
        field == item_field_of(name@),
{
    if name_is(name, "title") {
        ItemField::Title
    } else if name_is(name, "link") {
        ItemField::Link
    } else if name_is(name, "description") {
        ItemField::Description
    } else if name_is(name, "guid") {
        ItemField::Guid
    } else if name_is(name, "pubDate") {
        ItemField::PubDate
    } else if name_is(name, "author") {
        ItemField::Author
    } else if name_is(name, "category") {
        ItemField::Category
    } else if name_is(name, "comments") {
        ItemField::Comments
    } else if name_is(name, "enclosure") {
        ItemField::Enclosure
    } else if name_is(name, "source") {
        ItemField::Source
    } else {
        ItemField::Other
    }
}

/// The link that the text of a `<link>` element stands for.
pub open spec fn alternate_link(href: Seq<char>) -> LinkView {
    LinkView {
        href,
        rel: Some("alternate"@),
        link_type: None,
        title: None,
        length: None,
        hreflang: None,
    }
}

/// The tag that the text of a `<category>` element stands for.
pub open spec fn plain_tag(term: Seq<char>) -> TagView {
    TagView { term, scheme: None, label: None }
}

/// The text construct that the text of a `<description>` stands for.
pub open spec fn html_text(value: Seq<char>) -> TextConstructView {
    TextConstructView { value, content_type: TextType::Html, language: None, base: None }
}

/// The item after its child `field` was read as `text`.
pub open spec fn item_with(
    item: ItemOutcomeView,
    field: ItemField,
    text: Seq<char>,
    limits: ParserLimits,
) -> ItemOutcomeView {
    let entry = item.entry;
    match field {
        ItemField::Title => ItemOutcomeView { entry: EntryView { title: Some(text), ..entry }, ..item },
        ItemField::Link => if text.len() == 0 {
            ItemOutcomeView { entry: EntryView { link: Some(text), ..entry }, ..item }
        } else if entry.links.len() < limits.max_links_per_entry {
            ItemOutcomeView {
                entry: EntryView {
                    link: Some(text),
                    links: entry.links.push(alternate_link(text)),
                    ..entry
                },
                ..item
            }
        } else {
            ItemOutcomeView {
                entry: EntryView { link: Some(text), ..entry },
                diagnostic: Some(limit_message("Link", limits.max_links_per_entry)),
            }
        },
        ItemField::Description => ItemOutcomeView {
            entry: EntryView {
                summary: Some(text),
                summary_detail: Some(html_text(text)),
                ..entry
            },
            ..item
        },
        ItemField::Guid => ItemOutcomeView { entry: EntryView { id: Some(text), ..entry }, ..item },
        ItemField::PubDate => match parsed_date(text) {
            Some(date) => ItemOutcomeView {
                entry: EntryView { published: Some(date), ..entry },
                ..item
            },
            None => if text.len() == 0 {
                item
            } else {
                ItemOutcomeView { diagnostic: Some("Invalid pubDate format"@), ..item }
            },
        },
        ItemField::Author => ItemOutcomeView {
            entry: EntryView { author: Some(text), ..entry },
            ..item
        },
        ItemField::Category => if text.len() == 0 {
            item
        } else if entry.tags.len() < limits.max_tags {
            ItemOutcomeView {
                entry: EntryView { tags: entry.tags.push(plain_tag(text)), ..entry },
                ..item
            }
        } else {
            ItemOutcomeView { diagnostic: Some(limit_message("Tag", limits.max_tags)), ..item }
        },
        ItemField::Comments => ItemOutcomeView {
            entry: EntryView { comments: Some(text), ..entry },
            ..item
        },
        _ => item,
    }
}

/// Stores the text of the child `field` in the item.
pub fn set_item_field(item: &mut ItemOutcome, field: ItemField, text: String, limits: &ParserLimits)
    ensures
        final(item).deep_view() == item_with(old(item).deep_view(), field, text@, *limits),
{
    match field {
        ItemField::Title => {
            item.entry.title = Some(text);
        },
        ItemField::Link => {
            item.entry.link = Some(text.clone());
            if !text.as_str().is_empty() {
                let link = Link {
                    href: text,
                    rel: Some("alternate".to_owned()),
                    link_type: None,
                    title: None,
                    length: None,
                    hreflang: None,
                };
                let ghost before = item.entry.links;
                let ghost added = link;
                if try_push_limited(&mut item.entry.links, link, limits.max_links_per_entry) {
                    proof {
                        lemma_push_deep_view(before, item.entry.links, added);
                    }
                } else {
                    item.diagnostic = Some(limit_exceeded("Link", limits.max_links_per_entry));
                }
            }
        },
        ItemField::Description => {
            item.entry.summary = Some(text.clone());
            item.entry.summary_detail = Some(
                TextConstruct {
                    value: text,
                    content_type: TextType::Html,
                    language: None,
                    base: None,
                },
            );
        },
        ItemField::Guid => {
            item.entry.id = Some(text);
        },
        ItemField::PubDate => {
            match parse_date(text.as_str()) {
                Some(date) => {
                    item.entry.published = Some(date);
                },
                None => {
                    if !text.as_str().is_empty() {
                        item.diagnostic = Some("Invalid pubDate format".to_owned());
                    }
                },
            }
        },
        ItemField::Author => {
            item.entry.author = Some(text);
        },
        ItemField::Category => {
            if !text.as_str().is_empty() {
                let tag = Tag { term: text, scheme: None, label: None };
                let ghost before = item.entry.tags;
                let ghost added = tag;
                if try_push_limited(&mut item.entry.tags, tag, limits.max_tags) {
                    proof {
                        lemma_push_deep_view(before, item.entry.tags, added);
                    }
                } else {
                    item.diagnostic = Some(limit_exceeded("Tag", limits.max_tags));
                }
            }
        },
        ItemField::Comments => {
            item.entry.comments = Some(text);
        },
        _ => {},
    }
}

/// The item after an `<enclosure>` with the attributes `attrs` was read.
pub open spec fn item_with_enclosure(
    item: ItemOutcomeView,
    attrs: Seq<XmlAttrView>,
    limits: ParserLimits,
) -> ItemOutcomeView {
    match EnclosureView::from_attributes(attrs, limits.max_attribute_length) {
        Some(enclosure) => if item.entry.enclosures.len() < limits.max_enclosures {
            ItemOutcomeView {
                entry: EntryView {
                    enclosures: item.entry.enclosures.push(enclosure),
                    ..item.entry
                },
                ..item
            }
        } else {
            ItemOutcomeView {
                diagnostic: Some(limit_message("Enclosure", limits.max_enclosures)),
                ..item
            }
        },
        None => item,
    }
}

/// Stores the enclosure that `attrs` describe in the item.
pub fn add_enclosure(item: &mut ItemOutcome, attrs: &Vec<XmlAttr>, limits: &ParserLimits)
    ensures
        final(item).deep_view() == item_with_enclosure(
            old(item).deep_view(),
            attrs.deep_view(),
            *limits,
        ),
{
    match parse_enclosure(attrs, limits) {
        Some(enclosure) => {
            let ghost before = item.entry.enclosures;
            let ghost added = enclosure;
            if try_push_limited(&mut item.entry.enclosures, enclosure, limits.max_enclosures) {
                proof {
                    lemma_push_deep_view(before, item.entry.enclosures, added);
                }
            } else {
                item.diagnostic = Some(limit_exceeded("Enclosure", limits.max_enclosures));
            }
        },
        None => {},
    }
}

/// The item after the child element `name` with the attributes `attrs`,
/// whose content is `[lo, hi)` and which sits at `depth`, was read.
pub open spec fn item_child(
    events: Seq<XmlEventView>,
    lo: int,
    hi: int,
    name: Seq<u8>,
    attrs: Seq<XmlAttrView>,
    item: ItemOutcomeView,
    depth: usize,
    limits: ParserLimits,
) -> Result<ItemOutcomeView, FeedErrorView> {
    match item_field_of(name) {
        ItemField::Enclosure => match span_skip(events, lo, hi, depth, limits.max_nesting_depth) {
            Ok(_) => Ok(item_with_enclosure(item, attrs, limits)),
            Err(e) => Err(e),
        },
        ItemField::Source => match source_of(events, lo, hi, depth, limits) {
            Ok(source) => Ok(
                ItemOutcomeView { entry: EntryView { source: Some(source), ..item.entry }, ..item },
            ),
            Err(e) => Ok(ItemOutcomeView { diagnostic: Some(e.message()), ..item }),
        },
        ItemField::Other => match span_skip(events, lo, hi, depth, limits.max_nesting_depth) {
            Ok(_) => Ok(
                entry_with_extension(
                    item,
                    extension_of(name),
                    attrs,
                    content_of_extension(events, lo, hi, extension_of(name), limits).text,
                    limits,
                ),
            ),
            Err(e) => Err(e),
        },
        field => match span_text(events, lo, hi, limits.max_text_length) {
            Ok(text) => Ok(item_with(item, field, text, limits)),
            Err(e) => Err(e),
        },
    }
}

/// The item after the events in `[pos, hi)`, the rest of the content of an
/// `<item>` at `depth`, were read.
pub open spec fn item_from(
    events: Seq<XmlEventView>,
    pos: int,
    hi: int,
    item: ItemOutcomeView,
    depth: usize,
    limits: ParserLimits,
) -> Result<ItemOutcomeView, FeedErrorView>
    decreases hi - pos,
{
    if pos < 0 || pos >= hi || hi > events.len() {
        Ok(item)
    } else {
        match events[pos] {
            XmlEventView::Start(name, attrs) => if depth + 1 > limits.max_nesting_depth {
                Err(too_deep(depth + 1, limits.max_nesting_depth))
            } else {
                let close = close_index(events, pos + 1, hi, 0);
                proof {
                    lemma_close_index_bounds(events, pos + 1, hi, 0);
                }
                match item_child(
                    events,
                    pos + 1,
                    close,
                    name,
                    attrs,
                    item,
                    capped(depth + 1),
                    limits,
                ) {
                    Ok(next) => item_from(events, after_close(close, hi), hi, next, depth, limits),
                    Err(e) => Err(e),
                }
            },
            XmlEventView::Error(message) => Err(FeedErrorView::XmlError(message)),
            _ => item_from(events, pos + 1, hi, item, depth, limits),
        }
    }
}

/// An item of which nothing is known yet.
pub open spec fn blank_item() -> ItemOutcomeView {
    ItemOutcomeView { entry: EntryView::empty(), diagnostic: None }
}

/// The entry that the content `[lo, hi)` of an `<item>` at `depth`
/// describes, with the last thing in it that could not be read cleanly.
pub open spec fn item_of(
    events: Seq<XmlEventView>,
    lo: int,
    hi: int,
    depth: usize,
    limits: ParserLimits,
) -> Result<ItemOutcomeView, FeedErrorView> {
    item_from(events, lo, hi, blank_item(), depth, limits)
}

/// The value of a parsed item or the error in its place.
pub open spec fn item_result(r: Result<ItemOutcome, FeedError>) -> Result<
    ItemOutcomeView,
    FeedErrorView,
> {
    match r {
        Ok(item) => Ok(item.deep_view()),
        Err(e) => Err(e.deep_view()),
    }
}

/// Reads the child element `name` of an `<item>`.
fn read_item_child(
    events: &Vec<XmlEvent>,
    lo: usize,
    hi: usize,
    name: &[u8],
    attrs: &Vec<XmlAttr>,
    item: &mut ItemOutcome,
    limits: &ParserLimits,
    depth: usize,
) -> (r: Result<(), FeedError>)
    requires
        lo <= hi <= events.len(),
    ensures
        match r {
            Ok(_) => item_child(
                events.deep_view(),
                lo as int,
                hi as int,
                name@,
                attrs.deep_view(),
                old(item).deep_view(),
                depth,
                *limits,
            ) == Ok::<ItemOutcomeView, FeedErrorView>(final(item).deep_view()),
            Err(e) => item_child(
                events.deep_view(),
                lo as int,
                hi as int,
                name@,
                attrs.deep_view(),
                old(item).deep_view(),
                depth,
                *limits,
            ) == Err::<ItemOutcomeView, FeedErrorView>(e.deep_view()),
        },
{
    let field = item_field(name);
    match field {
        ItemField::Enclosure => match skip_element(events, lo, hi, limits, depth) {
            Ok(_) => {
                add_enclosure(item, attrs, limits);
                Ok(())
            },
            Err(e) => Err(e),
        },
        ItemField::Source => {
            match parse_source(events, lo, hi, limits, depth) {
                Ok(source) => {
                    item.entry.source = Some(source);
                },
                Err(e) => {
                    item.diagnostic = Some(e.to_string());
                },
            }
            Ok(())
        },
        ItemField::Other => match skip_element(events, lo, hi, limits, depth) {
            Ok(_) => {
                let ext = extension(name);
                if ext != Extension::Unknown {
                    let content = read_extension_content(events, lo, hi, ext, limits);
                    add_entry_extension(item, ext, attrs, content.text, limits);
                }
                Ok(())
            },
            Err(e) => Err(e),
        },
        _ => match read_text(events, lo, hi, limits) {
            Ok(text) => {
                set_item_field(item, field, text, limits);
                Ok(())
            },
            Err(e) => Err(e),
        },
    }
}

/// Reads the content `[lo, hi)` of an `<item>` element that sits at
/// `depth`.
///
/// Each child the format knows is stored in the entry; any other child is
/// passed over. A date that cannot be read, a list that is full and a
/// `<source>` that cannot be read leave the entry standing and are reported
/// in the diagnostic, of which the last one is kept. A child deeper than
/// the nesting limit and a tokenizer error are errors, and then there is no
/// entry.
pub fn parse_item(
    events: &Vec<XmlEvent>,
    lo: usize,
    hi: usize,
    limits: &ParserLimits,
    depth: usize,
) -> (r: Result<ItemOutcome, FeedError>)
    requires
        lo <= hi <= events.len(),
    ensures
        item_result(r) == item_of(events.deep_view(), lo as int, hi as int, depth, *limits),
{
    let mut item = ItemOutcome { entry: Entry::with_capacity(), diagnostic: None };
    let mut pos: usize = lo;
    while pos < hi
        invariant
            lo <= pos <= hi <= events.len(),
            item_from(events.deep_view(), pos as int, hi as int, item.deep_view(), depth, *limits)
                == item_of(events.deep_view(), lo as int, hi as int, depth, *limits),
        decreases hi - pos,
    {
        match &events[pos] {
            XmlEvent::Start(name, attrs) => {
                if depth >= limits.max_nesting_depth {
                    return Err(nesting_error(capped_sum(depth, 1), limits.max_nesting_depth));
                }
                let close = find_close(events, pos + 1, hi);
                match read_item_child(
                    events,
                    pos + 1,
                    close,
                    name.as_slice(),
                    attrs,
                    &mut item,
                    limits,
                    depth + 1,
                ) {
                    Ok(_) => {},
                    Err(e) => {
                        return Err(e);
                    },
                }
                pos = if close < hi {
                    close + 1
                } else {
                    hi
                };
            },
            XmlEvent::Error(message) => {
                return Err(FeedError::XmlError(message.clone()));
            },
            _ => {
                pos += 1;
            },
        }
    }
    Ok(item)
}

/// The children of `<channel>` that the parser reads.
#[derive(Debug, Clone, Copy, PartialEq, Eq, Structural)]
pub enum ChannelField {
    Title,
    Link,
    Description,
    Language,
    PubDate,
    ManagingEditor,
    WebMaster,
    Generator,
    Ttl,
    Category,
    Image,
    Item,
    Other,
}

/// Which child of `<channel>` an element name stands for.
pub open spec fn channel_field_of(name: Seq<u8>) -> ChannelField {
    if is_name(name, "title") {
        ChannelField::Title
    } else if is_name(name, "link") {
        ChannelField::Link
    } else if is_name(name, "description") {
        ChannelField::Description
    } else if is_name(name, "language") {
        ChannelField::Language
    } else if is_name(name, "pubDate") {
        ChannelField::PubDate
    } else if is_name(name, "managingEditor") {
        ChannelField::ManagingEditor
    } else if is_name(name, "webMaster") {
        ChannelField::WebMaster
    } else if is_name(name, "generator") {
        ChannelField::Generator
    } else if is_name(name, "ttl") {
        ChannelField::Ttl
    } else if is_name(name, "category") {
        ChannelField::Category
    } else if is_name(name, "image") {
        ChannelField::Image
    } else if is_name(name, "item") {
        ChannelField::Item
    } else {
        ChannelField::Other
    }
}

/// Which child of `<channel>` an element name stands for.
pub fn channel_field(name: &[u8]) -> (field: ChannelField)
    ensures
        field == channel_field_of(name@),
{
    if name_is(name, "title") {
        ChannelField::Title
    } else if name_is(name, "link") {
        ChannelField::Link
    } else if name_is(name, "description") {
        ChannelField::Description
    } else if name_is(name, "language") {
        ChannelField::Language
    } else if name_is(name, "pubDate") {
        ChannelField::PubDate
    } else if name_is(name, "managingEditor") {
        ChannelField::ManagingEditor
    } else if name_is(name, "webMaster") {
        ChannelField::WebMaster
    } else if name_is(name, "generator") {
        ChannelField::Generator
    } else if name_is(name, "ttl") {
        ChannelField::Ttl
    } else if name_is(name, "category") {
        ChannelField::Category
    } else if name_is(name, "image") {
        ChannelField::Image
    } else if name_is(name, "item") {
        ChannelField::Item
    } else {
        ChannelField::Other
    }
}

/// The feed marked as not cleanly read, with `message` as the reason.
pub open spec fn with_diagnostic(feed: ParsedFeedView, message: Seq<char>) -> ParsedFeedView {
    ParsedFeedView { bozo: true, bozo_exception: Some(message), ..feed }
}

/// Marks the feed as not cleanly read, with `message` as the reason.
pub fn set_diagnostic(feed: &mut ParsedFeed, message: String)
    ensures
        final(feed).deep_view() == with_diagnostic(old(feed).deep_view(), message@),
{
    feed.bozo = true;
    feed.bozo_exception = Some(message);
}

/// The feed after the child `field` of its channel was read as `text`.
pub open spec fn channel_with(
    feed: ParsedFeedView,
    field: ChannelField,
    text: Seq<char>,
    limits: ParserLimits,
) -> ParsedFeedView {
    let meta = feed.feed;
    match field {
        ChannelField::Title => ParsedFeedView {
            feed: FeedMetaView { title: Some(text), ..meta },
            ..feed
        },
        ChannelField::Link => if text.len() == 0 {
            ParsedFeedView { feed: FeedMetaView { link: Some(text), ..meta }, ..feed }
        } else if meta.links.len() < limits.max_links_per_feed {
            ParsedFeedView {
                feed: FeedMetaView {
                    link: Some(text),
                    links: meta.links.push(alternate_link(text)),
                    ..meta
                },
                ..feed
            }
        } else {
            with_diagnostic(
                ParsedFeedView { feed: FeedMetaView { link: Some(text), ..meta }, ..feed },
                limit_message("Link", limits.max_links_per_feed),
            )
        },
        ChannelField::Description => ParsedFeedView {
            feed: FeedMetaView { subtitle: Some(text), ..meta },
            ..feed
        },
        ChannelField::Language => ParsedFeedView {
            feed: FeedMetaView { language: Some(text), ..meta },
            ..feed
        },
        ChannelField::PubDate => match parsed_date(text) {
            Some(date) => ParsedFeedView {
                feed: FeedMetaView { updated: Some(date), ..meta },
                ..feed
            },
            None => if text.len() == 0 {
                feed
            } else {
                with_diagnostic(feed, "Invalid pubDate format"@)
            },
        },
        ChannelField::ManagingEditor => ParsedFeedView {
            feed: FeedMetaView { author: Some(text), ..meta },
            ..feed
        },
        ChannelField::WebMaster => ParsedFeedView {
            feed: FeedMetaView { publisher: Some(text), ..meta },
            ..feed
        },
        ChannelField::Generator => ParsedFeedView {
            feed: FeedMetaView { generator: Some(text), ..meta },
            ..feed
        },
        ChannelField::Ttl => ParsedFeedView {
            feed: FeedMetaView { ttl: text_number(text), ..meta },
            ..feed
        },
        ChannelField::Category => if text.len() == 0 {
            feed
        } else if meta.tags.len() < limits.max_tags {
            ParsedFeedView {
                feed: FeedMetaView { tags: meta.tags.push(plain_tag(text)), ..meta },
                ..feed
            }
        } else {
            with_diagnostic(feed, limit_message("Tag", limits.max_tags))
        },
        _ => feed,
    }
}

/// Stores the text of the child `field` of the channel in the feed.
pub fn set_channel_field(
    feed: &mut ParsedFeed,
    field: ChannelField,
    text: String,
    limits: &ParserLimits,
)
    ensures
        final(feed).deep_view() == channel_with(old(feed).deep_view(), field, text@, *limits),
{
    match field {
        ChannelField::Title => {
            feed.feed.title = Some(text);
        },
        ChannelField::Link => {
            feed.feed.link = Some(text.clone());
            if !text.as_str().is_empty() {
                let link = Link {
                    href: text,
                    rel: Some("alternate".to_owned()),
                    link_type: None,
                    title: None,
                    length: None,
                    hreflang: None,
                };
                let ghost before = feed.feed.links;
                let ghost added = link;
                if try_push_limited(&mut feed.feed.links, link, limits.max_links_per_feed) {
                    proof {
                        lemma_push_deep_view(before, feed.feed.links, added);
                    }
                } else {
                    set_diagnostic(feed, limit_exceeded("Link", limits.max_links_per_feed));
                }
            }
        },
        ChannelField::Description => {
            feed.feed.subtitle = Some(text);
        },
        ChannelField::Language => {
            feed.feed.language = Some(text);
        },
        ChannelField::PubDate => {
            match parse_date(text.as_str()) {
                Some(date) => {
                    feed.feed.updated = Some(date);
                },
                None => {
                    if !text.as_str().is_empty() {
                        set_diagnostic(feed, "Invalid pubDate format".to_owned());
                    }
                },
            }
        },
        ChannelField::ManagingEditor => {
            feed.feed.author = Some(text);
        },
        ChannelField::WebMaster => {
            feed.feed.publisher = Some(text);
        },
        ChannelField::Generator => {
            feed.feed.generator = Some(text);
        },
        ChannelField::Ttl => {
            feed.feed.ttl = number_of(&text);
        },
        ChannelField::Category => {
            if !text.as_str().is_empty() {
                let tag = Tag { term: text, scheme: None, label: None };
                let ghost before = feed.feed.tags;
                let ghost added = tag;
                if try_push_limited(&mut feed.feed.tags, tag, limits.max_tags) {
                    proof {
                        lemma_push_deep_view(before, feed.feed.tags, added);
                    }
                } else {
                    set_diagnostic(feed, limit_exceeded("Tag", limits.max_tags));
                }
            }
        },
        _ => {},
    }
}

/// The feed after an item was read: the entry is appended, and what was
/// wrong with the item is what is wrong with the feed.
pub open spec fn feed_with_item(feed: ParsedFeedView, item: ItemOutcomeView) -> ParsedFeedView {
    let grown = ParsedFeedView { entries: feed.entries.push(item.entry), ..feed };
    match item.diagnostic {
        Some(message) => with_diagnostic(grown, message),
        None => grown,
    }
}

/// Appends the entry of an item to the feed and takes over its diagnostic.
pub fn add_item(feed: &mut ParsedFeed, item: ItemOutcome)
    ensures
        final(feed).deep_view() == feed_with_item(old(feed).deep_view(), item.deep_view()),
{
    let ghost before = feed.entries;
    let ghost added = item.entry;
    feed.entries.push(item.entry);
    proof {
        lemma_push_deep_view(before, feed.entries, added);
    }
    match item.diagnostic {
        Some(message) => {
            set_diagnostic(feed, message);
        },
        None => {},
    }
}

/// The feed after the child element `name` of its channel, whose content is
/// `[lo, hi)` and which sits at `depth`, was read.
pub open spec fn channel_child(
    events: Seq<XmlEventView>,
    lo: int,
    hi: int,
    name: Seq<u8>,
    attrs: Seq<XmlAttrView>,
    feed: ParsedFeedView,
    depth: usize,
    limits: ParserLimits,
) -> Result<ParsedFeedView, FeedErrorView> {
    match channel_field_of(name) {
        ChannelField::Image => match image_of(events, lo, hi, depth, limits) {
            Ok(image) => Ok(
                ParsedFeedView { feed: FeedMetaView { image: Some(image), ..feed.feed }, ..feed },
            ),
            Err(e) => Ok(with_diagnostic(feed, e.message())),
        },
        ChannelField::Item => if feed.entries.len() >= limits.max_entries {
            match span_skip(events, lo, hi, depth, limits.max_nesting_depth) {
                Ok(_) => Ok(with_diagnostic(feed, limit_message("Entry", limits.max_entries))),
                Err(e) => Err(e),
            }
        } else {
            match item_of(events, lo, hi, depth, limits) {
                Ok(item) => Ok(feed_with_item(feed, item)),
                Err(e) => Ok(with_diagnostic(feed, e.message())),
            }
        },
        ChannelField::Other => match span_skip(events, lo, hi, depth, limits.max_nesting_depth) {
            Ok(_) => Ok(
                feed_with_extension(
                    feed,
                    extension_of(name),
                    attrs,
                    content_of_extension(events, lo, hi, extension_of(name), limits),
                    limits,
                ),
            ),
            Err(e) => Err(e),
        },
        field => match span_text(events, lo, hi, limits.max_text_length) {
            Ok(text) => Ok(channel_with(feed, field, text, limits)),
            Err(e) => Err(e),
        },
    }
}

/// The feed after the events in `[pos, hi)`, the rest of the content of a
/// `<channel>` at `depth`, were read, and the error that ended the reading
/// early, if one did.
pub open spec fn channel_from(
    events: Seq<XmlEventView>,
    pos: int,
    hi: int,
    feed: ParsedFeedView,
    depth: usize,
    limits: ParserLimits,
) -> (ParsedFeedView, Option<FeedErrorView>)
    decreases hi - pos,
{
    if pos < 0 || pos >= hi || hi > events.len() {
        (feed, None)
    } else {
        match events[pos] {
            XmlEventView::Start(name, attrs) => if depth + 1 > limits.max_nesting_depth {
                (feed, Some(too_deep(depth + 1, limits.max_nesting_depth)))
            } else {
                let close = close_index(events, pos + 1, hi, 0);
                proof {
                    lemma_close_index_bounds(events, pos + 1, hi, 0);
                }
                match channel_child(
                    events,
                    pos + 1,
                    close,
                    name,
                    attrs,
                    feed,
                    capped(depth + 1),
                    limits,
                ) {
                    Ok(next) => channel_from(
                        events,
                        after_close(close, hi),
                        hi,
                        next,
                        depth,
                        limits,
                    ),
                    Err(e) => (feed, Some(e)),
                }
            },
            XmlEventView::Error(message) => (feed, Some(FeedErrorView::XmlError(message))),
            _ => channel_from(events, pos + 1, hi, feed, depth, limits),
        }
    }
}

/// The value of an error that may be there.
pub open spec fn error_of(r: Result<(), FeedError>) -> Option<FeedErrorView> {
    match r {
        Ok(_) => None,
        Err(e) => Some(e.deep_view()),
    }
}

/// Reads the child element `name` of a `<channel>`.
fn read_channel_child(
    events: &Vec<XmlEvent>,
    lo: usize,
    hi: usize,
    name: &[u8],
    attrs: &Vec<XmlAttr>,
    feed: &mut ParsedFeed,
    limits: &ParserLimits,
    depth: usize,
) -> (r: Result<(), FeedError>)
    requires
        lo <= hi <= events.len(),
    ensures
        match r {
            Ok(_) => channel_child(
                events.deep_view(),
                lo as int,
                hi as int,
                name@,
                attrs.deep_view(),
                old(feed).deep_view(),
                depth,
                *limits,
            ) == Ok::<ParsedFeedView, FeedErrorView>(final(feed).deep_view()),
            Err(e) => final(feed).deep_view() == old(feed).deep_view() && channel_child(
                events.deep_view(),
                lo as int,
                hi as int,
                name@,
                attrs.deep_view(),
                old(feed).deep_view(),
                depth,
                *limits,
            ) == Err::<ParsedFeedView, FeedErrorView>(e.deep_view()),
        },
{
    let field = channel_field(name);
    match field {
        ChannelField::Image => {
            match parse_image(events, lo, hi, limits, depth) {
                Ok(image) => {
                    feed.feed.image = Some(image);
                },
                Err(e) => {
                    set_diagnostic(feed, e.to_string());
                },
            }
            Ok(())
        },
        ChannelField::Item => {
            if feed.entries.len() >= limits.max_entries {
                match skip_element(events, lo, hi, limits, depth) {
                    Ok(_) => {
                        set_diagnostic(feed, limit_exceeded("Entry", limits.max_entries));
                        Ok(())
                    },
                    Err(e) => Err(e),
                }
            } else {
                match parse_item(events, lo, hi, limits, depth) {
                    Ok(item) => {
                        add_item(feed, item);
                    },
                    Err(e) => {
                        set_diagnostic(feed, e.to_string());
                    },
                }
                Ok(())
            }
        },
        ChannelField::Other => match skip_element(events, lo, hi, limits, depth) {
            Ok(_) => {
                let ext = extension(name);
                if ext != Extension::Unknown {
                    let content = read_extension_content(events, lo, hi, ext, limits);
                    add_feed_extension(feed, ext, attrs, content, limits);
                } else {
                    proof {
                        lemma_unknown_extension_adds_nothing(
                            feed.deep_view(),
                            attrs.deep_view(),
                            content_of_extension(
                                events.deep_view(),
                                lo as int,
                                hi as int,
                                ext,
                                *limits,
                            ),
                            *limits,
                        );
                    }
                }
                Ok(())
            },
            Err(e) => Err(e),
        },
        _ => match read_text(events, lo, hi, limits) {
            Ok(text) => {
                set_channel_field(feed, field, text, limits);
                Ok(())
            },
            Err(e) => Err(e),
        },
    }
}

/// Reads the content `[lo, hi)` of a `<channel>` element that sits at
/// `depth` into the feed.
///
/// Each child the format knows is stored; any other child is passed over.
/// What is wrong with a single child (a date that cannot be read, a list
/// that is full, an image or an item that cannot be read) is recorded in
/// the feed and reading goes on with the next child. A child deeper than
/// the nesting limit and a tokenizer error in the channel itself end the
/// reading: the feed keeps what was read so far and the error is returned.
pub fn parse_channel(
    events: &Vec<XmlEvent>,
    lo: usize,
    hi: usize,
    feed: &mut ParsedFeed,
    limits: &ParserLimits,
    depth: usize,
) -> (r: Result<(), FeedError>)
    requires
        lo <= hi <= events.len(),
    ensures
        (final(feed).deep_view(), error_of(r)) == channel_from(
            events.deep_view(),
            lo as int,
            hi as int,
            old(feed).deep_view(),
            depth,
            *limits,
        ),
{
    let mut pos: usize = lo;
    while pos < hi
        invariant
            lo <= pos <= hi <= events.len(),
            channel_from(events.deep_view(), pos as int, hi as int, feed.deep_view(), depth, *limits)
                == channel_from(
                events.deep_view(),
                lo as int,
                hi as int,
                old(feed).deep_view(),
                depth,
                *limits,
            ),
        decreases hi - pos,
    {
        match &events[pos] {
            XmlEvent::Start(name, attrs) => {
                if depth >= limits.max_nesting_depth {
                    return Err(nesting_error(capped_sum(depth, 1), limits.max_nesting_depth));
                }
                let close = find_close(events, pos + 1, hi);
                match read_channel_child(
                    events,
                    pos + 1,
                    close,
                    name.as_slice(),
                    attrs,
                    feed,
                    limits,
                    depth + 1,
                ) {
                    Ok(_) => {},
                    Err(e) => {
                        return Err(e);
                    },
                }
                pos = if close < hi {
                    close + 1
                } else {
                    hi
                };
            },
            XmlEvent::Error(message) => {
                return Err(FeedError::XmlError(message.clone()));
            },
            _ => {
                pos += 1;
            },
        }
    }
    Ok(())
}

/// The depth at which a `<channel>` sits: right below the root.
pub open spec fn channel_depth() -> usize {
    2
}

/// The feed after a child of the root was read that is an element by
/// itself: an `<item>` outside a channel, as RSS 1.0 has them, whose
/// content is `[lo, hi)`. What ends its reading early is recorded.
pub open spec fn loose_item(
    events: Seq<XmlEventView>,
    lo: int,
    hi: int,
    name: Seq<u8>,
    attrs: Seq<XmlAttrView>,
    feed: ParsedFeedView,
    limits: ParserLimits,
) -> ParsedFeedView {
    match channel_child(events, lo, hi, name, attrs, feed, channel_depth(), limits) {
        Ok(read) => read,
        Err(e) => with_diagnostic(feed, e.message()),
    }
}

/// The feed after a channel with the content `[lo, hi)` was read. What
/// ends its reading early is recorded.
pub open spec fn whole_channel(
    events: Seq<XmlEventView>,
    lo: int,
    hi: int,
    feed: ParsedFeedView,
    limits: ParserLimits,
) -> ParsedFeedView {
    let (read, error) = channel_from(events, lo, hi, feed, channel_depth(), limits);
    match error {
        Some(e) => with_diagnostic(read, e.message()),
        None => read,
    }
}

/// The feed after the events from `pos` on were read at the top level of
/// the document.
pub open spec fn document_from(
    events: Seq<XmlEventView>,
    pos: int,
    feed: ParsedFeedView,
    limits: ParserLimits,
) -> ParsedFeedView
    decreases events.len() - pos,
{
    if pos < 0 || pos >= events.len() {
        feed
    } else {
        match events[pos] {
            XmlEventView::Start(name, attrs) => {
                let noted = with_namespaces(feed, attrs, 0, limits);
                let hi = events.len() as int;
                let close = close_index(events, pos + 1, hi, 0);
                proof {
                    lemma_close_index_bounds(events, pos + 1, hi, 0);
                }
                if is_name(name, "channel") {
                    document_from(
                        events,
                        after_close(close, hi),
                        whole_channel(events, pos + 1, close, noted, limits),
                        limits,
                    )
                } else if channel_field_of(name) == ChannelField::Item {
                    document_from(
                        events,
                        after_close(close, hi),
                        loose_item(events, pos + 1, close, name, attrs, noted, limits),
                        limits,
                    )
                } else {
                    document_from(events, pos + 1, noted, limits)
                }
            },
            XmlEventView::Error(message) => with_diagnostic(
                feed,
                FeedErrorView::XmlError(message).message(),
            ),
            _ => document_from(events, pos + 1, feed, limits),
        }
    }
}

/// The feed that every RSS parse starts from.
pub open spec fn blank_rss() -> ParsedFeedView {
    ParsedFeedView { version: FeedVersion::Rss20, ..ParsedFeedView::initial() }
}

/// The feed that a document with the given events describes as RSS 2.0.
pub open spec fn rss_feed(events: Seq<XmlEventView>, limits: ParserLimits) -> ParsedFeedView {
    document_from(events, 0, blank_rss(), limits)
}

/// An empty feed of the given format, with room for entries.
pub fn init_feed(version: FeedVersion, max_entries: usize) -> (feed: ParsedFeed)
    ensures
        feed.deep_view() == (ParsedFeedView { version, ..ParsedFeedView::initial() }),
{
    let room = if max_entries < 100 {
        max_entries
    } else {
        100
    };
    let mut feed = ParsedFeed::with_capacity(room);
    feed.version = version;
    feed
}

/// Reads a tokenized document as RSS.
///
/// Every start tag met at the top level has its namespace declarations
/// recorded. Every `<channel>` met there is read into the feed, and so is
/// every `<item>` that stands outside a channel. An error that ends the
/// reading of a channel or of such an item is recorded and reading goes on
/// behind it; a tokenizer error outside of them is recorded and ends the
/// reading. Either way the feed read so far is returned.
pub fn parse_rss20_events(events: &Vec<XmlEvent>, limits: &ParserLimits) -> (feed: ParsedFeed)
    ensures
        feed.deep_view() == rss_feed(events.deep_view(), *limits),
        feed.deep_view().well_formed(*limits),
{
    proof {
        lemma_rss_feed_well_formed(events.deep_view(), *limits);
    }
    let mut feed = init_feed(FeedVersion::Rss20, limits.max_entries);
    let hi = events.len();
    let mut pos: usize = 0;
    while pos < hi
        invariant
            pos <= hi == events.len(),
            rss_feed(events.deep_view(), *limits).well_formed(*limits),
            document_from(events.deep_view(), pos as int, feed.deep_view(), *limits) == rss_feed(
                events.deep_view(),
                *limits,
            ),
        decreases hi - pos,
    {
        match &events[pos] {
            XmlEvent::Start(name, attrs) => {
                record_namespaces(&mut feed, attrs, limits);
                if name_is(name.as_slice(), "channel") {
                    let close = find_close(events, pos + 1, hi);
                    match parse_channel(events, pos + 1, close, &mut feed, limits, 2) {
                        Ok(_) => {},
                        Err(e) => {
                            set_diagnostic(&mut feed, e.to_string());
                        },
                    }
                    pos = if close < hi {
                        close + 1
                    } else {
                        hi
                    };
                } else if channel_field(name.as_slice()) == ChannelField::Item {
                    let close = find_close(events, pos + 1, hi);
                    match read_channel_child(
                        events,
                        pos + 1,
                        close,
                        name.as_slice(),
                        attrs,
                        &mut feed,
                        limits,
                        2,
                    ) {
                        Ok(_) => {},
                        Err(e) => {
                            set_diagnostic(&mut feed, e.to_string());
                        },
                    }
                    pos = if close < hi {
                        close + 1
                    } else {
                        hi
                    };
                } else {
                    pos += 1;
                }
            },
            XmlEvent::Error(message) => {
                set_diagnostic(&mut feed, FeedError::XmlError(message.clone()).to_string());
                return feed;
            },
            _ => {
                pos += 1;
            },
        }
    }
    feed
}

/// The error for an input that is larger than the limit allows.
pub open spec fn too_large(size: usize, max: usize) -> FeedErrorView {
    FeedErrorView::InvalidFormat(crate::limits::LimitError::FeedTooLarge { size, max }.message())
}

/// The value of a parse: the feed, or the error in its place.
pub open spec fn feed_result(r: Result<ParsedFeed, FeedError>) -> Result<
    ParsedFeedView,
    FeedErrorView,
> {
    match r {
        Ok(feed) => Ok(feed.deep_view()),
        Err(e) => Err(e.deep_view()),
    }
}

/// What `parse_rss20_with_limits` returns for `data`.
pub open spec fn rss_result(data: Seq<u8>, limits: ParserLimits) -> Result<
    ParsedFeedView,
    FeedErrorView,
> {
    if data.len() > limits.max_feed_size_bytes {
        Err(too_large(data.len() as usize, limits.max_feed_size_bytes))
    } else {
        Ok(rss_feed(document_events(data), limits))
    }
}

/// Parses `data` as RSS 2.0 within the given limits.
///
/// An input larger than `max_feed_size_bytes` is refused before any of it
/// is read. Every other input yields a feed: what could not be read
/// cleanly is reported in its `bozo` flag.
pub fn parse_rss20_with_limits(data: &[u8], limits: ParserLimits) -> (r: Result<
    ParsedFeed,
    FeedError,
>)
    ensures
        feed_result(r) == rss_result(data@, limits),
        r is Err <==> data@.len() > limits.max_feed_size_bytes,
        r is Ok ==> r->Ok_0.deep_view().well_formed(limits),
{
    match limits.check_feed_size(data.len()) {
        Ok(_) => {},
        Err(e) => {
            return Err(FeedError::InvalidFormat(e.to_string()));
        },
    }
    let events = tokenize(data);
    Ok(parse_rss20_events(&events, &limits))
}

/// Parses `data` as RSS 2.0 within the default limits.
pub fn parse_rss20(data: &[u8]) -> (r: Result<ParsedFeed, FeedError>)
    ensures
        feed_result(r) == rss_result(data@, ParserLimits::default_limits()),
        r is Err <==> data@.len() > ParserLimits::default_limits().max_feed_size_bytes,
        r is Ok ==> r->Ok_0.deep_view().well_formed(ParserLimits::default_limits()),
{
    parse_rss20_with_limits(data, ParserLimits::default())
}

} // verus!
