//! Elements of other namespaces that add to a feed or an entry: Dublin
//! Core, Syndication, `content:encoded`, iTunes, Podcast 2.0, Media RSS and
//! GeoRSS. An element is known by the prefix it is commonly written with.

use vstd::prelude::*;
use crate::limits::{
    lemma_push_deep_view, limit_exceeded, limit_message, try_push_limited, ParserLimits,
};
use crate::parser::common::{
    after_close, close_index, find_close, is_name, lemma_close_index_bounds, name_is, read_text,
    span_text,
};
use crate::parser::rss::{
    number_of, set_diagnostic, text_number, with_diagnostic, ItemOutcome, ItemOutcomeView,
};
use crate::parser::values::{
    duration_seconds, explicit_flag, list_items, location_of, parse_duration, parse_explicit,
    parse_location, parse_yes, split_list, yes_flag,
};
use crate::text::{number_within, parse_u32};
use crate::types::common::{
    attr_number, attr_text, attr_value, find_attr, find_number, find_text, Content, ContentView,
    Link, LinkView,
};
use crate::types::entry::{Entry, EntryView};
use crate::types::extensions::{
    GeoKind, ItunesCategory, ItunesCategoryView, ItunesEntryMeta, ItunesEntryMetaView,
    ItunesFeedMeta, ItunesFeedMetaView, ItunesOwner, ItunesOwnerView, MediaContent,
    MediaContentView, MediaThumbnail, MediaThumbnailView, PodcastFunding, PodcastFundingView,
    PodcastMeta, PodcastMetaView, PodcastPerson, PodcastPersonView, PodcastTranscript,
    PodcastTranscriptView, SyndicationMeta, SyndicationMetaView,
};
use crate::types::feed::{FeedMetaView, ParsedFeed, ParsedFeedView};
use crate::util::date::{parse_date, parsed_date};
use crate::xml::{XmlAttr, XmlAttrView, XmlEvent, XmlEventView};

verus! {

/// The extension elements that the parser reads.
#[derive(Debug, Clone, Copy, PartialEq, Eq, Structural)]
pub enum Extension {
    ContentEncoded,
    AtomLink,
    DcCreator,
    DcDate,
    DcSubject,
    DcRights,
    DcPublisher,
    SyUpdatePeriod,
    SyUpdateFrequency,
    SyUpdateBase,
    ItunesAuthor,
    ItunesExplicit,
    ItunesImage,
    ItunesKeywords,
    ItunesType,
    ItunesComplete,
    ItunesNewFeedUrl,
    ItunesOwner,
    ItunesCategory,
    ItunesTitle,
    ItunesDuration,
    ItunesEpisode,
    ItunesSeason,
    ItunesEpisodeType,
    PodcastTranscript,
    PodcastFunding,
    PodcastPerson,
    PodcastGuid,
    MediaThumbnail,
    MediaContent,
    GeoPoint,
    GeoLine,
    GeoPolygon,
    GeoBox,
    Unknown,
}

/// Which extension element a name stands for.
pub open spec fn extension_of(name: Seq<u8>) -> Extension {
    if is_name(name, "content:encoded") {
        Extension::ContentEncoded
    } else if is_name(name, "atom:link") {
        Extension::AtomLink
    } else if is_name(name, "dc:creator") {
        Extension::DcCreator
    } else if is_name(name, "dc:date") {
        Extension::DcDate
    } else if is_name(name, "dc:subject") {
        Extension::DcSubject
    } else if is_name(name, "dc:rights") {
        Extension::DcRights
    } else if is_name(name, "dc:publisher") {
        Extension::DcPublisher
    } else if is_name(name, "sy:updatePeriod") {
        Extension::SyUpdatePeriod
    } else if is_name(name, "sy:updateFrequency") {
        Extension::SyUpdateFrequency
    } else if is_name(name, "sy:updateBase") {
        Extension::SyUpdateBase
    } else if is_name(name, "itunes:author") {
        Extension::ItunesAuthor
    } else if is_name(name, "itunes:explicit") {
        Extension::ItunesExplicit
    } else if is_name(name, "itunes:image") {
        Extension::ItunesImage
    } else if is_name(name, "itunes:keywords") {
        Extension::ItunesKeywords
    } else if is_name(name, "itunes:type") {
        Extension::ItunesType
    } else if is_name(name, "itunes:complete") {
        Extension::ItunesComplete
    } else if is_name(name, "itunes:new-feed-url") {
        Extension::ItunesNewFeedUrl
    } else if is_name(name, "itunes:owner") {
        Extension::ItunesOwner
    } else if is_name(name, "itunes:category") {
        Extension::ItunesCategory
    } else if is_name(name, "itunes:title") {
        Extension::ItunesTitle
    } else if is_name(name, "itunes:duration") {
        Extension::ItunesDuration
    } else if is_name(name, "itunes:episode") {
        Extension::ItunesEpisode
    } else if is_name(name, "itunes:season") {
        Extension::ItunesSeason
    } else if is_name(name, "itunes:episodeType") {
        Extension::ItunesEpisodeType
    } else if is_name(name, "podcast:transcript") {
        Extension::PodcastTranscript
    } else if is_name(name, "podcast:funding") {
        Extension::PodcastFunding
    } else if is_name(name, "podcast:person") {
        Extension::PodcastPerson
    } else if is_name(name, "podcast:guid") {
        Extension::PodcastGuid
    } else if is_name(name, "media:thumbnail") {
        Extension::MediaThumbnail
    } else if is_name(name, "media:content") {
        Extension::MediaContent
    } else if is_name(name, "georss:point") {
        Extension::GeoPoint
    } else if is_name(name, "georss:line") {
        Extension::GeoLine
    } else if is_name(name, "georss:polygon") {
        Extension::GeoPolygon
    } else if is_name(name, "georss:box") {
        Extension::GeoBox
    } else {
        Extension::Unknown
    }
}

/// Which extension element a name stands for.
pub fn extension(name: &[u8]) -> (ext: Extension)
    ensures
        ext == extension_of(name@),
{
    if name_is(name, "content:encoded") {
        Extension::ContentEncoded
    } else if name_is(name, "atom:link") {
        Extension::AtomLink
    } else if name_is(name, "dc:creator") {
        Extension::DcCreator
    } else if name_is(name, "dc:date") {
        Extension::DcDate
    } else if name_is(name, "dc:subject") {
        Extension::DcSubject
    } else if name_is(name, "dc:rights") {
        Extension::DcRights
    } else if name_is(name, "dc:publisher") {
        Extension::DcPublisher
    } else if name_is(name, "sy:updatePeriod") {
        Extension::SyUpdatePeriod
    } else if name_is(name, "sy:updateFrequency") {
        Extension::SyUpdateFrequency
    } else if name_is(name, "sy:updateBase") {
        Extension::SyUpdateBase
    } else if name_is(name, "itunes:author") {
        Extension::ItunesAuthor
    } else if name_is(name, "itunes:explicit") {
        Extension::ItunesExplicit
    } else if name_is(name, "itunes:image") {
        Extension::ItunesImage
    } else if name_is(name, "itunes:keywords") {
        Extension::ItunesKeywords
    } else if name_is(name, "itunes:type") {
        Extension::ItunesType
    } else if name_is(name, "itunes:complete") {
        Extension::ItunesComplete
    } else if name_is(name, "itunes:new-feed-url") {
        Extension::ItunesNewFeedUrl
    } else if name_is(name, "itunes:owner") {
        Extension::ItunesOwner
    } else if name_is(name, "itunes:category") {
        Extension::ItunesCategory
    } else if name_is(name, "itunes:title") {
        Extension::ItunesTitle
    } else if name_is(name, "itunes:duration") {
        Extension::ItunesDuration
    } else if name_is(name, "itunes:episode") {
        Extension::ItunesEpisode
    } else if name_is(name, "itunes:season") {
        Extension::ItunesSeason
    } else if name_is(name, "itunes:episodeType") {
        Extension::ItunesEpisodeType
    } else if name_is(name, "podcast:transcript") {
        Extension::PodcastTranscript
    } else if name_is(name, "podcast:funding") {
        Extension::PodcastFunding
    } else if name_is(name, "podcast:person") {
        Extension::PodcastPerson
    } else if name_is(name, "podcast:guid") {
        Extension::PodcastGuid
    } else if name_is(name, "media:thumbnail") {
        Extension::MediaThumbnail
    } else if name_is(name, "media:content") {
        Extension::MediaContent
    } else if name_is(name, "georss:point") {
        Extension::GeoPoint
    } else if name_is(name, "georss:line") {
        Extension::GeoLine
    } else if name_is(name, "georss:polygon") {
        Extension::GeoPolygon
    } else if name_is(name, "georss:box") {
        Extension::GeoBox
    } else {
        Extension::Unknown
    }
}

/// The shape that a GeoRSS element describes.
pub open spec fn shape_of(ext: Extension) -> GeoKind {
    match ext {
        Extension::GeoLine => GeoKind::Line,
        Extension::GeoPolygon => GeoKind::Polygon,
        Extension::GeoBox => GeoKind::Box,
        _ => GeoKind::Point,
    }
}

/// The shape that a GeoRSS element describes.
pub fn shape(ext: Extension) -> (kind: GeoKind)
    ensures
        kind == shape_of(ext),
{
    match ext {
        Extension::GeoLine => GeoKind::Line,
        Extension::GeoPolygon => GeoKind::Polygon,
        Extension::GeoBox => GeoKind::Box,
        _ => GeoKind::Point,
    }
}

/// The number of 32 bits that the attribute `key` writes.
pub open spec fn attr_u32(attrs: Seq<XmlAttrView>, key: &str, max_length: usize) -> Option<u32> {
    match attr_value(attrs, key, key, max_length) {
        Some(value) => match number_within(value, u32::MAX as nat) {
            Some(n) => Some(n as u32),
            None => None,
        },
        None => None,
    }
}

/// The number of 32 bits that the attribute `key` writes.
pub fn find_u32(attrs: &Vec<XmlAttr>, key: &str, max_length: usize) -> (number: Option<u32>)
    ensures
        number == attr_u32(attrs.deep_view(), key, max_length),
{
    match find_attr(attrs, key, key, max_length) {
        Some(value) => parse_u32(value.as_slice()),
        None => None,
    }
}

/// The item after a content block of the MIME type `kind` was read as
/// `text`.
pub open spec fn item_with_content(
    item: ItemOutcomeView,
    text: Seq<char>,
    kind: Seq<char>,
    limits: ParserLimits,
) -> ItemOutcomeView {
    if item.entry.content.len() < limits.max_content_blocks {
        ItemOutcomeView {
            entry: EntryView {
                content: item.entry.content.push(
                    ContentView { value: text, content_type: Some(kind), language: None, base: None },
                ),
                ..item.entry
            },
            ..item
        }
    } else {
        ItemOutcomeView {
            diagnostic: Some(limit_message("Content", limits.max_content_blocks)),
            ..item
        }
    }
}

/// Stores a content block of the MIME type `kind` in the item.
pub fn add_content(item: &mut ItemOutcome, text: String, kind: &str, limits: &ParserLimits)
    ensures
        final(item).deep_view() == item_with_content(old(item).deep_view(), text@, kind@, *limits),
{
    let block = Content {
        value: text,
        content_type: Some(kind.to_owned()),
        language: None,
        base: None,
    };
    let ghost before = item.entry.content;
    let ghost added = block;
    if try_push_limited(&mut item.entry.content, block, limits.max_content_blocks) {
        proof {
            lemma_push_deep_view(before, item.entry.content, added);
        }
    } else {
        item.diagnostic = Some(limit_exceeded("Content", limits.max_content_blocks));
    }
}

/// What the iTunes elements have said about an episode so far.
pub open spec fn itunes_of_entry(entry: EntryView) -> ItunesEntryMetaView {
    match entry.itunes {
        Some(block) => block,
        None => ItunesEntryMetaView::empty(),
    }
}

/// The transcript that the attributes of a `podcast:transcript` describe:
/// none without a URL.
pub open spec fn transcript_of(attrs: Seq<XmlAttrView>, max_length: usize) -> Option<
    PodcastTranscriptView,
> {
    match attr_text(attrs, "url", max_length) {
        Some(url) => if url.len() == 0 {
            None
        } else {
            Some(
                PodcastTranscriptView {
                    url,
                    transcript_type: attr_text(attrs, "type", max_length),
                    language: attr_text(attrs, "language", max_length),
                    rel: attr_text(attrs, "rel", max_length),
                },
            )
        },
        None => None,
    }
}

/// The transcript that the attributes of a `podcast:transcript` describe.
pub fn read_transcript(attrs: &Vec<XmlAttr>, max_length: usize) -> (transcript: Option<
    PodcastTranscript,
>)
    ensures
        transcript.deep_view() == transcript_of(attrs.deep_view(), max_length),
{
    match find_text(attrs, "url", max_length) {
        Some(url) => {
            if url.as_str().is_empty() {
                return None;
            }
            Some(
                PodcastTranscript {
                    url,
                    transcript_type: find_text(attrs, "type", max_length),
                    language: find_text(attrs, "language", max_length),
                    rel: find_text(attrs, "rel", max_length),
                },
            )
        },
        None => None,
    }
}

/// The person that a `podcast:person` with the text `name` describes: none
/// without a name.
pub open spec fn podcast_person_of(name: Seq<char>, attrs: Seq<XmlAttrView>, max_length: usize)
    -> Option<PodcastPersonView> {
    if name.len() == 0 {
        None
    } else {
        Some(
            PodcastPersonView {
                name,
                role: attr_text(attrs, "role", max_length),
                group: attr_text(attrs, "group", max_length),
                img: attr_text(attrs, "img", max_length),
                href: attr_text(attrs, "href", max_length),
            },
        )
    }
}

/// The person that a `podcast:person` describes.
pub fn read_podcast_person(name: String, attrs: &Vec<XmlAttr>, max_length: usize) -> (person:
    Option<PodcastPerson>)
    ensures
        person.deep_view() == podcast_person_of(name@, attrs.deep_view(), max_length),
{
    if name.as_str().is_empty() {
        return None;
    }
    Some(
        PodcastPerson {
            name,
            role: find_text(attrs, "role", max_length),
            group: find_text(attrs, "group", max_length),
            img: find_text(attrs, "img", max_length),
            href: find_text(attrs, "href", max_length),
        },
    )
}

/// The picture that the attributes of a `media:thumbnail` describe: none
/// without a URL.
pub open spec fn thumbnail_of(attrs: Seq<XmlAttrView>, max_length: usize) -> Option<
    MediaThumbnailView,
> {
    match attr_text(attrs, "url", max_length) {
        Some(url) => if url.len() == 0 {
            None
        } else {
            Some(
                MediaThumbnailView {
                    url,
                    width: attr_u32(attrs, "width", max_length),
                    height: attr_u32(attrs, "height", max_length),
                },
            )
        },
        None => None,
    }
}

/// The picture that the attributes of a `media:thumbnail` describe.
pub fn read_thumbnail(attrs: &Vec<XmlAttr>, max_length: usize) -> (thumbnail: Option<
    MediaThumbnail,
>)
    ensures
        thumbnail.deep_view() == thumbnail_of(attrs.deep_view(), max_length),
{
    match find_text(attrs, "url", max_length) {
        Some(url) => {
            if url.as_str().is_empty() {
                return None;
            }
            Some(
                MediaThumbnail {
                    url,
                    width: find_u32(attrs, "width", max_length),
                    height: find_u32(attrs, "height", max_length),
                },
            )
        },
        None => None,
    }
}

/// The media file that the attributes of a `media:content` describe: none
/// without a URL.
pub open spec fn media_of(attrs: Seq<XmlAttrView>, max_length: usize) -> Option<MediaContentView> {
    match attr_text(attrs, "url", max_length) {
        Some(url) => if url.len() == 0 {
            None
        } else {
            Some(
                MediaContentView {
                    url,
                    content_type: attr_text(attrs, "type", max_length),
                    filesize: attr_number(attrs, "fileSize", max_length),
                    width: attr_u32(attrs, "width", max_length),
                    height: attr_u32(attrs, "height", max_length),
                    duration: attr_u32(attrs, "duration", max_length),
                },
            )
        },
        None => None,
    }
}

/// The media file that the attributes of a `media:content` describe.
pub fn read_media(attrs: &Vec<XmlAttr>, max_length: usize) -> (media: Option<MediaContent>)
    ensures
        media.deep_view() == media_of(attrs.deep_view(), max_length),
{
    match find_text(attrs, "url", max_length) {
        Some(url) => {
            if url.as_str().is_empty() {
                return None;
            }
            Some(
                MediaContent {
                    url,
                    content_type: find_text(attrs, "type", max_length),
                    filesize: find_number(attrs, "fileSize", max_length),
                    width: find_u32(attrs, "width", max_length),
                    height: find_u32(attrs, "height", max_length),
                    duration: find_u32(attrs, "duration", max_length),
                },
            )
        },
        None => None,
    }
}

/// The item after the extension element `ext` with the attributes `attrs`
/// and the text `text` was read.
///
/// What an element says is stored in the place its namespace has in the
/// entry. `dc:creator` is also the author where the entry names none, and
/// `dc:date` the date of publication where it gives none. A list stops
/// growing at its limit: subjects at the limit for tags, media files and
/// transcripts at the one for enclosures, people at the one for authors.
/// An element that lacks what identifies it adds nothing.
pub open spec fn entry_with_extension(
    item: ItemOutcomeView,
    ext: Extension,
    attrs: Seq<XmlAttrView>,
    text: Seq<char>,
    limits: ParserLimits,
) -> ItemOutcomeView {
    let entry = item.entry;
    let itunes = itunes_of_entry(entry);
    let max_length = limits.max_attribute_length;
    match ext {
        Extension::ContentEncoded => item_with_content(item, text, "text/html"@, limits),
        Extension::DcCreator => ItemOutcomeView {
            entry: EntryView {
                dc_creator: Some(text),
                author: if entry.author is None {
                    Some(text)
                } else {
                    entry.author
                },
                ..entry
            },
            ..item
        },
        Extension::DcDate => match parsed_date(text) {
            Some(date) => ItemOutcomeView {
                entry: EntryView {
                    dc_date: Some(date),
                    published: if entry.published is None {
                        Some(date)
                    } else {
                        entry.published
                    },
                    ..entry
                },
                ..item
            },
            None => if text.len() == 0 {
                item
            } else {
                ItemOutcomeView { diagnostic: Some("Invalid dc:date format"@), ..item }
            },
        },
        Extension::DcSubject => if text.len() == 0 {
            item
        } else if entry.dc_subject.len() < limits.max_tags {
            ItemOutcomeView {
                entry: EntryView { dc_subject: entry.dc_subject.push(text), ..entry },
                ..item
            }
        } else {
            ItemOutcomeView { diagnostic: Some(limit_message("Subject", limits.max_tags)), ..item }
        },
        Extension::DcRights => ItemOutcomeView {
            entry: EntryView { dc_rights: Some(text), ..entry },
            ..item
        },
        Extension::ItunesTitle => ItemOutcomeView {
            entry: EntryView {
                itunes: Some(ItunesEntryMetaView { title: Some(text), ..itunes }),
                ..entry
            },
            ..item
        },
        Extension::ItunesAuthor => ItemOutcomeView {
            entry: EntryView {
                itunes: Some(ItunesEntryMetaView { author: Some(text), ..itunes }),
                ..entry
            },
            ..item
        },
        Extension::ItunesDuration => ItemOutcomeView {
            entry: EntryView {
                itunes: Some(ItunesEntryMetaView { duration: duration_seconds(text), ..itunes }),
                ..entry
            },
            ..item
        },
        Extension::ItunesExplicit => ItemOutcomeView {
            entry: EntryView {
                itunes: Some(ItunesEntryMetaView { explicit: explicit_flag(text), ..itunes }),
                ..entry
            },
            ..item
        },
        Extension::ItunesImage => ItemOutcomeView {
            entry: EntryView {
                itunes: Some(
                    ItunesEntryMetaView { image: attr_text(attrs, "href", max_length), ..itunes },
                ),
                ..entry
            },
            ..item
        },
        Extension::ItunesEpisode => ItemOutcomeView {
            entry: EntryView {
                itunes: Some(ItunesEntryMetaView { episode: text_number(text), ..itunes }),
                ..entry
            },
            ..item
        },
        Extension::ItunesSeason => ItemOutcomeView {
            entry: EntryView {
                itunes: Some(ItunesEntryMetaView { season: text_number(text), ..itunes }),
                ..entry
            },
            ..item
        },
        Extension::ItunesEpisodeType => ItemOutcomeView {
            entry: EntryView {
                itunes: Some(ItunesEntryMetaView { episode_type: Some(text), ..itunes }),
                ..entry
            },
            ..item
        },
        Extension::PodcastTranscript => match transcript_of(attrs, max_length) {
            Some(transcript) => if entry.podcast_transcripts.len() < limits.max_enclosures {
                ItemOutcomeView {
                    entry: EntryView {
                        podcast_transcripts: entry.podcast_transcripts.push(transcript),
                        ..entry
                    },
                    ..item
                }
            } else {
                ItemOutcomeView {
                    diagnostic: Some(limit_message("Transcript", limits.max_enclosures)),
                    ..item
                }
            },
            None => item,
        },
        Extension::PodcastPerson => match podcast_person_of(text, attrs, max_length) {
            Some(person) => if entry.podcast_persons.len() < limits.max_authors {
                ItemOutcomeView {
                    entry: EntryView {
                        podcast_persons: entry.podcast_persons.push(person),
                        ..entry
                    },
                    ..item
                }
            } else {
                ItemOutcomeView {
                    diagnostic: Some(limit_message("Person", limits.max_authors)),
                    ..item
                }
            },
            None => item,
        },
        Extension::MediaThumbnail => match thumbnail_of(attrs, max_length) {
            Some(thumbnail) => if entry.media_thumbnails.len() < limits.max_enclosures {
                ItemOutcomeView {
                    entry: EntryView {
                        media_thumbnails: entry.media_thumbnails.push(thumbnail),
                        ..entry
                    },
                    ..item
                }
            } else {
                ItemOutcomeView {
                    diagnostic: Some(limit_message("Thumbnail", limits.max_enclosures)),
                    ..item
                }
            },
            None => item,
        },
        Extension::MediaContent => match media_of(attrs, max_length) {
            Some(media) => if entry.media_content.len() < limits.max_enclosures {
                ItemOutcomeView {
                    entry: EntryView { media_content: entry.media_content.push(media), ..entry },
                    ..item
                }
            } else {
                ItemOutcomeView {
                    diagnostic: Some(limit_message("Media", limits.max_enclosures)),
                    ..item
                }
            },
            None => item,
        },
        Extension::GeoPoint | Extension::GeoLine | Extension::GeoPolygon | Extension::GeoBox =>
            match location_of(shape_of(ext), text, limits.max_tags) {
            Some(location) => ItemOutcomeView {
                entry: EntryView { geo: Some(location), ..entry },
                ..item
            },
            None => item,
        },
        _ => item,
    }
}

/// Takes what the iTunes elements have said about the episode out of the
/// entry, to be put back with one thing more.
fn take_entry_itunes(entry: &mut Entry) -> (block: ItunesEntryMeta)
    ensures
        block.deep_view() == itunes_of_entry(old(entry).deep_view()),
        final(entry).deep_view() == (EntryView { itunes: None, ..old(entry).deep_view() }),
{
    match entry.itunes.take() {
        Some(block) => block,
        None => ItunesEntryMeta::default(),
    }
}

/// Stores what the extension element `ext` says in the item.
pub fn add_entry_extension(
    item: &mut ItemOutcome,
    ext: Extension,
    attrs: &Vec<XmlAttr>,
    text: String,
    limits: &ParserLimits,
)
    ensures
        final(item).deep_view() == entry_with_extension(
            old(item).deep_view(),
            ext,
            attrs.deep_view(),
            text@,
            *limits,
        ),
{
    let max_length = limits.max_attribute_length;
    match ext {
        Extension::ContentEncoded => {
            add_content(item, text, "text/html", limits);
        },
        Extension::DcCreator => {
            if item.entry.author.is_none() {
                item.entry.author = Some(text.clone());
            }
            item.entry.dc_creator = Some(text);
        },
        Extension::DcDate => {
            match parse_date(text.as_str()) {
                Some(date) => {
                    item.entry.dc_date = Some(date);
                    if item.entry.published.is_none() {
                        item.entry.published = Some(date);
                    }
                },
                None => {
                    if !text.as_str().is_empty() {
                        item.diagnostic = Some("Invalid dc:date format".to_owned());
                    }
                },
            }
        },
        Extension::DcSubject => {
            if !text.as_str().is_empty() {
                let ghost before = item.entry.dc_subject;
                let ghost added = text;
                if try_push_limited(&mut item.entry.dc_subject, text, limits.max_tags) {
                    proof {
                        lemma_push_deep_view(before, item.entry.dc_subject, added);
                    }
                } else {
                    item.diagnostic = Some(limit_exceeded("Subject", limits.max_tags));
                }
            }
        },
        Extension::DcRights => {
            item.entry.dc_rights = Some(text);
        },
        Extension::ItunesTitle => {
            let mut block = take_entry_itunes(&mut item.entry);
            block.title = Some(text);
            item.entry.itunes = Some(block);
        },
        Extension::ItunesAuthor => {
            let mut block = take_entry_itunes(&mut item.entry);
            block.author = Some(text);
            item.entry.itunes = Some(block);
        },
        Extension::ItunesDuration => {
            let mut block = take_entry_itunes(&mut item.entry);
            block.duration = parse_duration(text.as_str());
            item.entry.itunes = Some(block);
        },
        Extension::ItunesExplicit => {
            let mut block = take_entry_itunes(&mut item.entry);
            block.explicit = parse_explicit(text.as_str());
            item.entry.itunes = Some(block);
        },
        Extension::ItunesImage => {
            let mut block = take_entry_itunes(&mut item.entry);
            block.image = find_text(attrs, "href", max_length);
            item.entry.itunes = Some(block);
        },
        Extension::ItunesEpisode => {
            let mut block = take_entry_itunes(&mut item.entry);
            block.episode = number_of(&text);
            item.entry.itunes = Some(block);
        },
        Extension::ItunesSeason => {
            let mut block = take_entry_itunes(&mut item.entry);
            block.season = number_of(&text);
            item.entry.itunes = Some(block);
        },
        Extension::ItunesEpisodeType => {
            let mut block = take_entry_itunes(&mut item.entry);
            block.episode_type = Some(text);
            item.entry.itunes = Some(block);
        },
        Extension::PodcastTranscript => {
            match read_transcript(attrs, max_length) {
                Some(transcript) => {
                    let ghost before = item.entry.podcast_transcripts;
                    let ghost added = transcript;
                    if try_push_limited(
                        &mut item.entry.podcast_transcripts,
                        transcript,
                        limits.max_enclosures,
                    ) {
                        proof {
                            lemma_push_deep_view(before, item.entry.podcast_transcripts, added);
                        }
                    } else {
                        item.diagnostic = Some(limit_exceeded("Transcript", limits.max_enclosures));
                    }
                },
                None => {},
            }
        },
        Extension::PodcastPerson => {
            match read_podcast_person(text, attrs, max_length) {
                Some(person) => {
                    let ghost before = item.entry.podcast_persons;
                    let ghost added = person;
                    if try_push_limited(
                        &mut item.entry.podcast_persons,
                        person,
                        limits.max_authors,
                    ) {
                        proof {
                            lemma_push_deep_view(before, item.entry.podcast_persons, added);
                        }
                    } else {
                        item.diagnostic = Some(limit_exceeded("Person", limits.max_authors));
                    }
                },
                None => {},
            }
        },
        Extension::MediaThumbnail => {
            match read_thumbnail(attrs, max_length) {
                Some(thumbnail) => {
                    let ghost before = item.entry.media_thumbnails;
                    let ghost added = thumbnail;
                    if try_push_limited(
                        &mut item.entry.media_thumbnails,
                        thumbnail,
                        limits.max_enclosures,
                    ) {
                        proof {
                            lemma_push_deep_view(before, item.entry.media_thumbnails, added);
                        }
                    } else {
                        item.diagnostic = Some(limit_exceeded("Thumbnail", limits.max_enclosures));
                    }
                },
                None => {},
            }
        },
        Extension::MediaContent => {
            match read_media(attrs, max_length) {
                Some(media) => {
                    let ghost before = item.entry.media_content;
                    let ghost added = media;
                    if try_push_limited(
                        &mut item.entry.media_content,
                        media,
                        limits.max_enclosures,
                    ) {
                        proof {
                            lemma_push_deep_view(before, item.entry.media_content, added);
                        }
                    } else {
                        item.diagnostic = Some(limit_exceeded("Media", limits.max_enclosures));
                    }
                },
                None => {},
            }
        },
        Extension::GeoPoint | Extension::GeoLine | Extension::GeoPolygon | Extension::GeoBox => {
            match parse_location(shape(ext), text.as_str(), limits.max_tags) {
                Some(location) => {
                    item.entry.geo = Some(location);
                },
                None => {},
            }
        },
        _ => {},
    }
}

/// The index of the first child element named `word` among the events in
/// `[pos, hi)`.
pub open spec fn child_at(events: Seq<XmlEventView>, pos: int, hi: int, word: &str) -> Option<int>
    decreases hi - pos,
{
    if pos < 0 || pos >= hi || hi > events.len() {
        None
    } else {
        match events[pos] {
            XmlEventView::Start(name, _) => if is_name(name, word) {
                Some(pos)
            } else {
                proof {
                    lemma_close_index_bounds(events, pos + 1, hi, 0);
                }
                child_at(events, after_close(close_index(events, pos + 1, hi, 0), hi), hi, word)
            },
            _ => child_at(events, pos + 1, hi, word),
        }
    }
}

/// Where `child_at` finds a child, there is a start tag within the span.
pub proof fn lemma_child_at(events: Seq<XmlEventView>, pos: int, hi: int, word: &str)
    requires
        0 <= pos <= hi <= events.len(),
    ensures
        child_at(events, pos, hi, word) is Some ==> pos <= child_at(events, pos, hi, word)->0
            < hi && events[child_at(events, pos, hi, word)->0] is Start,
    decreases hi - pos,
{
    if pos < hi {
        match events[pos] {
            XmlEventView::Start(name, _) => {
                if !is_name(name, word) {
                    lemma_close_index_bounds(events, pos + 1, hi, 0);
                    lemma_child_at(
                        events,
                        after_close(close_index(events, pos + 1, hi, 0), hi),
                        hi,
                        word,
                    );
                }
            },
            _ => {
                lemma_child_at(events, pos + 1, hi, word);
            },
        }
    }
}

/// Finds the first child element named `word`.
pub fn find_child(events: &Vec<XmlEvent>, lo: usize, hi: usize, word: &str) -> (found: Option<
    usize,
>)
    requires
        lo <= hi <= events.len(),
    ensures
        match found {
            Some(at) => child_at(events.deep_view(), lo as int, hi as int, word) == Some(
                at as int,
            ) && lo <= at < hi && events.deep_view()[at as int] is Start,
            None => child_at(events.deep_view(), lo as int, hi as int, word) is None,
        },
{
    let mut pos: usize = lo;
    proof {
        lemma_child_at(events.deep_view(), lo as int, hi as int, word);
    }
    while pos < hi
        invariant
            lo <= pos <= hi <= events.len(),
            child_at(events.deep_view(), pos as int, hi as int, word) == child_at(
                events.deep_view(),
                lo as int,
                hi as int,
                word,
            ),
        decreases hi - pos,
    {
        match &events[pos] {
            XmlEvent::Start(name, _) => {
                if name_is(name.as_slice(), word) {
                    return Some(pos);
                }
                let close = find_close(events, pos + 1, hi);
                pos = if close < hi {
                    close + 1
                } else {
                    hi
                };
            },
            _ => {
                pos += 1;
            },
        }
    }
    None
}

/// The text of the first child element named `word`, where there is one
/// and its text can be read.
pub open spec fn child_text(
    events: Seq<XmlEventView>,
    lo: int,
    hi: int,
    word: &str,
    limits: ParserLimits,
) -> Option<Seq<char>> {
    match child_at(events, lo, hi, word) {
        Some(at) => match span_text(
            events,
            at + 1,
            close_index(events, at + 1, hi, 0),
            limits.max_text_length,
        ) {
            Ok(text) => Some(text),
            Err(_) => None,
        },
        None => None,
    }
}

/// The text of the first child element named `word`.
pub fn read_child_text(
    events: &Vec<XmlEvent>,
    lo: usize,
    hi: usize,
    word: &str,
    limits: &ParserLimits,
) -> (text: Option<String>)
    requires
        lo <= hi <= events.len(),
    ensures
        text.deep_view() == child_text(events.deep_view(), lo as int, hi as int, word, *limits),
{
    match find_child(events, lo, hi, word) {
        Some(at) => {
            let close = find_close(events, at + 1, hi);
            match read_text(events, at + 1, close, limits) {
                Ok(text) => Some(text),
                Err(_) => None,
            }
        },
        None => None,
    }
}

/// The attribute `key` of the first child element named `word`.
pub open spec fn child_attr(
    events: Seq<XmlEventView>,
    lo: int,
    hi: int,
    word: &str,
    key: &str,
    limits: ParserLimits,
) -> Option<Seq<char>> {
    match child_at(events, lo, hi, word) {
        Some(at) => match events[at] {
            XmlEventView::Start(_, attrs) => attr_text(attrs, key, limits.max_attribute_length),
            _ => None,
        },
        None => None,
    }
}

/// The attribute `key` of the first child element named `word`.
pub fn read_child_attr(
    events: &Vec<XmlEvent>,
    lo: usize,
    hi: usize,
    word: &str,
    key: &str,
    limits: &ParserLimits,
) -> (text: Option<String>)
    requires
        lo <= hi <= events.len(),
    ensures
        text.deep_view() == child_attr(
            events.deep_view(),
            lo as int,
            hi as int,
            word,
            key,
            *limits,
        ),
{
    match find_child(events, lo, hi, word) {
        Some(at) => match &events[at] {
            XmlEvent::Start(_, attrs) => find_text(attrs, key, limits.max_attribute_length),
            _ => None,
        },
        None => None,
    }
}

/// What an extension element holds besides its attributes: its text, and
/// what the parser reads of its children.
pub struct ExtensionContent {
    /// The text of the element.
    pub text: String,
    /// The text of its child `itunes:name`.
    pub name: Option<String>,
    /// The text of its child `itunes:email`.
    pub email: Option<String>,
    /// The attribute `text` of its child `itunes:category`.
    pub subcategory: Option<String>,
}

/// The mathematical value of an [`ExtensionContent`].
pub struct ExtensionContentView {
    pub text: Seq<char>,
    pub name: Option<Seq<char>>,
    pub email: Option<Seq<char>>,
    pub subcategory: Option<Seq<char>>,
}

impl DeepView for ExtensionContent {
    type V = ExtensionContentView;

    open spec fn deep_view(&self) -> ExtensionContentView {
        ExtensionContentView {
            text: self.text@,
            name: self.name.deep_view(),
            email: self.email.deep_view(),
            subcategory: self.subcategory.deep_view(),
        }
    }
}

/// What the extension element with the content `[lo, hi)` holds. Text that
/// cannot be read counts as empty.
pub open spec fn content_of_extension(
    events: Seq<XmlEventView>,
    lo: int,
    hi: int,
    ext: Extension,
    limits: ParserLimits,
) -> ExtensionContentView {
    ExtensionContentView {
        text: match span_text(events, lo, hi, limits.max_text_length) {
            Ok(text) => text,
            Err(_) => Seq::empty(),
        },
        name: if ext == Extension::ItunesOwner {
            child_text(events, lo, hi, "itunes:name", limits)
        } else {
            None
        },
        email: if ext == Extension::ItunesOwner {
            child_text(events, lo, hi, "itunes:email", limits)
        } else {
            None
        },
        subcategory: if ext == Extension::ItunesCategory {
            child_attr(events, lo, hi, "itunes:category", "text", limits)
        } else {
            None
        },
    }
}

/// Reads what an extension element holds besides its attributes.
pub fn read_extension_content(
    events: &Vec<XmlEvent>,
    lo: usize,
    hi: usize,
    ext: Extension,
    limits: &ParserLimits,
) -> (content: ExtensionContent)
    requires
        lo <= hi <= events.len(),
    ensures
        content.deep_view() == content_of_extension(
            events.deep_view(),
            lo as int,
            hi as int,
            ext,
            *limits,
        ),
{
    let text = match read_text(events, lo, hi, limits) {
        Ok(text) => text,
        Err(_) => String::new(),
    };
    let owner = ext == Extension::ItunesOwner;
    let category = ext == Extension::ItunesCategory;
    ExtensionContent {
        text,
        name: if owner {
            read_child_text(events, lo, hi, "itunes:name", limits)
        } else {
            None
        },
        email: if owner {
            read_child_text(events, lo, hi, "itunes:email", limits)
        } else {
            None
        },
        subcategory: if category {
            read_child_attr(events, lo, hi, "itunes:category", "text", limits)
        } else {
            None
        },
    }
}

/// What the iTunes elements have said about a podcast so far.
pub open spec fn itunes_of_feed(meta: FeedMetaView) -> ItunesFeedMetaView {
    match meta.itunes {
        Some(block) => block,
        None => ItunesFeedMetaView::empty(),
    }
}

/// What the Podcast 2.0 elements have said about a podcast so far.
pub open spec fn podcast_of_feed(meta: FeedMetaView) -> PodcastMetaView {
    match meta.podcast {
        Some(block) => block,
        None => PodcastMetaView::empty(),
    }
}

/// What the Syndication elements have said about a feed so far.
pub open spec fn syndication_of_feed(meta: FeedMetaView) -> SyndicationMetaView {
    match meta.syndication {
        Some(block) => block,
        None => SyndicationMetaView::empty(),
    }
}

/// The way to support a podcast that a `podcast:funding` with the text
/// `message` describes: none without a URL.
pub open spec fn funding_of(message: Seq<char>, attrs: Seq<XmlAttrView>, max_length: usize)
    -> Option<PodcastFundingView> {
    match attr_text(attrs, "url", max_length) {
        Some(url) => if url.len() == 0 {
            None
        } else {
            Some(
                PodcastFundingView {
                    url,
                    message: if message.len() == 0 {
                        None
                    } else {
                        Some(message)
                    },
                },
            )
        },
        None => None,
    }
}

/// The way to support a podcast that a `podcast:funding` describes.
pub fn read_funding(message: String, attrs: &Vec<XmlAttr>, max_length: usize) -> (funding: Option<
    PodcastFunding,
>)
    ensures
        funding.deep_view() == funding_of(message@, attrs.deep_view(), max_length),
{
    match find_text(attrs, "url", max_length) {
        Some(url) => {
            if url.as_str().is_empty() {
                return None;
            }
            let message = if message.as_str().is_empty() {
                None
            } else {
                Some(message)
            };
            Some(PodcastFunding { url, message })
        },
        None => None,
    }
}

/// The category that an `itunes:category` describes: none without a text.
pub open spec fn category_of(
    attrs: Seq<XmlAttrView>,
    subcategory: Option<Seq<char>>,
    max_length: usize,
) -> Option<ItunesCategoryView> {
    match attr_text(attrs, "text", max_length) {
        Some(text) => if text.len() == 0 {
            None
        } else {
            Some(ItunesCategoryView { text, subcategory })
        },
        None => None,
    }
}

/// The category that an `itunes:category` describes.
pub fn read_category(attrs: &Vec<XmlAttr>, subcategory: Option<String>, max_length: usize) -> (
    category: Option<ItunesCategory>)
    ensures
        category.deep_view() == category_of(
            attrs.deep_view(),
            subcategory.deep_view(),
            max_length,
        ),
{
    match find_text(attrs, "text", max_length) {
        Some(text) => {
            if text.as_str().is_empty() {
                return None;
            }
            Some(ItunesCategory { text, subcategory })
        },
        None => None,
    }
}

/// The feed after the extension element `ext` with the attributes `attrs`
/// and the given content was read.
///
/// What an element says is stored in the place its namespace has in the
/// feed. `dc:creator`, `dc:publisher` and `dc:rights` also stand in for the
/// author, the publisher and the rights where the feed names none, and
/// `dc:date` for the date of its last change. An `atom:link` is one more
/// link of the feed. A list stops growing at its limit: categories and
/// keywords at the limit for tags, links and ways of funding at the one for
/// links, people at the one for authors. An element that lacks what
/// identifies it adds nothing.
#[verifier::opaque]
pub open spec fn feed_with_extension(
    feed: ParsedFeedView,
    ext: Extension,
    attrs: Seq<XmlAttrView>,
    content: ExtensionContentView,
    limits: ParserLimits,
) -> ParsedFeedView {
    let meta = feed.feed;
    let text = content.text;
    let itunes = itunes_of_feed(meta);
    let podcast = podcast_of_feed(meta);
    let syndication = syndication_of_feed(meta);
    let max_length = limits.max_attribute_length;
    match ext {
        Extension::AtomLink => match LinkView::from_attributes(attrs, max_length) {
            Some(link) => if meta.links.len() < limits.max_links_per_feed {
                ParsedFeedView { feed: FeedMetaView { links: meta.links.push(link), ..meta }, ..feed }
            } else {
                with_diagnostic(feed, limit_message("Link", limits.max_links_per_feed))
            },
            None => feed,
        },
        Extension::DcCreator => ParsedFeedView {
            feed: FeedMetaView {
                dc_creator: Some(text),
                author: if meta.author is None {
                    Some(text)
                } else {
                    meta.author
                },
                ..meta
            },
            ..feed
        },
        Extension::DcPublisher => ParsedFeedView {
            feed: FeedMetaView {
                dc_publisher: Some(text),
                publisher: if meta.publisher is None {
                    Some(text)
                } else {
                    meta.publisher
                },
                ..meta
            },
            ..feed
        },
        Extension::DcRights => ParsedFeedView {
            feed: FeedMetaView {
                dc_rights: Some(text),
                rights: if meta.rights is None {
                    Some(text)
                } else {
                    meta.rights
                },
                ..meta
            },
            ..feed
        },
        Extension::DcDate => match parsed_date(text) {
            Some(date) => ParsedFeedView {
                feed: FeedMetaView {
                    updated: if meta.updated is None {
                        Some(date)
                    } else {
                        meta.updated
                    },
                    ..meta
                },
                ..feed
            },
            None => if text.len() == 0 {
                feed
            } else {
                with_diagnostic(feed, "Invalid dc:date format"@)
            },
        },
        Extension::SyUpdatePeriod => ParsedFeedView {
            feed: FeedMetaView {
                syndication: Some(SyndicationMetaView { update_period: Some(text), ..syndication }),
                ..meta
            },
            ..feed
        },
        Extension::SyUpdateFrequency => ParsedFeedView {
            feed: FeedMetaView {
                syndication: Some(
                    SyndicationMetaView { update_frequency: text_number(text), ..syndication },
                ),
                ..meta
            },
            ..feed
        },
        Extension::SyUpdateBase => ParsedFeedView {
            feed: FeedMetaView {
                syndication: Some(SyndicationMetaView { update_base: Some(text), ..syndication }),
                ..meta
            },
            ..feed
        },
        Extension::ItunesAuthor => ParsedFeedView {
            feed: FeedMetaView {
                itunes: Some(ItunesFeedMetaView { author: Some(text), ..itunes }),
                ..meta
            },
            ..feed
        },
        Extension::ItunesExplicit => ParsedFeedView {
            feed: FeedMetaView {
                itunes: Some(ItunesFeedMetaView { explicit: explicit_flag(text), ..itunes }),
                ..meta
            },
            ..feed
        },
        Extension::ItunesImage => ParsedFeedView {
            feed: FeedMetaView {
                itunes: Some(
                    ItunesFeedMetaView { image: attr_text(attrs, "href", max_length), ..itunes },
                ),
                ..meta
            },
            ..feed
        },
        Extension::ItunesKeywords => ParsedFeedView {
            feed: FeedMetaView {
                itunes: Some(
                    ItunesFeedMetaView { keywords: list_items(text, limits.max_tags), ..itunes },
                ),
                ..meta
            },
            ..feed
        },
        Extension::ItunesType => ParsedFeedView {
            feed: FeedMetaView {
                itunes: Some(ItunesFeedMetaView { podcast_type: Some(text), ..itunes }),
                ..meta
            },
            ..feed
        },
        Extension::ItunesComplete => ParsedFeedView {
            feed: FeedMetaView {
                itunes: Some(ItunesFeedMetaView { complete: yes_flag(text), ..itunes }),
                ..meta
            },
            ..feed
        },
        Extension::ItunesNewFeedUrl => ParsedFeedView {
            feed: FeedMetaView {
                itunes: Some(ItunesFeedMetaView { new_feed_url: Some(text), ..itunes }),
                ..meta
            },
            ..feed
        },
        Extension::ItunesOwner => ParsedFeedView {
            feed: FeedMetaView {
                itunes: Some(
                    ItunesFeedMetaView {
                        owner: Some(ItunesOwnerView { name: content.name, email: content.email }),
                        ..itunes
                    },
                ),
                ..meta
            },
            ..feed
        },
        Extension::ItunesCategory => match category_of(attrs, content.subcategory, max_length) {
            Some(category) => if itunes.categories.len() < limits.max_tags {
                ParsedFeedView {
                    feed: FeedMetaView {
                        itunes: Some(
                            ItunesFeedMetaView {
                                categories: itunes.categories.push(category),
                                ..itunes
                            },
                        ),
                        ..meta
                    },
                    ..feed
                }
            } else {
                with_diagnostic(feed, limit_message("Category", limits.max_tags))
            },
            None => feed,
        },
        Extension::PodcastFunding => match funding_of(text, attrs, max_length) {
            Some(funding) => if podcast.funding.len() < limits.max_links_per_feed {
                ParsedFeedView {
                    feed: FeedMetaView {
                        podcast: Some(
                            PodcastMetaView { funding: podcast.funding.push(funding), ..podcast },
                        ),
                        ..meta
                    },
                    ..feed
                }
            } else {
                with_diagnostic(feed, limit_message("Funding", limits.max_links_per_feed))
            },
            None => feed,
        },
        Extension::PodcastPerson => match podcast_person_of(text, attrs, max_length) {
            Some(person) => if podcast.persons.len() < limits.max_authors {
                ParsedFeedView {
                    feed: FeedMetaView {
                        podcast: Some(
                            PodcastMetaView { persons: podcast.persons.push(person), ..podcast },
                        ),
                        ..meta
                    },
                    ..feed
                }
            } else {
                with_diagnostic(feed, limit_message("Person", limits.max_authors))
            },
            None => feed,
        },
        Extension::PodcastGuid => ParsedFeedView {
            feed: FeedMetaView {
                podcast: Some(PodcastMetaView { guid: Some(text), ..podcast }),
                ..meta
            },
            ..feed
        },
        Extension::GeoPoint | Extension::GeoLine | Extension::GeoPolygon | Extension::GeoBox =>
            match location_of(shape_of(ext), text, limits.max_tags) {
            Some(location) => ParsedFeedView {
                feed: FeedMetaView { geo: Some(location), ..meta },
                ..feed
            },
            None => feed,
        },
        _ => feed,
    }
}

/// Takes what the iTunes elements have said about the podcast out of the
/// feed, to be put back with one thing more.
fn take_feed_itunes(feed: &mut ParsedFeed) -> (block: ItunesFeedMeta)
    ensures
        block.deep_view() == itunes_of_feed(old(feed).deep_view().feed),
        final(feed).deep_view() == (ParsedFeedView {
            feed: FeedMetaView { itunes: None, ..old(feed).deep_view().feed },
            ..old(feed).deep_view()
        }),
{
    match feed.feed.itunes.take() {
        Some(block) => block,
        None => ItunesFeedMeta::default(),
    }
}

/// Takes what the Podcast 2.0 elements have said out of the feed.
fn take_feed_podcast(feed: &mut ParsedFeed) -> (block: PodcastMeta)
    ensures
        block.deep_view() == podcast_of_feed(old(feed).deep_view().feed),
        final(feed).deep_view() == (ParsedFeedView {
            feed: FeedMetaView { podcast: None, ..old(feed).deep_view().feed },
            ..old(feed).deep_view()
        }),
{
    match feed.feed.podcast.take() {
        Some(block) => block,
        None => PodcastMeta::default(),
    }
}

/// Takes what the Syndication elements have said out of the feed.
fn take_feed_syndication(feed: &mut ParsedFeed) -> (block: SyndicationMeta)
    ensures
        block.deep_view() == syndication_of_feed(old(feed).deep_view().feed),
        final(feed).deep_view() == (ParsedFeedView {
            feed: FeedMetaView { syndication: None, ..old(feed).deep_view().feed },
            ..old(feed).deep_view()
        }),
{
    match feed.feed.syndication.take() {
        Some(block) => block,
        None => SyndicationMeta::default(),
    }
}

/// Stores what the extension element `ext` says in the feed.
pub fn add_feed_extension(
    feed: &mut ParsedFeed,
    ext: Extension,
    attrs: &Vec<XmlAttr>,
    content: ExtensionContent,
    limits: &ParserLimits,
)
    ensures
        final(feed).deep_view() == feed_with_extension(
            old(feed).deep_view(),
            ext,
            attrs.deep_view(),
            content.deep_view(),
            *limits,
        ),
{
    let max_length = limits.max_attribute_length;
    let text = content.text;
    proof {
        reveal(feed_with_extension);
    }
    match ext {
        Extension::AtomLink => {
            match Link::from_attributes(attrs, max_length) {
                Some(link) => {
                    let ghost before = feed.feed.links;
                    let ghost added = link;
                    if try_push_limited(&mut feed.feed.links, link, limits.max_links_per_feed) {
                        proof {
                            lemma_push_deep_view(before, feed.feed.links, added);
                        }
                    } else {
                        set_diagnostic(feed, limit_exceeded("Link", limits.max_links_per_feed));
                    }
                },
                None => {},
            }
        },
        Extension::DcCreator => {
            if feed.feed.author.is_none() {
                feed.feed.author = Some(text.clone());
            }
            feed.feed.dc_creator = Some(text);
        },
        Extension::DcPublisher => {
            if feed.feed.publisher.is_none() {
                feed.feed.publisher = Some(text.clone());
            }
            feed.feed.dc_publisher = Some(text);
        },
        Extension::DcRights => {
            if feed.feed.rights.is_none() {
                feed.feed.rights = Some(text.clone());
            }
            feed.feed.dc_rights = Some(text);
        },
        Extension::DcDate => {
            match parse_date(text.as_str()) {
                Some(date) => {
                    if feed.feed.updated.is_none() {
                        feed.feed.updated = Some(date);
                    }
                },
                None => {
                    if !text.as_str().is_empty() {
                        set_diagnostic(feed, "Invalid dc:date format".to_owned());
                    }
                },
            }
        },
        Extension::SyUpdatePeriod => {
            let mut block = take_feed_syndication(feed);
            block.update_period = Some(text);
            feed.feed.syndication = Some(block);
        },
        Extension::SyUpdateFrequency => {
            let mut block = take_feed_syndication(feed);
            block.update_frequency = number_of(&text);
            feed.feed.syndication = Some(block);
        },
        Extension::SyUpdateBase => {
            let mut block = take_feed_syndication(feed);
            block.update_base = Some(text);
            feed.feed.syndication = Some(block);
        },
        Extension::ItunesAuthor => {
            let mut block = take_feed_itunes(feed);
            block.author = Some(text);
            feed.feed.itunes = Some(block);
        },
        Extension::ItunesExplicit => {
            let mut block = take_feed_itunes(feed);
            block.explicit = parse_explicit(text.as_str());
            feed.feed.itunes = Some(block);
        },
        Extension::ItunesImage => {
            let mut block = take_feed_itunes(feed);
            block.image = find_text(attrs, "href", max_length);
            feed.feed.itunes = Some(block);
        },
        Extension::ItunesKeywords => {
            let mut block = take_feed_itunes(feed);
            block.keywords = split_list(text.as_str(), limits.max_tags);
            feed.feed.itunes = Some(block);
        },
        Extension::ItunesType => {
            let mut block = take_feed_itunes(feed);
            block.podcast_type = Some(text);
            feed.feed.itunes = Some(block);
        },
        Extension::ItunesComplete => {
            let mut block = take_feed_itunes(feed);
            block.complete = parse_yes(text.as_str());
            feed.feed.itunes = Some(block);
        },
        Extension::ItunesNewFeedUrl => {
            let mut block = take_feed_itunes(feed);
            block.new_feed_url = Some(text);
            feed.feed.itunes = Some(block);
        },
        Extension::ItunesOwner => {
            let mut block = take_feed_itunes(feed);
            block.owner = Some(ItunesOwner { name: content.name, email: content.email });
            feed.feed.itunes = Some(block);
        },
        Extension::ItunesCategory => {
            match read_category(attrs, content.subcategory, max_length) {
                Some(category) => {
                    let held = match &feed.feed.itunes {
                        Some(block) => block.categories.len(),
                        None => 0,
                    };
                    if held < limits.max_tags {
                        let mut block = take_feed_itunes(feed);
                        let ghost before = block.categories;
                        let ghost added = category;
                        block.categories.push(category);
                        proof {
                            lemma_push_deep_view(before, block.categories, added);
                        }
                        feed.feed.itunes = Some(block);
                    } else {
                        set_diagnostic(feed, limit_exceeded("Category", limits.max_tags));
                    }
                },
                None => {},
            }
        },
        Extension::PodcastFunding => {
            match read_funding(text, attrs, max_length) {
                Some(funding) => {
                    let held = match &feed.feed.podcast {
                        Some(block) => block.funding.len(),
                        None => 0,
                    };
                    if held < limits.max_links_per_feed {
                        let mut block = take_feed_podcast(feed);
                        let ghost before = block.funding;
                        let ghost added = funding;
                        block.funding.push(funding);
                        proof {
                            lemma_push_deep_view(before, block.funding, added);
                        }
                        feed.feed.podcast = Some(block);
                    } else {
                        set_diagnostic(feed, limit_exceeded("Funding", limits.max_links_per_feed));
                    }
                },
                None => {},
            }
        },
        Extension::PodcastPerson => {
            match read_podcast_person(text, attrs, max_length) {
                Some(person) => {
                    let held = match &feed.feed.podcast {
                        Some(block) => block.persons.len(),
                        None => 0,
                    };
                    if held < limits.max_authors {
                        let mut block = take_feed_podcast(feed);
                        let ghost before = block.persons;
                        let ghost added = person;
                        block.persons.push(person);
                        proof {
                            lemma_push_deep_view(before, block.persons, added);
                        }
                        feed.feed.podcast = Some(block);
                    } else {
                        set_diagnostic(feed, limit_exceeded("Person", limits.max_authors));
                    }
                },
                None => {},
            }
        },
        Extension::PodcastGuid => {
            let mut block = take_feed_podcast(feed);
            block.guid = Some(text);
            feed.feed.podcast = Some(block);
        },
        Extension::GeoPoint | Extension::GeoLine | Extension::GeoPolygon | Extension::GeoBox => {
            match parse_location(shape(ext), text.as_str(), limits.max_tags) {
                Some(location) => {
                    feed.feed.geo = Some(location);
                },
                None => {},
            }
        },
        _ => {},
    }
}

} // verus!
