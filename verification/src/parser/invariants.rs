//! What holds of every feed the RSS parser returns, whatever the input.

use vstd::prelude::*;
use crate::limits::ParserLimits;
use crate::parser::common::{after_close, capped, close_index, lemma_close_index_bounds};
use crate::parser::rss::{
    blank_item, blank_rss, channel_child, channel_depth, channel_field_of, channel_from,
    channel_with, document_from, item_child, item_field_of, item_from, item_of, item_with,
    item_with_enclosure, loose_item, rss_feed, whole_channel, ChannelField, ItemField,
    ItemOutcomeView,
};
use crate::parser::extension_invariants::{
    lemma_entry_with_extension_well_formed, lemma_feed_with_extension_well_formed,
};
use crate::parser::extensions::{content_of_extension, extension_of};
use crate::parser::namespaces::{lemma_with_namespaces, prefixes_are_distinct, with_namespaces};
use crate::types::common::{EnclosureView, LinkView, TagView};
use crate::types::entry::EntryView;
use crate::types::feed::{FeedMetaView, ParsedFeedView};
use crate::xml::{XmlAttrView, XmlEventView};

verus! {

/// Whether every link has a target.
pub open spec fn links_have_targets(links: Seq<LinkView>) -> bool {
    forall|i: int| 0 <= i < links.len() ==> (#[trigger] links[i]).href.len() > 0
}

/// Whether every tag has a term.
pub open spec fn tags_have_terms(tags: Seq<TagView>) -> bool {
    forall|i: int| 0 <= i < tags.len() ==> (#[trigger] tags[i]).term.len() > 0
}

/// Whether every enclosure has a URL.
pub open spec fn enclosures_have_urls(enclosures: Seq<EnclosureView>) -> bool {
    forall|i: int| 0 <= i < enclosures.len() ==> (#[trigger] enclosures[i]).url.len() > 0
}

impl EntryView {
    /// Whether the entry keeps within `limits` and its records are whole:
    /// no list is longer than its limit, those that extension elements fill
    /// included, every link has a target, every tag a term and every
    /// enclosure a URL.
    pub open spec fn well_formed(self, limits: ParserLimits) -> bool {
        &&& self.links.len() <= limits.max_links_per_entry
        &&& self.tags.len() <= limits.max_tags
        &&& self.enclosures.len() <= limits.max_enclosures
        &&& self.authors.len() <= limits.max_authors
        &&& self.contributors.len() <= limits.max_contributors
        &&& self.content.len() <= limits.max_content_blocks
        &&& self.dc_subject.len() <= limits.max_tags
        &&& self.media_thumbnails.len() <= limits.max_enclosures
        &&& self.media_content.len() <= limits.max_enclosures
        &&& self.podcast_transcripts.len() <= limits.max_enclosures
        &&& self.podcast_persons.len() <= limits.max_authors
        &&& links_have_targets(self.links)
        &&& tags_have_terms(self.tags)
        &&& enclosures_have_urls(self.enclosures)
    }
}

impl FeedMetaView {
    /// Whether the lists that extension elements fill keep within `limits`.
    pub open spec fn extensions_within(self, limits: ParserLimits) -> bool {
        &&& (self.itunes is Some ==> self.itunes->0.categories.len() <= limits.max_tags
            && self.itunes->0.keywords.len() <= limits.max_tags)
        &&& (self.podcast is Some ==> self.podcast->0.funding.len() <= limits.max_links_per_feed
            && self.podcast->0.persons.len() <= limits.max_authors)
    }
}

impl ParsedFeedView {
    /// Whether the feed keeps within `limits` and is consistent: the
    /// diagnostic is there exactly when the flag is set, the encoding is
    /// named, no list is longer than its limit, every entry is well formed,
    /// every link has a target, every tag a term, and the image a URL, and
    /// no namespace prefix is bound twice.
    pub open spec fn well_formed(self, limits: ParserLimits) -> bool {
        &&& self.bozo == self.bozo_exception is Some
        &&& self.encoding.len() > 0
        &&& self.entries.len() <= limits.max_entries
        &&& forall|i: int|
            0 <= i < self.entries.len() ==> (#[trigger] self.entries[i]).well_formed(limits)
        &&& self.feed.links.len() <= limits.max_links_per_feed
        &&& self.feed.tags.len() <= limits.max_tags
        &&& self.feed.authors.len() <= limits.max_authors
        &&& self.feed.contributors.len() <= limits.max_contributors
        &&& self.namespaces.len() <= limits.max_namespaces
        &&& self.feed.extensions_within(limits)
        &&& prefixes_are_distinct(self.namespaces)
        &&& links_have_targets(self.feed.links)
        &&& tags_have_terms(self.feed.tags)
        &&& (self.feed.image is Some ==> self.feed.image->0.url.len() > 0)
    }
}

/// Storing the text of a child keeps an entry well formed.
pub proof fn lemma_item_with_well_formed(
    item: ItemOutcomeView,
    field: ItemField,
    text: Seq<char>,
    limits: ParserLimits,
)
    requires
        item.entry.well_formed(limits),
    ensures
        item_with(item, field, text, limits).entry.well_formed(limits),
{
}

/// Storing an enclosure keeps an entry well formed.
pub proof fn lemma_item_with_enclosure_well_formed(
    item: ItemOutcomeView,
    attrs: Seq<XmlAttrView>,
    limits: ParserLimits,
)
    requires
        item.entry.well_formed(limits),
    ensures
        item_with_enclosure(item, attrs, limits).entry.well_formed(limits),
{
}

/// Reading an item from any point on keeps its entry well formed.
pub proof fn lemma_item_from_well_formed(
    events: Seq<XmlEventView>,
    pos: int,
    hi: int,
    item: ItemOutcomeView,
    depth: usize,
    limits: ParserLimits,
)
    requires
        item.entry.well_formed(limits),
    ensures
        item_from(events, pos, hi, item, depth, limits) is Ok ==> item_from(
            events,
            pos,
            hi,
            item,
            depth,
            limits,
        )->Ok_0.entry.well_formed(limits),
    decreases hi - pos,
{
    if !(pos < 0 || pos >= hi || hi > events.len()) {
        match events[pos] {
            XmlEventView::Start(name, attrs) => {
                if !(depth + 1 > limits.max_nesting_depth) {
                    let close = close_index(events, pos + 1, hi, 0);
                    lemma_close_index_bounds(events, pos + 1, hi, 0);
                    let child = item_child(
                        events,
                        pos + 1,
                        close,
                        name,
                        attrs,
                        item,
                        capped(depth + 1),
                        limits,
                    );
                    if child is Ok {
                        match item_field_of(name) {
                            ItemField::Enclosure => {
                                lemma_item_with_enclosure_well_formed(item, attrs, limits);
                            },
                            ItemField::Source => {},
                            ItemField::Other => {
                                lemma_entry_with_extension_well_formed(
                                    item,
                                    extension_of(name),
                                    attrs,
                                    content_of_extension(
                                        events,
                                        pos + 1,
                                        close,
                                        extension_of(name),
                                        limits,
                                    ).text,
                                    limits,
                                );
                            },
                            field => {
                                let text = crate::parser::common::span_text(
                                    events,
                                    pos + 1,
                                    close,
                                    limits.max_text_length,
                                )->Ok_0;
                                lemma_item_with_well_formed(item, field, text, limits);
                            },
                        }
                        lemma_item_from_well_formed(
                            events,
                            after_close(close, hi),
                            hi,
                            child->Ok_0,
                            depth,
                            limits,
                        );
                    }
                }
            },
            XmlEventView::Error(_) => {},
            _ => {
                lemma_item_from_well_formed(events, pos + 1, hi, item, depth, limits);
            },
        }
    }
}

/// Every entry that is read from an item is well formed.
pub proof fn lemma_item_well_formed(
    events: Seq<XmlEventView>,
    lo: int,
    hi: int,
    depth: usize,
    limits: ParserLimits,
)
    ensures
        item_of(events, lo, hi, depth, limits) is Ok ==> item_of(
            events,
            lo,
            hi,
            depth,
            limits,
        )->Ok_0.entry.well_formed(limits),
{
    lemma_item_from_well_formed(events, lo, hi, blank_item(), depth, limits);
}

/// Storing the text of a child of the channel keeps a feed well formed.
pub proof fn lemma_channel_with_well_formed(
    feed: ParsedFeedView,
    field: ChannelField,
    text: Seq<char>,
    limits: ParserLimits,
)
    requires
        feed.well_formed(limits),
    ensures
        channel_with(feed, field, text, limits).well_formed(limits),
{
}

/// Reading a child of the channel keeps a feed well formed.
pub proof fn lemma_channel_child_well_formed(
    events: Seq<XmlEventView>,
    lo: int,
    hi: int,
    name: Seq<u8>,
    attrs: Seq<XmlAttrView>,
    feed: ParsedFeedView,
    depth: usize,
    limits: ParserLimits,
)
    requires
        feed.well_formed(limits),
    ensures
        channel_child(events, lo, hi, name, attrs, feed, depth, limits) is Ok ==> channel_child(
            events,
            lo,
            hi,
            name,
            attrs,
            feed,
            depth,
            limits,
        )->Ok_0.well_formed(limits),
{
    match channel_field_of(name) {
        ChannelField::Image => {},
        ChannelField::Item => {
            if feed.entries.len() < limits.max_entries {
                lemma_item_well_formed(events, lo, hi, depth, limits);
            }
        },
        ChannelField::Other => {
            lemma_feed_with_extension_well_formed(
                feed,
                extension_of(name),
                attrs,
                content_of_extension(events, lo, hi, extension_of(name), limits),
                limits,
            );
        },
        field => {
            let text = crate::parser::common::span_text(events, lo, hi, limits.max_text_length);
            if text is Ok {
                lemma_channel_with_well_formed(feed, field, text->Ok_0, limits);
            }
        },
    }
}

/// Reading a channel from any point on keeps a feed well formed, also
/// where the reading ends early.
pub proof fn lemma_channel_from_well_formed(
    events: Seq<XmlEventView>,
    pos: int,
    hi: int,
    feed: ParsedFeedView,
    depth: usize,
    limits: ParserLimits,
)
    requires
        feed.well_formed(limits),
    ensures
        channel_from(events, pos, hi, feed, depth, limits).0.well_formed(limits),
    decreases hi - pos,
{
    if !(pos < 0 || pos >= hi || hi > events.len()) {
        match events[pos] {
            XmlEventView::Start(name, attrs) => {
                if !(depth + 1 > limits.max_nesting_depth) {
                    let close = close_index(events, pos + 1, hi, 0);
                    lemma_close_index_bounds(events, pos + 1, hi, 0);
                    let child = channel_child(
                        events,
                        pos + 1,
                        close,
                        name,
                        attrs,
                        feed,
                        capped(depth + 1),
                        limits,
                    );
                    lemma_channel_child_well_formed(
                        events,
                        pos + 1,
                        close,
                        name,
                        attrs,
                        feed,
                        capped(depth + 1),
                        limits,
                    );
                    if child is Ok {
                        lemma_channel_from_well_formed(
                            events,
                            after_close(close, hi),
                            hi,
                            child->Ok_0,
                            depth,
                            limits,
                        );
                    }
                }
            },
            XmlEventView::Error(_) => {},
            _ => {
                lemma_channel_from_well_formed(events, pos + 1, hi, feed, depth, limits);
            },
        }
    }
}

/// Recording the namespaces of a start tag keeps a feed well formed.
pub proof fn lemma_with_namespaces_well_formed(
    feed: ParsedFeedView,
    attrs: Seq<XmlAttrView>,
    limits: ParserLimits,
)
    requires
        feed.well_formed(limits),
    ensures
        with_namespaces(feed, attrs, 0, limits).well_formed(limits),
{
    lemma_with_namespaces(feed, attrs, 0, limits);
}

/// Reading a document from any point on keeps a feed well formed.
pub proof fn lemma_document_from_well_formed(
    events: Seq<XmlEventView>,
    pos: int,
    feed: ParsedFeedView,
    limits: ParserLimits,
)
    requires
        feed.well_formed(limits),
    ensures
        document_from(events, pos, feed, limits).well_formed(limits),
    decreases events.len() - pos,
{
    if !(pos < 0 || pos >= events.len()) {
        match events[pos] {
            XmlEventView::Start(name, attrs) => {
                let noted = with_namespaces(feed, attrs, 0, limits);
                lemma_with_namespaces_well_formed(feed, attrs, limits);
                let hi = events.len() as int;
                let close = close_index(events, pos + 1, hi, 0);
                lemma_close_index_bounds(events, pos + 1, hi, 0);
                if crate::parser::common::is_name(name, "channel") {
                    lemma_channel_from_well_formed(
                        events,
                        pos + 1,
                        close,
                        noted,
                        channel_depth(),
                        limits,
                    );
                    lemma_document_from_well_formed(
                        events,
                        after_close(close, hi),
                        whole_channel(events, pos + 1, close, noted, limits),
                        limits,
                    );
                } else if channel_field_of(name) == ChannelField::Item {
                    lemma_channel_child_well_formed(
                        events,
                        pos + 1,
                        close,
                        name,
                        attrs,
                        noted,
                        channel_depth(),
                        limits,
                    );
                    lemma_document_from_well_formed(
                        events,
                        after_close(close, hi),
                        loose_item(events, pos + 1, close, name, attrs, noted, limits),
                        limits,
                    );
                } else {
                    lemma_document_from_well_formed(events, pos + 1, noted, limits);
                }
            },
            XmlEventView::Error(_) => {},
            _ => {
                lemma_document_from_well_formed(events, pos + 1, feed, limits);
            },
        }
    }
}

/// Whatever the events and the limits, the feed read from them is well
/// formed: its diagnostic matches its flag, its encoding is named, none of
/// its lists is longer than its limit, and none of its records lacks what
/// identifies it.
pub proof fn lemma_rss_feed_well_formed(events: Seq<XmlEventView>, limits: ParserLimits)
    ensures
        rss_feed(events, limits).well_formed(limits),
{
    reveal_strlit("utf-8");
    lemma_document_from_well_formed(events, 0, blank_rss(), limits);
}

} // verus!
