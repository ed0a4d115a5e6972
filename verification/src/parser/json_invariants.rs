//! What holds of every feed the JSON Feed parser returns, whatever the
//! input.

use vstd::prelude::*;
use crate::json::{text_member, JsonView};
use crate::limits::ParserLimits;
use crate::parser::atom::{entry_with_author, feed_with_author};
use crate::parser::invariants::lemma_item_with_well_formed;
use crate::parser::extensions::item_with_content;
use crate::parser::json::{
    feed_with_address, feed_with_authors, feed_with_items, item_with_attachments,
    item_with_authors, item_with_date, item_with_tags, items_of, json_authors, json_feed,
    json_item, json_person, named_version, JsonDate,
};
use crate::parser::rss::{
    blank_item, channel_with, feed_with_item, item_with, ChannelField, ItemField,
    ItemOutcomeView,
};
use crate::types::entry::EntryView;
use crate::types::feed::{FeedMetaView, ParsedFeedView};

verus! {

/// Adding authors keeps an entry well formed.
pub proof fn lemma_item_with_authors_well_formed(
    item: ItemOutcomeView,
    authors: Seq<JsonView>,
    pos: int,
    limits: ParserLimits,
)
    requires
        item.entry.well_formed(limits),
    ensures
        item_with_authors(item, authors, pos, limits).entry.well_formed(limits),
    decreases authors.len() - pos,
{
    if !(pos < 0 || pos >= authors.len()) {
        let next = entry_with_author(item, json_person(authors[pos]), limits);
        assert(next.entry.well_formed(limits));
        lemma_item_with_authors_well_formed(next, authors, pos + 1, limits);
    }
}

/// Adding tags keeps an entry well formed.
pub proof fn lemma_item_with_tags_well_formed(
    item: ItemOutcomeView,
    tags: Seq<JsonView>,
    pos: int,
    limits: ParserLimits,
)
    requires
        item.entry.well_formed(limits),
    ensures
        item_with_tags(item, tags, pos, limits).entry.well_formed(limits),
    decreases tags.len() - pos,
{
    if !(pos < 0 || pos >= tags.len()) {
        match tags[pos] {
            JsonView::Text(term) => {
                lemma_item_with_well_formed(item, ItemField::Category, term, limits);
                lemma_item_with_tags_well_formed(
                    item_with(item, ItemField::Category, term, limits),
                    tags,
                    pos + 1,
                    limits,
                );
            },
            _ => {
                lemma_item_with_tags_well_formed(item, tags, pos + 1, limits);
            },
        }
    }
}

/// Adding attachments keeps an entry well formed.
pub proof fn lemma_item_with_attachments_well_formed(
    item: ItemOutcomeView,
    attachments: Seq<JsonView>,
    pos: int,
    limits: ParserLimits,
)
    requires
        item.entry.well_formed(limits),
    ensures
        item_with_attachments(item, attachments, pos, limits).entry.well_formed(limits),
    decreases attachments.len() - pos,
{
    if !(pos < 0 || pos >= attachments.len()) {
        let next = match crate::parser::json::json_enclosure(attachments[pos]) {
            Some(enclosure) => if item.entry.enclosures.len() < limits.max_enclosures {
                ItemOutcomeView {
                    entry: EntryView {
                        enclosures: item.entry.enclosures.push(enclosure),
                        ..item.entry
                    },
                    ..item
                }
            } else {
                ItemOutcomeView {
                    diagnostic: Some(
                        crate::limits::limit_message("Enclosure", limits.max_enclosures),
                    ),
                    ..item
                }
            },
            None => item,
        };
        assert(next.entry.well_formed(limits));
        lemma_item_with_attachments_well_formed(next, attachments, pos + 1, limits);
    }
}

/// Every entry that is read from an item object is well formed.
pub proof fn lemma_json_item_well_formed(value: JsonView, limits: ParserLimits)
    ensures
        json_item(value, limits).entry.well_formed(limits),
{
    let a = blank_item();
    let b = match text_member(value, "id"@) {
        Some(t) => item_with(a, ItemField::Guid, t, limits),
        None => a,
    };
    let c = match text_member(value, "url"@) {
        Some(t) => item_with(b, ItemField::Link, t, limits),
        None => b,
    };
    let d = match text_member(value, "title"@) {
        Some(t) => item_with(c, ItemField::Title, t, limits),
        None => c,
    };
    let e = match text_member(value, "summary"@) {
        Some(t) => ItemOutcomeView { entry: EntryView { summary: Some(t), ..d.entry }, ..d },
        None => d,
    };
    let f = match text_member(value, "content_html"@) {
        Some(t) => item_with_content(e, t, "text/html"@, limits),
        None => e,
    };
    let g = match text_member(value, "content_text"@) {
        Some(t) => item_with_content(f, t, "text/plain"@, limits),
        None => f,
    };
    let h = match text_member(value, "date_published"@) {
        Some(t) => item_with_date(g, JsonDate::Published, t),
        None => g,
    };
    let i = match text_member(value, "date_modified"@) {
        Some(t) => item_with_date(h, JsonDate::Modified, t),
        None => h,
    };
    assert(b.entry.well_formed(limits));
    assert(c.entry.well_formed(limits));
    assert(d.entry.well_formed(limits));
    assert(e.entry.well_formed(limits));
    assert(f.entry.well_formed(limits));
    assert(g.entry.well_formed(limits));
    assert(h.entry.well_formed(limits));
    assert(i.entry.well_formed(limits));
    let j = item_with_authors(i, json_authors(value), 0, limits);
    lemma_item_with_authors_well_formed(i, json_authors(value), 0, limits);
    let k = item_with_tags(j, items_of(value, "tags"@), 0, limits);
    lemma_item_with_tags_well_formed(j, items_of(value, "tags"@), 0, limits);
    lemma_item_with_attachments_well_formed(k, items_of(value, "attachments"@), 0, limits);
}

/// Adding authors keeps a feed well formed.
pub proof fn lemma_feed_with_authors_well_formed(
    feed: ParsedFeedView,
    authors: Seq<JsonView>,
    pos: int,
    limits: ParserLimits,
)
    requires
        feed.well_formed(limits),
    ensures
        feed_with_authors(feed, authors, pos, limits).well_formed(limits),
    decreases authors.len() - pos,
{
    if !(pos < 0 || pos >= authors.len()) {
        let next = feed_with_author(feed, json_person(authors[pos]), limits);
        assert(next.well_formed(limits));
        lemma_feed_with_authors_well_formed(next, authors, pos + 1, limits);
    }
}

/// Reading items keeps a feed well formed.
pub proof fn lemma_feed_with_items_well_formed(
    feed: ParsedFeedView,
    items: Seq<JsonView>,
    pos: int,
    limits: ParserLimits,
)
    requires
        feed.well_formed(limits),
    ensures
        feed_with_items(feed, items, pos, limits).well_formed(limits),
    decreases items.len() - pos,
{
    if !(pos < 0 || pos >= items.len()) {
        lemma_json_item_well_formed(items[pos], limits);
        let next = if !(items[pos] is Object) {
            crate::parser::rss::with_diagnostic(feed, "Item is not an object"@)
        } else if feed.entries.len() >= limits.max_entries {
            crate::parser::rss::with_diagnostic(
                feed,
                crate::limits::limit_message("Entry", limits.max_entries),
            )
        } else {
            feed_with_item(feed, json_item(items[pos], limits))
        };
        assert(next.well_formed(limits));
        lemma_feed_with_items_well_formed(next, items, pos + 1, limits);
    }
}

/// Whatever the value and the limits, the feed read from it is well formed.
pub proof fn lemma_json_feed_well_formed(value: JsonView, limits: ParserLimits)
    ensures
        json_feed(value, limits).well_formed(limits),
{
    reveal_strlit("utf-8");
    if value is Object {
        let a = ParsedFeedView {
            version: named_version(text_member(value, "version"@)),
            ..ParsedFeedView::initial()
        };
        let b = match text_member(value, "title"@) {
            Some(t) => channel_with(a, ChannelField::Title, t, limits),
            None => a,
        };
        let c = match text_member(value, "home_page_url"@) {
            Some(t) => channel_with(b, ChannelField::Link, t, limits),
            None => b,
        };
        let d = match text_member(value, "feed_url"@) {
            Some(t) => feed_with_address(c, t, limits),
            None => c,
        };
        let e = match text_member(value, "description"@) {
            Some(t) => channel_with(d, ChannelField::Description, t, limits),
            None => d,
        };
        let f = match text_member(value, "icon"@) {
            Some(t) => ParsedFeedView { feed: FeedMetaView { icon: Some(t), ..e.feed }, ..e },
            None => e,
        };
        let g = match text_member(value, "favicon"@) {
            Some(t) => ParsedFeedView { feed: FeedMetaView { logo: Some(t), ..f.feed }, ..f },
            None => f,
        };
        let h = match text_member(value, "language"@) {
            Some(t) => channel_with(g, ChannelField::Language, t, limits),
            None => g,
        };
        assert(a.well_formed(limits));
        assert(b.well_formed(limits));
        assert(c.well_formed(limits));
        assert(d.well_formed(limits));
        assert(e.well_formed(limits));
        assert(f.well_formed(limits));
        assert(g.well_formed(limits));
        assert(h.well_formed(limits));
        let i = feed_with_authors(h, json_authors(value), 0, limits);
        lemma_feed_with_authors_well_formed(h, json_authors(value), 0, limits);
        lemma_feed_with_items_well_formed(i, items_of(value, "items"@), 0, limits);
    }
}

} // verus!
