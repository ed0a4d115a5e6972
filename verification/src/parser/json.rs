//! The JSON Feed parser.

use vstd::prelude::*;
use serde_json::Value;
use crate::error::{prefixed, FeedErrorView};
use crate::json::{
    as_array, from_slice, get, get_number, get_string, get_text, is_an_object, json_document,
    json_value, list_member, member, number_member, text_member, JsonView,
};
use crate::limits::{
    lemma_push_deep_view, limit_exceeded, limit_message, try_push_limited, ParserLimits,
};
use crate::parser::atom::{
    add_entry_author, add_feed_author, entry_with_author, feed_with_author, same_text,
};
use crate::parser::extensions::{add_content, item_with_content};
use crate::parser::json_invariants::lemma_json_feed_well_formed;
use crate::parser::rss::{
    add_item, blank_item, channel_with, feed_with_item, init_feed, item_with, set_channel_field,
    set_diagnostic, set_item_field, with_diagnostic, ChannelField, ItemField, ItemOutcome,
    ItemOutcomeView,
};
use crate::types::common::{Enclosure, EnclosureView, Link, LinkView, Person, PersonView};
use crate::types::entry::{Entry, EntryView};
use crate::types::feed::{FeedMetaView, ParsedFeed, ParsedFeedView};
use crate::types::version::FeedVersion;
use crate::util::date::{parse_date, parsed_date};

verus! {

/// The person that an author object describes.
pub open spec fn json_person(value: JsonView) -> PersonView {
    PersonView { name: text_member(value, "name"@), email: None, uri: text_member(value, "url"@) }
}

/// The person that an author object describes.
pub fn read_person(value: &Value) -> (person: Person)
    ensures
        person.deep_view() == json_person(json_value(value)),
{
    Person { name: get_text(value, "name"), email: None, uri: get_text(value, "url") }
}

/// The item after the authors from `pos` on were added.
pub open spec fn item_with_authors(
    item: ItemOutcomeView,
    authors: Seq<JsonView>,
    pos: int,
    limits: ParserLimits,
) -> ItemOutcomeView
    decreases authors.len() - pos,
{
    if pos < 0 || pos >= authors.len() {
        item
    } else {
        item_with_authors(
            entry_with_author(item, json_person(authors[pos]), limits),
            authors,
            pos + 1,
            limits,
        )
    }
}

/// The feed after the authors from `pos` on were added.
pub open spec fn feed_with_authors(
    feed: ParsedFeedView,
    authors: Seq<JsonView>,
    pos: int,
    limits: ParserLimits,
) -> ParsedFeedView
    decreases authors.len() - pos,
{
    if pos < 0 || pos >= authors.len() {
        feed
    } else {
        feed_with_authors(
            feed_with_author(feed, json_person(authors[pos]), limits),
            authors,
            pos + 1,
            limits,
        )
    }
}

/// The authors of a feed or an item: the items of `authors` where that is
/// an array, else the one `author` where there is one.
pub open spec fn json_authors(value: JsonView) -> Seq<JsonView> {
    match list_member(value, "authors"@) {
        Some(authors) => authors,
        None => match member(value, "author"@) {
            Some(author) => seq![author],
            None => Seq::empty(),
        },
    }
}

/// Adds the authors of an item.
pub fn read_item_authors(item: &mut ItemOutcome, value: &Value, limits: &ParserLimits)
    ensures
        final(item).deep_view() == item_with_authors(
            old(item).deep_view(),
            json_authors(json_value(value)),
            0,
            *limits,
        ),
{
    match get(value, "authors") {
        Some(inner) => match as_array(inner) {
            Some(authors) => {
                let mut pos: usize = 0;
                while pos < authors.len()
                    invariant
                        pos <= authors.len(),
                        json_authors(json_value(value)).len() == authors@.len(),
                        forall|i: int|
                            0 <= i < authors@.len() ==> json_value(&#[trigger] authors@[i])
                                == json_authors(json_value(value))[i],
                        item_with_authors(
                            item.deep_view(),
                            json_authors(json_value(value)),
                            pos as int,
                            *limits,
                        ) == item_with_authors(
                            old(item).deep_view(),
                            json_authors(json_value(value)),
                            0,
                            *limits,
                        ),
                    decreases authors.len() - pos,
                {
                    add_entry_author(item, read_person(&authors[pos]), limits);
                    pos += 1;
                }
                return ;
            },
            None => {},
        },
        None => {},
    }
    match get(value, "author") {
        Some(author) => {
            let ghost authors = json_authors(json_value(value));
            assert(authors =~= seq![json_value(author)]);
            add_entry_author(item, read_person(author), limits);
            assert(item_with_authors(item.deep_view(), authors, 1, *limits) == item.deep_view());
        },
        None => {},
    }
}

/// Adds the authors of a feed.
pub fn read_feed_authors(feed: &mut ParsedFeed, value: &Value, limits: &ParserLimits)
    ensures
        final(feed).deep_view() == feed_with_authors(
            old(feed).deep_view(),
            json_authors(json_value(value)),
            0,
            *limits,
        ),
{
    match get(value, "authors") {
        Some(inner) => match as_array(inner) {
            Some(authors) => {
                let mut pos: usize = 0;
                while pos < authors.len()
                    invariant
                        pos <= authors.len(),
                        json_authors(json_value(value)).len() == authors@.len(),
                        forall|i: int|
                            0 <= i < authors@.len() ==> json_value(&#[trigger] authors@[i])
                                == json_authors(json_value(value))[i],
                        feed_with_authors(
                            feed.deep_view(),
                            json_authors(json_value(value)),
                            pos as int,
                            *limits,
                        ) == feed_with_authors(
                            old(feed).deep_view(),
                            json_authors(json_value(value)),
                            0,
                            *limits,
                        ),
                    decreases authors.len() - pos,
                {
                    add_feed_author(feed, read_person(&authors[pos]), limits);
                    pos += 1;
                }
                return ;
            },
            None => {},
        },
        None => {},
    }
    match get(value, "author") {
        Some(author) => {
            let ghost authors = json_authors(json_value(value));
            assert(authors =~= seq![json_value(author)]);
            add_feed_author(feed, read_person(author), limits);
            assert(feed_with_authors(feed.deep_view(), authors, 1, *limits) == feed.deep_view());
        },
        None => {},
    }
}

/// The item after the tags from `pos` on were added: every tag that is a
/// string counts.
pub open spec fn item_with_tags(
    item: ItemOutcomeView,
    tags: Seq<JsonView>,
    pos: int,
    limits: ParserLimits,
) -> ItemOutcomeView
    decreases tags.len() - pos,
{
    if pos < 0 || pos >= tags.len() {
        item
    } else {
        item_with_tags(
            match tags[pos] {
                JsonView::Text(term) => item_with(item, ItemField::Category, term, limits),
                _ => item,
            },
            tags,
            pos + 1,
            limits,
        )
    }
}

/// The items of the member `key`, or none where it is no array.
pub open spec fn items_of(value: JsonView, key: Seq<char>) -> Seq<JsonView> {
    match list_member(value, key) {
        Some(items) => items,
        None => Seq::empty(),
    }
}

/// Adds the tags of an item.
pub fn read_tags(item: &mut ItemOutcome, value: &Value, limits: &ParserLimits)
    ensures
        final(item).deep_view() == item_with_tags(
            old(item).deep_view(),
            items_of(json_value(value), "tags"@),
            0,
            *limits,
        ),
{
    match get(value, "tags") {
        Some(inner) => match as_array(inner) {
            Some(tags) => {
                let ghost all = items_of(json_value(value), "tags"@);
                let mut pos: usize = 0;
                while pos < tags.len()
                    invariant
                        pos <= tags.len(),
                        all.len() == tags@.len(),
                        forall|i: int|
                            0 <= i < tags@.len() ==> json_value(&#[trigger] tags@[i]) == all[i],
                        item_with_tags(item.deep_view(), all, pos as int, *limits)
                            == item_with_tags(old(item).deep_view(), all, 0, *limits),
                    decreases tags.len() - pos,
                {
                    match get_string(&tags[pos]) {
                        Some(term) => {
                            set_item_field(item, ItemField::Category, term, limits);
                        },
                        None => {},
                    }
                    pos += 1;
                }
            },
            None => {},
        },
        None => {},
    }
}

/// The enclosure that an attachment describes: none without a URL.
pub open spec fn json_enclosure(value: JsonView) -> Option<EnclosureView> {
    match text_member(value, "url"@) {
        Some(url) => if url.len() == 0 {
            None
        } else {
            Some(
                EnclosureView {
                    url,
                    length: number_member(value, "size_in_bytes"@),
                    enclosure_type: text_member(value, "mime_type"@),
                },
            )
        },
        None => None,
    }
}

/// The item after the attachments from `pos` on were added.
pub open spec fn item_with_attachments(
    item: ItemOutcomeView,
    attachments: Seq<JsonView>,
    pos: int,
    limits: ParserLimits,
) -> ItemOutcomeView
    decreases attachments.len() - pos,
{
    if pos < 0 || pos >= attachments.len() {
        item
    } else {
        item_with_attachments(
            match json_enclosure(attachments[pos]) {
                Some(enclosure) => if item.entry.enclosures.len() < limits.max_enclosures {
                    ItemOutcomeView {
                        entry: EntryView {
                            enclosures: item.entry.enclosures.push(enclosure),
                            ..item.entry
                        },
                        ..item
                    }
                } else {
                    ItemOutcomeView {
                        diagnostic: Some(limit_message("Enclosure", limits.max_enclosures)),
                        ..item
                    }
                },
                None => item,
            },
            attachments,
            pos + 1,
            limits,
        )
    }
}

/// The enclosure that an attachment describes.
pub fn read_enclosure(value: &Value) -> (enclosure: Option<Enclosure>)
    ensures
        enclosure.deep_view() == json_enclosure(json_value(value)),
{
    match get_text(value, "url") {
        Some(url) => {
            if url.as_str().is_empty() {
                return None;
            }
            Some(
                Enclosure {
                    url,
                    length: get_number(value, "size_in_bytes"),
                    enclosure_type: get_text(value, "mime_type"),
                },
            )
        },
        None => None,
    }
}

/// Adds the attachments of an item.
pub fn read_attachments(item: &mut ItemOutcome, value: &Value, limits: &ParserLimits)
    ensures
        final(item).deep_view() == item_with_attachments(
            old(item).deep_view(),
            items_of(json_value(value), "attachments"@),
            0,
            *limits,
        ),
{
    match get(value, "attachments") {
        Some(inner) => match as_array(inner) {
            Some(attachments) => {
                let ghost all = items_of(json_value(value), "attachments"@);
                let mut pos: usize = 0;
                while pos < attachments.len()
                    invariant
                        pos <= attachments.len(),
                        all.len() == attachments@.len(),
                        forall|i: int|
                            0 <= i < attachments@.len() ==> json_value(
                                &#[trigger] attachments@[i],
                            ) == all[i],
                        item_with_attachments(item.deep_view(), all, pos as int, *limits)
                            == item_with_attachments(old(item).deep_view(), all, 0, *limits),
                    decreases attachments.len() - pos,
                {
                    match read_enclosure(&attachments[pos]) {
                        Some(enclosure) => {
                            let ghost before = item.entry.enclosures;
                            let ghost added = enclosure;
                            if try_push_limited(
                                &mut item.entry.enclosures,
                                enclosure,
                                limits.max_enclosures,
                            ) {
                                proof {
                                    lemma_push_deep_view(before, item.entry.enclosures, added);
                                }
                            } else {
                                item.diagnostic = Some(
                                    limit_exceeded("Enclosure", limits.max_enclosures),
                                );
                            }
                        },
                        None => {},
                    }
                    pos += 1;
                }
            },
            None => {},
        },
        None => {},
    }
}

/// The two dates of an item.
#[derive(Debug, Clone, Copy, PartialEq, Eq, Structural)]
pub enum JsonDate {
    Published,
    Modified,
}

/// The item after one of its dates was read as `text`.
pub open spec fn item_with_date(item: ItemOutcomeView, which: JsonDate, text: Seq<char>)
    -> ItemOutcomeView {
    match parsed_date(text) {
        Some(date) => match which {
            JsonDate::Published => ItemOutcomeView {
                entry: EntryView { published: Some(date), ..item.entry },
                ..item
            },
            JsonDate::Modified => ItemOutcomeView {
                entry: EntryView { updated: Some(date), ..item.entry },
                ..item
            },
        },
        None => if text.len() == 0 {
            item
        } else {
            match which {
                JsonDate::Published => ItemOutcomeView {
                    diagnostic: Some("Invalid date_published format"@),
                    ..item
                },
                JsonDate::Modified => ItemOutcomeView {
                    diagnostic: Some("Invalid date_modified format"@),
                    ..item
                },
            }
        },
    }
}

/// Stores one of the dates of an item.
pub fn set_date(item: &mut ItemOutcome, which: JsonDate, text: String)
    ensures
        final(item).deep_view() == item_with_date(old(item).deep_view(), which, text@),
{
    match parse_date(text.as_str()) {
        Some(date) => match which {
            JsonDate::Published => {
                item.entry.published = Some(date);
            },
            JsonDate::Modified => {
                item.entry.updated = Some(date);
            },
        },
        None => {
            if !text.as_str().is_empty() {
                match which {
                    JsonDate::Published => {
                        item.diagnostic = Some("Invalid date_published format".to_owned());
                    },
                    JsonDate::Modified => {
                        item.diagnostic = Some("Invalid date_modified format".to_owned());
                    },
                }
            }
        },
    }
}

/// The entry that an item object describes, with the last thing in it
/// that could not be read cleanly.
///
/// `id`, `url`, `title` and `summary` are stored as they are, `url` also
/// as the `alternate` link; `content_html` and `content_text` become
/// content blocks, `date_published` and `date_modified` the dates, the
/// authors, tags and attachments the lists of the entry.
pub open spec fn json_item(value: JsonView, limits: ParserLimits) -> ItemOutcomeView {
    let a = blank_item();
    let b = match text_member(value, "id"@) {
        Some(t) => item_with(a, ItemField::Guid, t, limits),
        None => a,
    };
    let c = match text_member(value, "url"@) {
        Some(t) => item_with(b, ItemField::Link, t, limits),
        None => b,
    };
    let d = match text_member(value, "title"@) {
        Some(t) => item_with(c, ItemField::Title, t, limits),
        None => c,
    };
    let e = match text_member(value, "summary"@) {
        Some(t) => ItemOutcomeView { entry: EntryView { summary: Some(t), ..d.entry }, ..d },
        None => d,
    };
    let f = match text_member(value, "content_html"@) {
        Some(t) => item_with_content(e, t, "text/html"@, limits),
        None => e,
    };
    let g = match text_member(value, "content_text"@) {
        Some(t) => item_with_content(f, t, "text/plain"@, limits),
        None => f,
    };
    let h = match text_member(value, "date_published"@) {
        Some(t) => item_with_date(g, JsonDate::Published, t),
        None => g,
    };
    let i = match text_member(value, "date_modified"@) {
        Some(t) => item_with_date(h, JsonDate::Modified, t),
        None => h,
    };
    let j = item_with_authors(i, json_authors(value), 0, limits);
    let k = item_with_tags(j, items_of(value, "tags"@), 0, limits);
    item_with_attachments(k, items_of(value, "attachments"@), 0, limits)
}

/// Reads an item object.
pub fn parse_json_item(value: &Value, limits: &ParserLimits) -> (item: ItemOutcome)
    ensures
        item.deep_view() == json_item(json_value(value), *limits),
{
    let mut item = ItemOutcome { entry: Entry::with_capacity(), diagnostic: None };
    match get_text(value, "id") {
        Some(t) => {
            set_item_field(&mut item, ItemField::Guid, t, limits);
        },
        None => {},
    }
    match get_text(value, "url") {
        Some(t) => {
            set_item_field(&mut item, ItemField::Link, t, limits);
        },
        None => {},
    }
    match get_text(value, "title") {
        Some(t) => {
            set_item_field(&mut item, ItemField::Title, t, limits);
        },
        None => {},
    }
    match get_text(value, "summary") {
        Some(t) => {
            item.entry.summary = Some(t);
        },
        None => {},
    }
    match get_text(value, "content_html") {
        Some(t) => {
            add_content(&mut item, t, "text/html", limits);
        },
        None => {},
    }
    match get_text(value, "content_text") {
        Some(t) => {
            add_content(&mut item, t, "text/plain", limits);
        },
        None => {},
    }
    match get_text(value, "date_published") {
        Some(t) => {
            set_date(&mut item, JsonDate::Published, t);
        },
        None => {},
    }
    match get_text(value, "date_modified") {
        Some(t) => {
            set_date(&mut item, JsonDate::Modified, t);
        },
        None => {},
    }
    read_item_authors(&mut item, value, limits);
    read_tags(&mut item, value, limits);
    read_attachments(&mut item, value, limits);
    item
}

/// The feed after the items from `pos` on were read: each object is an
/// entry while there is room; an item for which there is none, and one
/// that is no object, is reported.
pub open spec fn feed_with_items(
    feed: ParsedFeedView,
    items: Seq<JsonView>,
    pos: int,
    limits: ParserLimits,
) -> ParsedFeedView
    decreases items.len() - pos,
{
    if pos < 0 || pos >= items.len() {
        feed
    } else {
        feed_with_items(
            if !(items[pos] is Object) {
                with_diagnostic(feed, "Item is not an object"@)
            } else if feed.entries.len() >= limits.max_entries {
                with_diagnostic(feed, limit_message("Entry", limits.max_entries))
            } else {
                feed_with_item(feed, json_item(items[pos], limits))
            },
            items,
            pos + 1,
            limits,
        )
    }
}

/// Reads the items of a feed.
pub fn read_items(feed: &mut ParsedFeed, value: &Value, limits: &ParserLimits)
    ensures
        final(feed).deep_view() == feed_with_items(
            old(feed).deep_view(),
            items_of(json_value(value), "items"@),
            0,
            *limits,
        ),
{
    match get(value, "items") {
        Some(inner) => match as_array(inner) {
            Some(items) => {
                let ghost all = items_of(json_value(value), "items"@);
                let mut pos: usize = 0;
                while pos < items.len()
                    invariant
                        pos <= items.len(),
                        all.len() == items@.len(),
                        forall|i: int|
                            0 <= i < items@.len() ==> json_value(&#[trigger] items@[i]) == all[i],
                        feed_with_items(feed.deep_view(), all, pos as int, *limits)
                            == feed_with_items(old(feed).deep_view(), all, 0, *limits),
                    decreases items.len() - pos,
                {
                    if !is_an_object(&items[pos]) {
                        set_diagnostic(feed, "Item is not an object".to_owned());
                    } else if feed.entries.len() >= limits.max_entries {
                        set_diagnostic(feed, limit_exceeded("Entry", limits.max_entries));
                    } else {
                        add_item(feed, parse_json_item(&items[pos], limits));
                    }
                    pos += 1;
                }
            },
            None => {},
        },
        None => {},
    }
}

/// The version of JSON Feed that a `version` member names.
pub open spec fn named_version(version: Option<Seq<char>>) -> FeedVersion {
    if version == Some("https://jsonfeed.org/version/1.1"@) {
        FeedVersion::JsonFeed11
    } else if version == Some("https://jsonfeed.org/version/1"@) {
        FeedVersion::JsonFeed10
    } else {
        FeedVersion::Unknown
    }
}

/// The link that a `feed_url` stands for: the feed itself.
pub open spec fn self_link(href: Seq<char>) -> LinkView {
    LinkView {
        href,
        rel: Some("self"@),
        link_type: None,
        title: None,
        length: None,
        hreflang: None,
    }
}

/// The feed after its `feed_url` was read as `text`: it is the identifier
/// of the feed, and a link to the feed itself.
pub open spec fn feed_with_address(feed: ParsedFeedView, text: Seq<char>, limits: ParserLimits)
    -> ParsedFeedView {
    let meta = FeedMetaView { id: Some(text), ..feed.feed };
    if text.len() == 0 {
        ParsedFeedView { feed: meta, ..feed }
    } else if meta.links.len() < limits.max_links_per_feed {
        ParsedFeedView {
            feed: FeedMetaView { links: meta.links.push(self_link(text)), ..meta },
            ..feed
        }
    } else {
        with_diagnostic(
            ParsedFeedView { feed: meta, ..feed },
            limit_message("Link", limits.max_links_per_feed),
        )
    }
}

/// Stores the `feed_url` of a feed.
pub fn set_address(feed: &mut ParsedFeed, text: String, limits: &ParserLimits)
    ensures
        final(feed).deep_view() == feed_with_address(old(feed).deep_view(), text@, *limits),
{
    feed.feed.id = Some(text.clone());
    if !text.as_str().is_empty() {
        let link = Link {
            href: text,
            rel: Some("self".to_owned()),
            link_type: None,
            title: None,
            length: None,
            hreflang: None,
        };
        let ghost before = feed.feed.links;
        let ghost added = link;
        if try_push_limited(&mut feed.feed.links, link, limits.max_links_per_feed) {
            proof {
                lemma_push_deep_view(before, feed.feed.links, added);
            }
        } else {
            set_diagnostic(feed, limit_exceeded("Link", limits.max_links_per_feed));
        }
    }
}

/// The feed that a JSON value describes.
///
/// A value that is no object is reported and yields an empty feed. Of an
/// object, `version` decides the format; `title`, `home_page_url`,
/// `feed_url`, `description`, `icon`, `favicon` and `language` are stored,
/// then the authors, then the items as entries.
pub open spec fn json_feed(value: JsonView, limits: ParserLimits) -> ParsedFeedView {
    if !(value is Object) {
        with_diagnostic(ParsedFeedView::initial(), "JSON Feed document is not an object"@)
    } else {
        let a = ParsedFeedView {
            version: named_version(text_member(value, "version"@)),
            ..ParsedFeedView::initial()
        };
        let b = match text_member(value, "title"@) {
            Some(t) => channel_with(a, ChannelField::Title, t, limits),
            None => a,
        };
        let c = match text_member(value, "home_page_url"@) {
            Some(t) => channel_with(b, ChannelField::Link, t, limits),
            None => b,
        };
        let d = match text_member(value, "feed_url"@) {
            Some(t) => feed_with_address(c, t, limits),
            None => c,
        };
        let e = match text_member(value, "description"@) {
            Some(t) => channel_with(d, ChannelField::Description, t, limits),
            None => d,
        };
        let f = match text_member(value, "icon"@) {
            Some(t) => ParsedFeedView { feed: FeedMetaView { icon: Some(t), ..e.feed }, ..e },
            None => e,
        };
        let g = match text_member(value, "favicon"@) {
            Some(t) => ParsedFeedView { feed: FeedMetaView { logo: Some(t), ..f.feed }, ..f },
            None => f,
        };
        let h = match text_member(value, "language"@) {
            Some(t) => channel_with(g, ChannelField::Language, t, limits),
            None => g,
        };
        let i = feed_with_authors(h, json_authors(value), 0, limits);
        feed_with_items(i, items_of(value, "items"@), 0, limits)
    }
}

/// The version of JSON Feed that a `version` member names.
pub fn version_named(version: &Option<String>) -> (named: FeedVersion)
    ensures
        named == named_version(version.deep_view()),
{
    match version {
        Some(v) => if same_text(v, "https://jsonfeed.org/version/1.1") {
            FeedVersion::JsonFeed11
        } else if same_text(v, "https://jsonfeed.org/version/1") {
            FeedVersion::JsonFeed10
        } else {
            FeedVersion::Unknown
        },
        None => FeedVersion::Unknown,
    }
}

/// Reads a parsed JSON document as a JSON Feed.
pub fn parse_json_feed_value(value: &Value, limits: &ParserLimits) -> (feed: ParsedFeed)
    ensures
        feed.deep_view() == json_feed(json_value(value), *limits),
        feed.deep_view().well_formed(*limits),
{
    proof {
        lemma_json_feed_well_formed(json_value(value), *limits);
    }
    if !is_an_object(value) {
        let mut feed = ParsedFeed::new();
        set_diagnostic(&mut feed, "JSON Feed document is not an object".to_owned());
        return feed;
    }
    let version = get_text(value, "version");
    let mut feed = init_feed(version_named(&version), limits.max_entries);
    match get_text(value, "title") {
        Some(t) => {
            set_channel_field(&mut feed, ChannelField::Title, t, limits);
        },
        None => {},
    }
    match get_text(value, "home_page_url") {
        Some(t) => {
            set_channel_field(&mut feed, ChannelField::Link, t, limits);
        },
        None => {},
    }
    match get_text(value, "feed_url") {
        Some(t) => {
            set_address(&mut feed, t, limits);
        },
        None => {},
    }
    match get_text(value, "description") {
        Some(t) => {
            set_channel_field(&mut feed, ChannelField::Description, t, limits);
        },
        None => {},
    }
    match get_text(value, "icon") {
        Some(t) => {
            feed.feed.icon = Some(t);
        },
        None => {},
    }
    match get_text(value, "favicon") {
        Some(t) => {
            feed.feed.logo = Some(t);
        },
        None => {},
    }
    match get_text(value, "language") {
        Some(t) => {
            set_channel_field(&mut feed, ChannelField::Language, t, limits);
        },
        None => {},
    }
    read_feed_authors(&mut feed, value, limits);
    read_items(&mut feed, value, limits);
    feed
}

/// The feed that bytes describe as a JSON Feed: where they are no JSON
/// document, an empty feed that says so.
pub open spec fn json_feed_of(data: Seq<u8>, limits: ParserLimits) -> ParsedFeedView {
    match json_document(data) {
        Ok(value) => json_feed(value, limits),
        Err(message) => with_diagnostic(
            ParsedFeedView::initial(),
            FeedErrorView::JsonError(message).message(),
        ),
    }
}

/// Reads bytes as a JSON Feed.
pub fn parse_json_feed(data: &[u8], limits: &ParserLimits) -> (feed: ParsedFeed)
    ensures
        feed.deep_view() == json_feed_of(data@, *limits),
        feed.deep_view().well_formed(*limits),
{
    proof {
        reveal_strlit("utf-8");
    }
    match from_slice(data) {
        Ok(value) => parse_json_feed_value(&value, limits),
        Err(message) => {
            let mut feed = ParsedFeed::new();
            set_diagnostic(&mut feed, prefixed("JSON parsing error: ", message.as_str()));
            feed
        },
    }
}

} // verus!
