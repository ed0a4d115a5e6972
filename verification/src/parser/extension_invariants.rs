//! What reading an extension element leaves as it was.

use vstd::prelude::*;
use vstd::utf8::encode_utf8;
use crate::limits::ParserLimits;
use crate::parser::extensions::{
    entry_with_extension, feed_with_extension, Extension, ExtensionContentView,
};
use crate::parser::invariants::links_have_targets;
use crate::parser::rss::ItemOutcomeView;
use crate::parser::values::lemma_list_from_bound;
use crate::types::feed::ParsedFeedView;
use crate::xml::XmlAttrView;

verus! {

/// Reading an extension element keeps an entry well formed.
pub proof fn lemma_entry_with_extension_well_formed(
    item: ItemOutcomeView,
    ext: Extension,
    attrs: Seq<XmlAttrView>,
    text: Seq<char>,
    limits: ParserLimits,
)
    requires
        item.entry.well_formed(limits),
    ensures
        entry_with_extension(item, ext, attrs, text, limits).entry.well_formed(limits),
{
}

/// Reading an extension element changes neither the entries of a feed nor
/// its encoding, version and namespaces, and a feed that is flagged stays
/// flagged.
pub proof fn lemma_feed_with_extension_keeps_entries(
    feed: ParsedFeedView,
    ext: Extension,
    attrs: Seq<XmlAttrView>,
    content: ExtensionContentView,
    limits: ParserLimits,
)
    ensures
        feed_with_extension(feed, ext, attrs, content, limits).entries == feed.entries,
        feed_with_extension(feed, ext, attrs, content, limits).encoding == feed.encoding,
        feed_with_extension(feed, ext, attrs, content, limits).version == feed.version,
        feed_with_extension(feed, ext, attrs, content, limits).namespaces == feed.namespaces,
        feed.bozo ==> feed_with_extension(feed, ext, attrs, content, limits).bozo,
        feed.bozo == feed.bozo_exception is Some ==> feed_with_extension(
            feed,
            ext,
            attrs,
            content,
            limits,
        ).bozo == feed_with_extension(feed, ext, attrs, content, limits).bozo_exception is Some,
{
    reveal(feed_with_extension);
}

/// Reading an extension element leaves the tags, the people and the image
/// of a feed as they were, and its links whole and within their limit.
pub proof fn lemma_feed_with_extension_keeps_lists(
    feed: ParsedFeedView,
    ext: Extension,
    attrs: Seq<XmlAttrView>,
    content: ExtensionContentView,
    limits: ParserLimits,
)
    ensures
        feed_with_extension(feed, ext, attrs, content, limits).feed.tags == feed.feed.tags,
        feed_with_extension(feed, ext, attrs, content, limits).feed.authors == feed.feed.authors,
        feed_with_extension(feed, ext, attrs, content, limits).feed.contributors
            == feed.feed.contributors,
        feed_with_extension(feed, ext, attrs, content, limits).feed.image == feed.feed.image,
        feed.feed.links.len() <= limits.max_links_per_feed ==> feed_with_extension(
            feed,
            ext,
            attrs,
            content,
            limits,
        ).feed.links.len() <= limits.max_links_per_feed,
        links_have_targets(feed.feed.links) ==> links_have_targets(
            feed_with_extension(feed, ext, attrs, content, limits).feed.links,
        ),
{
    reveal(feed_with_extension);
}

/// Reading an extension element keeps the lists that extension elements
/// fill within their limits.
pub proof fn lemma_feed_with_extension_keeps_within(
    feed: ParsedFeedView,
    ext: Extension,
    attrs: Seq<XmlAttrView>,
    content: ExtensionContentView,
    limits: ParserLimits,
)
    requires
        feed.feed.extensions_within(limits),
    ensures
        feed_with_extension(feed, ext, attrs, content, limits).feed.extensions_within(limits),
{
    reveal(feed_with_extension);
    if ext == Extension::ItunesKeywords {
        lemma_list_from_bound(encode_utf8(content.text), 0, Seq::empty(), limits.max_tags);
    }
}

/// An element that is no known extension adds nothing to a feed.
pub proof fn lemma_unknown_extension_adds_nothing(
    feed: ParsedFeedView,
    attrs: Seq<XmlAttrView>,
    content: ExtensionContentView,
    limits: ParserLimits,
)
    ensures
        feed_with_extension(feed, Extension::Unknown, attrs, content, limits) == feed,
{
    reveal(feed_with_extension);
}

/// Reading an extension element keeps a feed well formed.
pub proof fn lemma_feed_with_extension_well_formed(
    feed: ParsedFeedView,
    ext: Extension,
    attrs: Seq<XmlAttrView>,
    content: ExtensionContentView,
    limits: ParserLimits,
)
    requires
        feed.well_formed(limits),
    ensures
        feed_with_extension(feed, ext, attrs, content, limits).well_formed(limits),
{
    lemma_feed_with_extension_keeps_entries(feed, ext, attrs, content, limits);
    lemma_feed_with_extension_keeps_lists(feed, ext, attrs, content, limits);
    lemma_feed_with_extension_keeps_within(feed, ext, attrs, content, limits);
}

} // verus!
