//! When a date in a feed is reported as unreadable.

use vstd::prelude::*;
use crate::limits::ParserLimits;
use crate::parser::rss::{
    channel_with, feed_with_item, item_with, with_diagnostic, ChannelField, ItemField,
    ItemOutcomeView,
};
use crate::types::feed::ParsedFeedView;
use crate::util::date::parsed_date;

verus! {

/// A channel date that is there but cannot be read leaves the feed as it
/// was, except that it is flagged, with the date named as the reason.
pub proof fn lemma_unreadable_channel_date_is_reported(
    feed: ParsedFeedView,
    text: Seq<char>,
    limits: ParserLimits,
)
    requires
        text.len() > 0,
        parsed_date(text) is None,
    ensures
        channel_with(feed, ChannelField::PubDate, text, limits) == with_diagnostic(
            feed,
            "Invalid pubDate format"@,
        ),
        channel_with(feed, ChannelField::PubDate, text, limits).bozo,
        channel_with(feed, ChannelField::PubDate, text, limits).bozo_exception == Some(
            "Invalid pubDate format"@,
        ),
{
}

/// A channel date that is empty, or that can be read, changes neither the
/// flag nor the diagnostic of the feed.
pub proof fn lemma_other_channel_dates_are_not_reported(
    feed: ParsedFeedView,
    text: Seq<char>,
    limits: ParserLimits,
)
    requires
        text.len() == 0 || parsed_date(text) is Some,
    ensures
        channel_with(feed, ChannelField::PubDate, text, limits).bozo == feed.bozo,
        channel_with(feed, ChannelField::PubDate, text, limits).bozo_exception
            == feed.bozo_exception,
        parsed_date(text) is Some ==> channel_with(
            feed,
            ChannelField::PubDate,
            text,
            limits,
        ).feed.updated == parsed_date(text),
{
}

/// An item date that is there but cannot be read leaves the entry as it
/// was and is named in the diagnostic of the item, which flags the feed
/// that takes the item in.
pub proof fn lemma_unreadable_item_date_is_reported(
    feed: ParsedFeedView,
    item: ItemOutcomeView,
    text: Seq<char>,
    limits: ParserLimits,
)
    requires
        text.len() > 0,
        parsed_date(text) is None,
    ensures
        item_with(item, ItemField::PubDate, text, limits).entry == item.entry,
        item_with(item, ItemField::PubDate, text, limits).diagnostic == Some(
            "Invalid pubDate format"@,
        ),
        feed_with_item(feed, item_with(item, ItemField::PubDate, text, limits)).bozo,
        feed_with_item(feed, item_with(item, ItemField::PubDate, text, limits)).bozo_exception
            == Some("Invalid pubDate format"@),
{
}

/// An item date that is empty, or that can be read, leaves the diagnostic
/// of the item as it was.
pub proof fn lemma_other_item_dates_are_not_reported(
    item: ItemOutcomeView,
    text: Seq<char>,
    limits: ParserLimits,
)
    requires
        text.len() == 0 || parsed_date(text) is Some,
    ensures
        item_with(item, ItemField::PubDate, text, limits).diagnostic == item.diagnostic,
        parsed_date(text) is Some ==> item_with(
            item,
            ItemField::PubDate,
            text,
            limits,
        ).entry.published == parsed_date(text),
{
}

} // verus!
