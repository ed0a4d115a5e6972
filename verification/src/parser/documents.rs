//! The entries of a whole document: every item of every channel, and
//! every item that stands outside a channel, in document order, up to the
//! limit.

use vstd::prelude::*;
use crate::limits::ParserLimits;
use crate::parser::clean::{
    fits, item_count, lemma_channel_is_read, lemma_every_item_is_readable, lemma_item_is_read,
    lemma_peak_grows, lemma_peak_shift, lemma_peak_split, no_errors, peak,
};
use crate::parser::common::{after_close, close_index, is_name, lemma_close_index_bounds};
use crate::parser::namespaces::{lemma_with_namespaces, with_namespaces};
use crate::parser::order::{
    first_n, item_entries, lemma_entries_are_the_items_in_order, lemma_flag_stays,
    lemma_items_beyond_room_set_the_flag, room_for,
};
use crate::parser::rss::{
    blank_item, blank_rss, channel_depth, channel_field_of, document_from, item_of, loose_item,
    rss_feed, whole_channel, ChannelField,
};
use crate::types::entry::EntryView;
use crate::types::feed::ParsedFeedView;
use crate::xml::{XmlAttrView, XmlEventView};

verus! {

/// The entry of an item outside a channel whose content is `[lo, hi)`, as
/// a list: empty where the item cannot be read.
pub open spec fn loose_item_entries(
    events: Seq<XmlEventView>,
    lo: int,
    hi: int,
    limits: ParserLimits,
) -> Seq<EntryView> {
    match item_of(events, lo, hi, channel_depth(), limits) {
        Ok(item) => seq![item.entry],
        Err(_) => Seq::empty(),
    }
}

/// The entries of the readable items of the document from `pos` on, in
/// document order: those of every channel met at the top level, and those
/// that stand there outside a channel.
pub open spec fn document_item_entries(
    events: Seq<XmlEventView>,
    pos: int,
    limits: ParserLimits,
) -> Seq<EntryView>
    decreases events.len() - pos,
{
    if pos < 0 || pos >= events.len() {
        Seq::empty()
    } else {
        match events[pos] {
            XmlEventView::Start(name, attrs) => {
                let hi = events.len() as int;
                let close = close_index(events, pos + 1, hi, 0);
                proof {
                    lemma_close_index_bounds(events, pos + 1, hi, 0);
                }
                if is_name(name, "channel") {
                    item_entries(events, pos + 1, close, channel_depth(), limits)
                        + document_item_entries(events, after_close(close, hi), limits)
                } else if channel_field_of(name) == ChannelField::Item {
                    loose_item_entries(events, pos + 1, close, limits) + document_item_entries(
                        events,
                        after_close(close, hi),
                        limits,
                    )
                } else {
                    document_item_entries(events, pos + 1, limits)
                }
            },
            _ => document_item_entries(events, pos + 1, limits),
        }
    }
}

/// How many `<item>` elements the document holds from `pos` on: in the
/// channels met at the top level, and outside a channel.
pub open spec fn document_item_count(events: Seq<XmlEventView>, pos: int) -> nat
    decreases events.len() - pos,
{
    if pos < 0 || pos >= events.len() {
        0
    } else {
        match events[pos] {
            XmlEventView::Start(name, attrs) => {
                let hi = events.len() as int;
                let close = close_index(events, pos + 1, hi, 0);
                proof {
                    lemma_close_index_bounds(events, pos + 1, hi, 0);
                }
                if is_name(name, "channel") {
                    item_count(events, pos + 1, close) + document_item_count(
                        events,
                        after_close(close, hi),
                    )
                } else if channel_field_of(name) == ChannelField::Item {
                    1 + document_item_count(events, after_close(close, hi))
                } else {
                    document_item_count(events, pos + 1)
                }
            },
            _ => document_item_count(events, pos + 1),
        }
    }
}

/// Whether the document from `pos` on holds no tokenizer error and no
/// element nested so deep that a channel in it would go over the limit.
pub open spec fn document_fits(events: Seq<XmlEventView>, pos: int, limits: ParserLimits) -> bool {
    &&& 0 <= pos <= events.len()
    &&& no_errors(events, pos, events.len() as int)
    &&& 1 + peak(events, pos, events.len() as int, 0) <= limits.max_nesting_depth
}

/// In a document that fits, the content of an element at the top level
/// fits as the content of a channel does, and so do the document behind
/// the element and the document behind its start tag.
pub proof fn lemma_channel_of_document_fits(
    events: Seq<XmlEventView>,
    pos: int,
    limits: ParserLimits,
)
    requires
        document_fits(events, pos, limits),
        pos < events.len(),
        events[pos] is Start,
    ensures
        fits(
            events,
            pos + 1,
            close_index(events, pos + 1, events.len() as int, 0),
            channel_depth(),
            limits,
        ),
        document_fits(
            events,
            after_close(close_index(events, pos + 1, events.len() as int, 0), events.len() as int),
            limits,
        ),
        document_fits(events, pos + 1, limits),
{
    let hi = events.len() as int;
    lemma_close_index_bounds(events, pos + 1, hi, 0);
    lemma_peak_split(events, pos + 1, hi, 0, 0);
    lemma_peak_shift(events, pos + 1, hi, 0, 1);
    lemma_peak_grows(events, pos + 1, hi, 0, 1);
}

/// In a document that fits, what comes behind an event that is no start
/// tag fits too.
pub proof fn lemma_rest_of_document_fits(events: Seq<XmlEventView>, pos: int, limits: ParserLimits)
    requires
        document_fits(events, pos, limits),
        pos < events.len(),
        !(events[pos] is Start),
    ensures
        document_fits(events, pos + 1, limits),
        !(events[pos] is Error),
{
}

/// The first of two lists taken together are the first of the one, and
/// then the first of the other as far as room is left.
pub proof fn lemma_first_n_of_both<T>(a: Seq<T>, b: Seq<T>, n: nat)
    ensures
        first_n(a + b, n) == first_n(a, n) + first_n(b, (n - first_n(a, n).len()) as nat),
{
    assert(first_n(a + b, n) =~= first_n(a, n) + first_n(b, (n - first_n(a, n).len()) as nat));
}

/// An item outside a channel adds its entry to the feed where it can be
/// read and there is room, and nothing else; a feed that is flagged stays
/// flagged, and an item for which there is no room flags the feed.
pub proof fn lemma_loose_item(
    events: Seq<XmlEventView>,
    lo: int,
    hi: int,
    name: Seq<u8>,
    attrs: Seq<XmlAttrView>,
    feed: ParsedFeedView,
    limits: ParserLimits,
)
    requires
        channel_field_of(name) == ChannelField::Item,
    ensures
        loose_item(events, lo, hi, name, attrs, feed, limits).entries == feed.entries + first_n(
            loose_item_entries(events, lo, hi, limits),
            room_for(feed.entries.len(), limits),
        ),
        feed.bozo ==> loose_item(events, lo, hi, name, attrs, feed, limits).bozo,
        loose_item_entries(events, lo, hi, limits).len() > room_for(feed.entries.len(), limits)
            ==> loose_item(events, lo, hi, name, attrs, feed, limits).bozo,
{
    let room = room_for(feed.entries.len(), limits);
    let found = loose_item_entries(events, lo, hi, limits);
    assert(feed.entries + first_n(found, room) =~= match item_of(
        events,
        lo,
        hi,
        channel_depth(),
        limits,
    ) {
        Ok(item) => if room > 0 {
            feed.entries.push(item.entry)
        } else {
            feed.entries
        },
        Err(_) => feed.entries,
    });
}

/// A feed that is flagged stays flagged while the document is read.
pub proof fn lemma_document_flag_stays(
    events: Seq<XmlEventView>,
    pos: int,
    feed: ParsedFeedView,
    limits: ParserLimits,
)
    requires
        feed.bozo,
    ensures
        document_from(events, pos, feed, limits).bozo,
    decreases events.len() - pos,
{
    if !(pos < 0 || pos >= events.len()) {
        match events[pos] {
            XmlEventView::Start(name, attrs) => {
                let noted = with_namespaces(feed, attrs, 0, limits);
                lemma_with_namespaces(feed, attrs, 0, limits);
                let hi = events.len() as int;
                let close = close_index(events, pos + 1, hi, 0);
                lemma_close_index_bounds(events, pos + 1, hi, 0);
                if is_name(name, "channel") {
                    lemma_flag_stays(events, pos + 1, close, noted, channel_depth(), limits);
                    lemma_document_flag_stays(
                        events,
                        after_close(close, hi),
                        whole_channel(events, pos + 1, close, noted, limits),
                        limits,
                    );
                } else if channel_field_of(name) == ChannelField::Item {
                    lemma_loose_item(events, pos + 1, close, name, attrs, noted, limits);
                    lemma_document_flag_stays(
                        events,
                        after_close(close, hi),
                        loose_item(events, pos + 1, close, name, attrs, noted, limits),
                        limits,
                    );
                } else {
                    lemma_document_flag_stays(events, pos + 1, noted, limits);
                }
            },
            XmlEventView::Error(_) => {},
            _ => {
                lemma_document_flag_stays(events, pos + 1, feed, limits);
            },
        }
    }
}

/// In a document that fits, every item is readable.
pub proof fn lemma_every_item_of_document_is_readable(
    events: Seq<XmlEventView>,
    pos: int,
    limits: ParserLimits,
)
    requires
        document_fits(events, pos, limits),
    ensures
        document_item_entries(events, pos, limits).len() == document_item_count(events, pos),
    decreases events.len() - pos,
{
    if pos < events.len() {
        match events[pos] {
            XmlEventView::Start(name, attrs) => {
                lemma_channel_of_document_fits(events, pos, limits);
                let hi = events.len() as int;
                let close = close_index(events, pos + 1, hi, 0);
                lemma_close_index_bounds(events, pos + 1, hi, 0);
                if is_name(name, "channel") {
                    lemma_every_item_is_readable(events, pos + 1, close, channel_depth(), limits);
                    lemma_every_item_of_document_is_readable(
                        events,
                        after_close(close, hi),
                        limits,
                    );
                } else if channel_field_of(name) == ChannelField::Item {
                    lemma_item_is_read(
                        events,
                        pos + 1,
                        close,
                        blank_item(),
                        channel_depth(),
                        limits,
                    );
                    lemma_every_item_of_document_is_readable(
                        events,
                        after_close(close, hi),
                        limits,
                    );
                } else {
                    lemma_every_item_of_document_is_readable(events, pos + 1, limits);
                }
            },
            _ => {
                lemma_rest_of_document_fits(events, pos, limits);
                lemma_every_item_of_document_is_readable(events, pos + 1, limits);
            },
        }
    }
}

/// Reading a document that fits adds to the feed the entries of its items,
/// in document order, as far as there is room for them.
pub proof fn lemma_document_entries_are_the_items_in_order(
    events: Seq<XmlEventView>,
    pos: int,
    feed: ParsedFeedView,
    limits: ParserLimits,
)
    requires
        document_fits(events, pos, limits),
    ensures
        document_from(events, pos, feed, limits).entries == feed.entries + first_n(
            document_item_entries(events, pos, limits),
            room_for(feed.entries.len(), limits),
        ),
    decreases events.len() - pos,
{
    let room = room_for(feed.entries.len(), limits);
    if pos >= events.len() {
        assert(feed.entries + first_n(document_item_entries(events, pos, limits), room)
            =~= feed.entries);
    } else {
        match events[pos] {
            XmlEventView::Start(name, attrs) => {
                lemma_channel_of_document_fits(events, pos, limits);
                let noted = with_namespaces(feed, attrs, 0, limits);
                lemma_with_namespaces(feed, attrs, 0, limits);
                let hi = events.len() as int;
                let close = close_index(events, pos + 1, hi, 0);
                lemma_close_index_bounds(events, pos + 1, hi, 0);
                let next = after_close(close, hi);
                let later = document_item_entries(events, next, limits);
                if is_name(name, "channel") {
                    let read = whole_channel(events, pos + 1, close, noted, limits);
                    let here = item_entries(events, pos + 1, close, channel_depth(), limits);
                    lemma_channel_is_read(events, pos + 1, close, noted, channel_depth(), limits);
                    lemma_entries_are_the_items_in_order(
                        events,
                        pos + 1,
                        close,
                        noted,
                        channel_depth(),
                        limits,
                    );
                    lemma_document_entries_are_the_items_in_order(events, next, read, limits);
                    lemma_first_n_of_both(here, later, room);
                    assert(room_for(read.entries.len(), limits) == (room - first_n(
                        here,
                        room,
                    ).len()) as nat);
                    assert((feed.entries + first_n(here, room)) + first_n(
                        later,
                        room_for(read.entries.len(), limits),
                    ) =~= feed.entries + (first_n(here, room) + first_n(
                        later,
                        room_for(read.entries.len(), limits),
                    )));
                } else if channel_field_of(name) == ChannelField::Item {
                    let read = loose_item(events, pos + 1, close, name, attrs, noted, limits);
                    let here = loose_item_entries(events, pos + 1, close, limits);
                    lemma_loose_item(events, pos + 1, close, name, attrs, noted, limits);
                    lemma_document_entries_are_the_items_in_order(events, next, read, limits);
                    lemma_first_n_of_both(here, later, room);
                    assert(room_for(read.entries.len(), limits) == (room - first_n(
                        here,
                        room,
                    ).len()) as nat);
                    assert((feed.entries + first_n(here, room)) + first_n(
                        later,
                        room_for(read.entries.len(), limits),
                    ) =~= feed.entries + (first_n(here, room) + first_n(
                        later,
                        room_for(read.entries.len(), limits),
                    )));
                } else {
                    lemma_document_entries_are_the_items_in_order(events, pos + 1, noted, limits);
                }
            },
            _ => {
                lemma_rest_of_document_fits(events, pos, limits);
                lemma_document_entries_are_the_items_in_order(events, pos + 1, feed, limits);
            },
        }
    }
}

/// Reading a document that fits and holds more items than the feed has
/// room for leaves the feed flagged.
pub proof fn lemma_document_beyond_room_sets_the_flag(
    events: Seq<XmlEventView>,
    pos: int,
    feed: ParsedFeedView,
    limits: ParserLimits,
)
    requires
        document_fits(events, pos, limits),
        document_item_entries(events, pos, limits).len() > room_for(feed.entries.len(), limits),
    ensures
        document_from(events, pos, feed, limits).bozo,
    decreases events.len() - pos,
{
    let room = room_for(feed.entries.len(), limits);
    if pos < events.len() {
        match events[pos] {
            XmlEventView::Start(name, attrs) => {
                lemma_channel_of_document_fits(events, pos, limits);
                let noted = with_namespaces(feed, attrs, 0, limits);
                lemma_with_namespaces(feed, attrs, 0, limits);
                let hi = events.len() as int;
                let close = close_index(events, pos + 1, hi, 0);
                lemma_close_index_bounds(events, pos + 1, hi, 0);
                let next = after_close(close, hi);
                if is_name(name, "channel") {
                    let read = whole_channel(events, pos + 1, close, noted, limits);
                    let here = item_entries(events, pos + 1, close, channel_depth(), limits);
                    lemma_channel_is_read(events, pos + 1, close, noted, channel_depth(), limits);
                    lemma_entries_are_the_items_in_order(
                        events,
                        pos + 1,
                        close,
                        noted,
                        channel_depth(),
                        limits,
                    );
                    if here.len() > room {
                        lemma_items_beyond_room_set_the_flag(
                            events,
                            pos + 1,
                            close,
                            noted,
                            channel_depth(),
                            limits,
                        );
                        lemma_document_flag_stays(events, next, read, limits);
                    } else {
                        assert(first_n(here, room) == here);
                        assert(room_for(read.entries.len(), limits) == (room - here.len()) as nat);
                        lemma_document_beyond_room_sets_the_flag(events, next, read, limits);
                    }
                } else if channel_field_of(name) == ChannelField::Item {
                    let read = loose_item(events, pos + 1, close, name, attrs, noted, limits);
                    let here = loose_item_entries(events, pos + 1, close, limits);
                    lemma_loose_item(events, pos + 1, close, name, attrs, noted, limits);
                    if here.len() > room {
                        lemma_document_flag_stays(events, next, read, limits);
                    } else {
                        assert(first_n(here, room) == here);
                        assert(room_for(read.entries.len(), limits) == (room - here.len()) as nat);
                        lemma_document_beyond_room_sets_the_flag(events, next, read, limits);
                    }
                } else {
                    lemma_document_beyond_room_sets_the_flag(events, pos + 1, noted, limits);
                }
            },
            _ => {
                lemma_rest_of_document_fits(events, pos, limits);
                lemma_document_beyond_room_sets_the_flag(events, pos + 1, feed, limits);
            },
        }
    }
}

/// A document that holds no tokenizer error, nests no deeper than the
/// limit allows and has no more items than `max_entries` yields exactly
/// one entry per item, in document order.
pub proof fn lemma_every_item_becomes_an_entry(events: Seq<XmlEventView>, limits: ParserLimits)
    requires
        document_fits(events, 0, limits),
        document_item_count(events, 0) <= limits.max_entries,
    ensures
        rss_feed(events, limits).entries.len() == document_item_count(events, 0),
        rss_feed(events, limits).entries == document_item_entries(events, 0, limits),
{
    lemma_every_item_of_document_is_readable(events, 0, limits);
    lemma_document_entries_are_the_items_in_order(events, 0, blank_rss(), limits);
    assert(blank_rss().entries + document_item_entries(events, 0, limits)
        =~= document_item_entries(events, 0, limits));
}

/// A document that holds no tokenizer error, nests no deeper than the
/// limit allows and has more items than `max_entries` yields exactly
/// `max_entries` entries, the first ones in document order, and is flagged.
pub proof fn lemma_items_beyond_the_limit_are_dropped(
    events: Seq<XmlEventView>,
    limits: ParserLimits,
)
    requires
        document_fits(events, 0, limits),
        document_item_count(events, 0) > limits.max_entries,
    ensures
        rss_feed(events, limits).entries.len() == limits.max_entries,
        rss_feed(events, limits).entries == document_item_entries(events, 0, limits).take(
            limits.max_entries as int,
        ),
        rss_feed(events, limits).bozo,
{
    lemma_every_item_of_document_is_readable(events, 0, limits);
    lemma_document_entries_are_the_items_in_order(events, 0, blank_rss(), limits);
    lemma_document_beyond_room_sets_the_flag(events, 0, blank_rss(), limits);
    assert(blank_rss().entries + document_item_entries(events, 0, limits).take(
        limits.max_entries as int,
    ) =~= document_item_entries(events, 0, limits).take(limits.max_entries as int));
}

} // verus!
