//! Which items of a channel end up as entries, and in what order.

use vstd::prelude::*;
use crate::limits::ParserLimits;
use crate::parser::common::{after_close, capped, close_index, lemma_close_index_bounds};
use crate::parser::extension_invariants::lemma_feed_with_extension_keeps_entries;
use crate::parser::extensions::{content_of_extension, extension_of};
use crate::parser::rss::{channel_child, channel_field_of, channel_from, item_of, ChannelField};
use crate::types::entry::EntryView;
use crate::types::feed::ParsedFeedView;
use crate::xml::XmlEventView;

verus! {

/// The entries of the `<item>` children among the events in `[pos, hi)`
/// that can be read, in document order. The children sit below an element
/// at `depth`.
pub open spec fn item_entries(
    events: Seq<XmlEventView>,
    pos: int,
    hi: int,
    depth: usize,
    limits: ParserLimits,
) -> Seq<EntryView>
    decreases hi - pos,
{
    if pos < 0 || pos >= hi || hi > events.len() {
        Seq::empty()
    } else {
        match events[pos] {
            XmlEventView::Start(name, attrs) => {
                let close = close_index(events, pos + 1, hi, 0);
                proof {
                    lemma_close_index_bounds(events, pos + 1, hi, 0);
                }
                let rest = item_entries(events, after_close(close, hi), hi, depth, limits);
                if channel_field_of(name) == ChannelField::Item {
                    match item_of(events, pos + 1, close, capped(depth + 1), limits) {
                        Ok(item) => seq![item.entry] + rest,
                        Err(_) => rest,
                    }
                } else {
                    rest
                }
            },
            _ => item_entries(events, pos + 1, hi, depth, limits),
        }
    }
}

/// How many entries a feed that holds `held` can still take.
pub open spec fn room_for(held: nat, limits: ParserLimits) -> nat {
    if held >= limits.max_entries {
        0
    } else {
        (limits.max_entries - held) as nat
    }
}

/// The first `n` of `items`, or all of them where there are fewer.
pub open spec fn first_n<T>(items: Seq<T>, n: nat) -> Seq<T> {
    if n >= items.len() {
        items
    } else {
        items.take(n as int)
    }
}

/// A feed that is flagged stays flagged while its channel is read.
pub proof fn lemma_flag_stays(
    events: Seq<XmlEventView>,
    pos: int,
    hi: int,
    feed: ParsedFeedView,
    depth: usize,
    limits: ParserLimits,
)
    requires
        feed.bozo,
    ensures
        channel_from(events, pos, hi, feed, depth, limits).0.bozo,
    decreases hi - pos,
{
    if !(pos < 0 || pos >= hi || hi > events.len()) {
        match events[pos] {
            XmlEventView::Start(name, attrs) => {
                if !(depth + 1 > limits.max_nesting_depth) {
                    let close = close_index(events, pos + 1, hi, 0);
                    lemma_close_index_bounds(events, pos + 1, hi, 0);
                    let child = channel_child(
                        events,
                        pos + 1,
                        close,
                        name,
                        attrs,
                        feed,
                        capped(depth + 1),
                        limits,
                    );
                    lemma_feed_with_extension_keeps_entries(
                        feed,
                        extension_of(name),
                        attrs,
                        content_of_extension(
                            events,
                            pos + 1,
                            close,
                            extension_of(name),
                            limits,
                        ),
                        limits,
                    );
                    if child is Ok {
                        lemma_flag_stays(
                            events,
                            after_close(close, hi),
                            hi,
                            child->Ok_0,
                            depth,
                            limits,
                        );
                    }
                }
            },
            XmlEventView::Error(_) => {},
            _ => {
                lemma_flag_stays(events, pos + 1, hi, feed, depth, limits);
            },
        }
    }
}

/// A channel that is read to its end adds to the feed the entries of its
/// readable items, in document order, as far as there is room for them; it
/// drops none in between and stores nothing else.
pub proof fn lemma_entries_are_the_items_in_order(
    events: Seq<XmlEventView>,
    pos: int,
    hi: int,
    feed: ParsedFeedView,
    depth: usize,
    limits: ParserLimits,
)
    requires
        channel_from(events, pos, hi, feed, depth, limits).1 is None,
    ensures
        channel_from(events, pos, hi, feed, depth, limits).0.entries == feed.entries + first_n(
            item_entries(events, pos, hi, depth, limits),
            room_for(feed.entries.len(), limits),
        ),
    decreases hi - pos,
{
    let items = item_entries(events, pos, hi, depth, limits);
    let room = room_for(feed.entries.len(), limits);
    if pos < 0 || pos >= hi || hi > events.len() {
        assert(feed.entries + first_n(items, room) =~= feed.entries);
    } else {
        match events[pos] {
            XmlEventView::Start(name, attrs) => {
                let close = close_index(events, pos + 1, hi, 0);
                lemma_close_index_bounds(events, pos + 1, hi, 0);
                let next = after_close(close, hi);
                let child = channel_child(
                    events,
                    pos + 1,
                    close,
                    name,
                    attrs,
                    feed,
                    capped(depth + 1),
                    limits,
                );
                    lemma_feed_with_extension_keeps_entries(
                        feed,
                        extension_of(name),
                        attrs,
                        content_of_extension(
                            events,
                            pos + 1,
                            close,
                            extension_of(name),
                            limits,
                        ),
                        limits,
                    );
                let after = child->Ok_0;
                let rest = item_entries(events, next, hi, depth, limits);
                lemma_entries_are_the_items_in_order(events, next, hi, after, depth, limits);
                if channel_field_of(name) == ChannelField::Item && feed.entries.len()
                    < limits.max_entries {
                    match item_of(events, pos + 1, close, capped(depth + 1), limits) {
                        Ok(item) => {
                            assert(after.entries == feed.entries.push(item.entry));
                            assert(items == seq![item.entry] + rest);
                            let less = room_for(after.entries.len(), limits);
                            assert(less + 1 == room);
                            assert(first_n(items, room) =~= seq![item.entry] + first_n(rest, less));
                            assert(feed.entries.push(item.entry) + first_n(rest, less)
                                =~= feed.entries + first_n(items, room));
                        },
                        Err(_) => {
                            assert(after.entries == feed.entries);
                        },
                    }
                } else if channel_field_of(name) == ChannelField::Item {
                    assert(after.entries == feed.entries);
                    assert(first_n(items, room) =~= first_n(rest, room));
                } else {
                    assert(after.entries == feed.entries);
                }
            },
            XmlEventView::Error(_) => {},
            _ => {
                lemma_entries_are_the_items_in_order(events, pos + 1, hi, feed, depth, limits);
            },
        }
    }
}

/// A channel that is read to its end and holds more readable items than
/// the feed has room for leaves the feed flagged.
pub proof fn lemma_items_beyond_room_set_the_flag(
    events: Seq<XmlEventView>,
    pos: int,
    hi: int,
    feed: ParsedFeedView,
    depth: usize,
    limits: ParserLimits,
)
    requires
        channel_from(events, pos, hi, feed, depth, limits).1 is None,
        item_entries(events, pos, hi, depth, limits).len() > room_for(feed.entries.len(), limits),
    ensures
        channel_from(events, pos, hi, feed, depth, limits).0.bozo,
    decreases hi - pos,
{
    if !(pos < 0 || pos >= hi || hi > events.len()) {
        match events[pos] {
            XmlEventView::Start(name, attrs) => {
                let close = close_index(events, pos + 1, hi, 0);
                lemma_close_index_bounds(events, pos + 1, hi, 0);
                let next = after_close(close, hi);
                let child = channel_child(
                    events,
                    pos + 1,
                    close,
                    name,
                    attrs,
                    feed,
                    capped(depth + 1),
                    limits,
                );
                    lemma_feed_with_extension_keeps_entries(
                        feed,
                        extension_of(name),
                        attrs,
                        content_of_extension(
                            events,
                            pos + 1,
                            close,
                            extension_of(name),
                            limits,
                        ),
                        limits,
                    );
                let after = child->Ok_0;
                if channel_field_of(name) == ChannelField::Item && feed.entries.len()
                    >= limits.max_entries {
                    lemma_flag_stays(events, next, hi, after, depth, limits);
                } else {
                    lemma_items_beyond_room_set_the_flag(events, next, hi, after, depth, limits);
                }
            },
            XmlEventView::Error(_) => {},
            _ => {
                lemma_items_beyond_room_set_the_flag(events, pos + 1, hi, feed, depth, limits);
            },
        }
    }
}

/// A channel with no more readable items than the feed has room for, read
/// to its end, adds exactly one entry per readable item.
pub proof fn lemma_items_within_room_are_all_kept(
    events: Seq<XmlEventView>,
    lo: int,
    hi: int,
    feed: ParsedFeedView,
    depth: usize,
    limits: ParserLimits,
)
    requires
        channel_from(events, lo, hi, feed, depth, limits).1 is None,
        feed.entries.len() + item_entries(events, lo, hi, depth, limits).len()
            <= limits.max_entries,
    ensures
        ({
            let read = channel_from(events, lo, hi, feed, depth, limits).0;
            let items = item_entries(events, lo, hi, depth, limits);
            &&& read.entries.len() == feed.entries.len() + items.len()
            &&& forall|i: int|
                0 <= i < items.len() ==> #[trigger] read.entries[feed.entries.len() + i]
                    == items[i]
        }),
{
    lemma_entries_are_the_items_in_order(events, lo, hi, feed, depth, limits);
}

/// A channel with `extra` more readable items than the feed has room for,
/// read to its end, fills the feed to its limit and leaves it flagged.
pub proof fn lemma_items_beyond_room_fill_the_feed(
    events: Seq<XmlEventView>,
    lo: int,
    hi: int,
    feed: ParsedFeedView,
    depth: usize,
    limits: ParserLimits,
)
    requires
        channel_from(events, lo, hi, feed, depth, limits).1 is None,
        feed.entries.len() <= limits.max_entries,
        feed.entries.len() + item_entries(events, lo, hi, depth, limits).len()
            > limits.max_entries,
    ensures
        channel_from(events, lo, hi, feed, depth, limits).0.entries.len() == limits.max_entries,
        channel_from(events, lo, hi, feed, depth, limits).0.bozo,
{
    lemma_entries_are_the_items_in_order(events, lo, hi, feed, depth, limits);
    lemma_items_beyond_room_set_the_flag(events, lo, hi, feed, depth, limits);
}

} // verus!
