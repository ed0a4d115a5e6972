//! Documents that are read without an error: no tokenizer error in them,
//! and no element nested deeper than the limit allows.

use vstd::prelude::*;
use crate::limits::ParserLimits;
use crate::parser::common::{
    after_close, capped, close_index, lemma_close_index_bounds, span_skip_from, span_text_from,
};
use crate::parser::order::{
    item_entries, lemma_entries_are_the_items_in_order, lemma_items_beyond_room_set_the_flag,
};
use crate::parser::rss::{
    channel_child, channel_field_of, channel_from, image_child, image_from, item_child, item_from,
    source_child, source_from, ChannelField, ItemOutcomeView,
};
use crate::types::common::{ImageView, SourceView};
use crate::types::feed::ParsedFeedView;
use crate::xml::XmlEventView;

verus! {

/// Whether the tokenizer reported no error among the events in `[lo, hi)`.
pub open spec fn no_errors(events: Seq<XmlEventView>, lo: int, hi: int) -> bool {
    forall|i: int| lo <= i < hi && 0 <= i < events.len() ==> !(#[trigger] events[i] is Error)
}

/// One level up, but never above the top.
pub open spec fn one_up(open: nat) -> nat {
    if open == 0 {
        0
    } else {
        (open - 1) as nat
    }
}

/// The largest number of elements that are open at once while the events
/// in `[pos, hi)` go by, where `open` are open at the start.
pub open spec fn peak(events: Seq<XmlEventView>, pos: int, hi: int, open: nat) -> nat
    decreases hi - pos,
{
    if pos < 0 || pos >= hi || hi > events.len() {
        open
    } else {
        match events[pos] {
            XmlEventView::Start(_, _) => peak(events, pos + 1, hi, open + 1),
            XmlEventView::End(_) => {
                let rest = peak(events, pos + 1, hi, one_up(open));
                if rest > open {
                    rest
                } else {
                    open
                }
            },
            _ => peak(events, pos + 1, hi, open),
        }
    }
}

/// The peak is never below what is open at the start.
pub proof fn lemma_peak_at_least(events: Seq<XmlEventView>, pos: int, hi: int, open: nat)
    ensures
        peak(events, pos, hi, open) >= open,
    decreases hi - pos,
{
    if !(pos < 0 || pos >= hi || hi > events.len()) {
        match events[pos] {
            XmlEventView::Start(_, _) => lemma_peak_at_least(events, pos + 1, hi, open + 1),
            XmlEventView::End(_) => {},
            _ => lemma_peak_at_least(events, pos + 1, hi, open),
        }
    }
}

/// With more open at the start the peak is no lower.
pub proof fn lemma_peak_grows(events: Seq<XmlEventView>, pos: int, hi: int, a: nat, b: nat)
    requires
        a <= b,
    ensures
        peak(events, pos, hi, a) <= peak(events, pos, hi, b),
    decreases hi - pos,
{
    if !(pos < 0 || pos >= hi || hi > events.len()) {
        match events[pos] {
            XmlEventView::Start(_, _) => lemma_peak_grows(events, pos + 1, hi, a + 1, b + 1),
            XmlEventView::End(_) => lemma_peak_grows(events, pos + 1, hi, one_up(a), one_up(b)),
            _ => lemma_peak_grows(events, pos + 1, hi, a, b),
        }
    }
}

/// Inside an element the peak moves with what is open at its start: up to
/// the end tag that closes it, nothing that was open before is closed.
pub proof fn lemma_peak_shift(
    events: Seq<XmlEventView>,
    pos: int,
    hi: int,
    nested: nat,
    more: nat,
)
    requires
        0 <= pos <= hi <= events.len(),
    ensures
        peak(events, pos, close_index(events, pos, hi, nested), nested + more) == peak(
            events,
            pos,
            close_index(events, pos, hi, nested),
            nested,
        ) + more,
    decreases hi - pos,
{
    let close = close_index(events, pos, hi, nested);
    lemma_close_index_bounds(events, pos, hi, nested);
    if pos < hi {
        match events[pos] {
            XmlEventView::Start(_, _) => {
                lemma_close_index_bounds(events, pos + 1, hi, nested + 1);
                lemma_peak_shift(events, pos + 1, hi, nested + 1, more);
            },
            XmlEventView::End(_) => {
                if nested != 0 {
                    lemma_close_index_bounds(events, pos + 1, hi, (nested - 1) as nat);
                    lemma_peak_shift(events, pos + 1, hi, (nested - 1) as nat, more);
                }
            },
            _ => {
                lemma_close_index_bounds(events, pos + 1, hi, nested);
                lemma_peak_shift(events, pos + 1, hi, nested, more);
            },
        }
    }
}

/// The peak of a span is no lower than the peak inside its first element
/// and no lower than the peak behind that element.
pub proof fn lemma_peak_split(
    events: Seq<XmlEventView>,
    pos: int,
    hi: int,
    nested: nat,
    outside: nat,
)
    requires
        0 <= pos <= hi <= events.len(),
    ensures
        peak(events, pos, hi, outside + nested + 1) >= peak(
            events,
            pos,
            close_index(events, pos, hi, nested),
            outside + nested + 1,
        ),
        peak(events, pos, hi, outside + nested + 1) >= peak(
            events,
            after_close(close_index(events, pos, hi, nested), hi),
            hi,
            outside,
        ),
    decreases hi - pos,
{
    let close = close_index(events, pos, hi, nested);
    let open = outside + nested + 1;
    lemma_close_index_bounds(events, pos, hi, nested);
    if pos < hi {
        match events[pos] {
            XmlEventView::Start(_, _) => {
                lemma_close_index_bounds(events, pos + 1, hi, nested + 1);
                lemma_peak_split(events, pos + 1, hi, nested + 1, outside);
            },
            XmlEventView::End(_) => {
                if nested != 0 {
                    lemma_close_index_bounds(events, pos + 1, hi, (nested - 1) as nat);
                    lemma_peak_split(events, pos + 1, hi, (nested - 1) as nat, outside);
                    assert(one_up(open) == outside + (nested - 1) as nat + 1);
                } else {
                    assert(one_up(open) == outside);
                }
            },
            _ => {
                lemma_close_index_bounds(events, pos + 1, hi, nested);
                lemma_peak_split(events, pos + 1, hi, nested, outside);
            },
        }
    }
}

/// Text without a tokenizer error in it can be collected.
pub proof fn lemma_text_is_read(
    events: Seq<XmlEventView>,
    pos: int,
    hi: int,
    so_far: Seq<char>,
    max_text_length: usize,
)
    requires
        no_errors(events, pos, hi),
    ensures
        span_text_from(events, pos, hi, so_far, max_text_length) is Ok,
    decreases hi - pos,
{
    if !(pos < 0 || pos >= hi || hi > events.len()) {
        assert(!(events[pos] is Error));
        match events[pos] {
            XmlEventView::Text(bytes) => lemma_text_is_read(
                events,
                pos + 1,
                hi,
                so_far + crate::parser::common::node_text(bytes, max_text_length),
                max_text_length,
            ),
            XmlEventView::CData(bytes) => lemma_text_is_read(
                events,
                pos + 1,
                hi,
                so_far + crate::parser::common::node_text(bytes, max_text_length),
                max_text_length,
            ),
            XmlEventView::Reference(name) => lemma_text_is_read(
                events,
                pos + 1,
                hi,
                so_far + crate::parser::common::reference_text(name),
                max_text_length,
            ),
            _ => lemma_text_is_read(events, pos + 1, hi, so_far, max_text_length),
        }
    }
}

/// Content without a tokenizer error in it, and whose peak fits below the
/// nesting limit, can be passed over.
pub proof fn lemma_content_is_skipped(
    events: Seq<XmlEventView>,
    pos: int,
    hi: int,
    nested: nat,
    depth: usize,
    max_nesting_depth: usize,
)
    requires
        no_errors(events, pos, hi),
        depth + peak(events, pos, hi, nested) <= max_nesting_depth,
    ensures
        span_skip_from(events, pos, hi, nested, depth, max_nesting_depth) is Ok,
    decreases hi - pos,
{
    if !(pos < 0 || pos >= hi || hi > events.len()) {
        assert(!(events[pos] is Error));
        match events[pos] {
            XmlEventView::Start(_, _) => {
                lemma_peak_at_least(events, pos + 1, hi, nested + 1);
                lemma_content_is_skipped(events, pos + 1, hi, nested + 1, depth, max_nesting_depth);
            },
            XmlEventView::End(_) => {
                lemma_content_is_skipped(
                    events,
                    pos + 1,
                    hi,
                    one_up(nested),
                    depth,
                    max_nesting_depth,
                );
            },
            _ => lemma_content_is_skipped(events, pos + 1, hi, nested, depth, max_nesting_depth),
        }
    }
}

/// Whether the content `[pos, hi)` of an element at `depth` holds no
/// tokenizer error and no element deeper than the limit allows.
pub open spec fn fits(
    events: Seq<XmlEventView>,
    pos: int,
    hi: int,
    depth: usize,
    limits: ParserLimits,
) -> bool {
    &&& 0 <= pos <= hi <= events.len()
    &&& no_errors(events, pos, hi)
    &&& depth + peak(events, pos, hi, 0) <= limits.max_nesting_depth
}

/// Where content fits and begins with a start tag, the content of that
/// element fits one level down, and so does what comes behind the element.
pub proof fn lemma_child_fits(
    events: Seq<XmlEventView>,
    pos: int,
    hi: int,
    depth: usize,
    limits: ParserLimits,
)
    requires
        fits(events, pos, hi, depth, limits),
        pos < hi,
        events[pos] is Start,
    ensures
        depth + 1 <= limits.max_nesting_depth,
        capped(depth + 1) == depth + 1,
        fits(events, pos + 1, close_index(events, pos + 1, hi, 0), capped(depth + 1), limits),
        fits(events, after_close(close_index(events, pos + 1, hi, 0), hi), hi, depth, limits),
{
    let close = close_index(events, pos + 1, hi, 0);
    lemma_close_index_bounds(events, pos + 1, hi, 0);
    lemma_peak_split(events, pos + 1, hi, 0, 0);
    lemma_peak_shift(events, pos + 1, hi, 0, 1);
    lemma_peak_at_least(events, pos + 1, hi, 1);
    lemma_peak_at_least(events, pos + 1, close, 0);
}

/// Where content fits and does not begin with a start tag, what comes
/// behind its first event fits too.
pub proof fn lemma_rest_fits(
    events: Seq<XmlEventView>,
    pos: int,
    hi: int,
    depth: usize,
    limits: ParserLimits,
)
    requires
        fits(events, pos, hi, depth, limits),
        pos < hi,
        !(events[pos] is Start),
    ensures
        fits(events, pos + 1, hi, depth, limits),
        !(events[pos] is Error),
{
}

/// An `<image>` whose content fits is read to its end.
pub proof fn lemma_image_is_read(
    events: Seq<XmlEventView>,
    pos: int,
    hi: int,
    image: ImageView,
    depth: usize,
    limits: ParserLimits,
)
    requires
        fits(events, pos, hi, depth, limits),
    ensures
        image_from(events, pos, hi, image, depth, limits) is Ok,
    decreases hi - pos,
{
    if pos < hi {
        match events[pos] {
            XmlEventView::Start(name, attrs) => {
                lemma_child_fits(events, pos, hi, depth, limits);
                let close = close_index(events, pos + 1, hi, 0);
                let below = capped(depth + 1);
                lemma_text_is_read(events, pos + 1, close, Seq::empty(), limits.max_text_length);
                lemma_content_is_skipped(
                    events,
                    pos + 1,
                    close,
                    0,
                    below,
                    limits.max_nesting_depth,
                );
                let child = image_child(events, pos + 1, close, name, image, below, limits);
                lemma_image_is_read(
                    events,
                    after_close(close, hi),
                    hi,
                    child->Ok_0,
                    depth,
                    limits,
                );
            },
            _ => {
                lemma_rest_fits(events, pos, hi, depth, limits);
                lemma_image_is_read(events, pos + 1, hi, image, depth, limits);
            },
        }
    }
}

/// A `<source>` whose content fits is read to its end.
pub proof fn lemma_source_is_read(
    events: Seq<XmlEventView>,
    pos: int,
    hi: int,
    source: SourceView,
    depth: usize,
    limits: ParserLimits,
)
    requires
        fits(events, pos, hi, depth, limits),
    ensures
        source_from(events, pos, hi, source, depth, limits) is Ok,
    decreases hi - pos,
{
    if pos < hi {
        match events[pos] {
            XmlEventView::Start(name, attrs) => {
                lemma_child_fits(events, pos, hi, depth, limits);
                let close = close_index(events, pos + 1, hi, 0);
                let below = capped(depth + 1);
                lemma_text_is_read(events, pos + 1, close, Seq::empty(), limits.max_text_length);
                lemma_content_is_skipped(
                    events,
                    pos + 1,
                    close,
                    0,
                    below,
                    limits.max_nesting_depth,
                );
                let child = source_child(events, pos + 1, close, name, source, below, limits);
                lemma_source_is_read(
                    events,
                    after_close(close, hi),
                    hi,
                    child->Ok_0,
                    depth,
                    limits,
                );
            },
            _ => {
                lemma_rest_fits(events, pos, hi, depth, limits);
                lemma_source_is_read(events, pos + 1, hi, source, depth, limits);
            },
        }
    }
}

/// An `<item>` whose content fits is read to its end: there is an entry.
pub proof fn lemma_item_is_read(
    events: Seq<XmlEventView>,
    pos: int,
    hi: int,
    item: ItemOutcomeView,
    depth: usize,
    limits: ParserLimits,
)
    requires
        fits(events, pos, hi, depth, limits),
    ensures
        item_from(events, pos, hi, item, depth, limits) is Ok,
    decreases hi - pos,
{
    if pos < hi {
        match events[pos] {
            XmlEventView::Start(name, attrs) => {
                lemma_child_fits(events, pos, hi, depth, limits);
                let close = close_index(events, pos + 1, hi, 0);
                let below = capped(depth + 1);
                lemma_text_is_read(events, pos + 1, close, Seq::empty(), limits.max_text_length);
                lemma_content_is_skipped(
                    events,
                    pos + 1,
                    close,
                    0,
                    below,
                    limits.max_nesting_depth,
                );
                let child = item_child(events, pos + 1, close, name, attrs, item, below, limits);
                lemma_item_is_read(events, after_close(close, hi), hi, child->Ok_0, depth, limits);
            },
            _ => {
                lemma_rest_fits(events, pos, hi, depth, limits);
                lemma_item_is_read(events, pos + 1, hi, item, depth, limits);
            },
        }
    }
}

/// A `<channel>` whose content fits is read to its end.
pub proof fn lemma_channel_is_read(
    events: Seq<XmlEventView>,
    pos: int,
    hi: int,
    feed: ParsedFeedView,
    depth: usize,
    limits: ParserLimits,
)
    requires
        fits(events, pos, hi, depth, limits),
    ensures
        channel_from(events, pos, hi, feed, depth, limits).1 is None,
    decreases hi - pos,
{
    if pos < hi {
        match events[pos] {
            XmlEventView::Start(name, attrs) => {
                lemma_child_fits(events, pos, hi, depth, limits);
                let close = close_index(events, pos + 1, hi, 0);
                let below = capped(depth + 1);
                lemma_text_is_read(events, pos + 1, close, Seq::empty(), limits.max_text_length);
                lemma_content_is_skipped(
                    events,
                    pos + 1,
                    close,
                    0,
                    below,
                    limits.max_nesting_depth,
                );
                let child = channel_child(events, pos + 1, close, name, attrs, feed, below, limits);
                lemma_channel_is_read(
                    events,
                    after_close(close, hi),
                    hi,
                    child->Ok_0,
                    depth,
                    limits,
                );
            },
            _ => {
                lemma_rest_fits(events, pos, hi, depth, limits);
                lemma_channel_is_read(events, pos + 1, hi, feed, depth, limits);
            },
        }
    }
}

/// How many `<item>` children there are among the events in `[pos, hi)`.
pub open spec fn item_count(events: Seq<XmlEventView>, pos: int, hi: int) -> nat
    decreases hi - pos,
{
    if pos < 0 || pos >= hi || hi > events.len() {
        0
    } else {
        match events[pos] {
            XmlEventView::Start(name, attrs) => {
                let close = close_index(events, pos + 1, hi, 0);
                proof {
                    lemma_close_index_bounds(events, pos + 1, hi, 0);
                }
                let rest = item_count(events, after_close(close, hi), hi);
                if channel_field_of(name) == ChannelField::Item {
                    rest + 1
                } else {
                    rest
                }
            },
            _ => item_count(events, pos + 1, hi),
        }
    }
}

/// Where the content of a channel fits, every one of its items is
/// readable: there are as many entries to be had as there are items.
pub proof fn lemma_every_item_is_readable(
    events: Seq<XmlEventView>,
    pos: int,
    hi: int,
    depth: usize,
    limits: ParserLimits,
)
    requires
        fits(events, pos, hi, depth, limits),
    ensures
        item_entries(events, pos, hi, depth, limits).len() == item_count(events, pos, hi),
    decreases hi - pos,
{
    if pos < hi {
        match events[pos] {
            XmlEventView::Start(name, attrs) => {
                lemma_child_fits(events, pos, hi, depth, limits);
                let close = close_index(events, pos + 1, hi, 0);
                let below = capped(depth + 1);
                lemma_item_is_read(
                    events,
                    pos + 1,
                    close,
                    crate::parser::rss::blank_item(),
                    below,
                    limits,
                );
                lemma_every_item_is_readable(events, after_close(close, hi), hi, depth, limits);
            },
            _ => {
                lemma_rest_fits(events, pos, hi, depth, limits);
                lemma_every_item_is_readable(events, pos + 1, hi, depth, limits);
            },
        }
    }
}

/// A channel whose content fits, with no more items than the feed has room
/// for, adds one entry per item, in document order.
pub proof fn lemma_fitting_channel_keeps_every_item(
    events: Seq<XmlEventView>,
    lo: int,
    hi: int,
    feed: ParsedFeedView,
    depth: usize,
    limits: ParserLimits,
)
    requires
        fits(events, lo, hi, depth, limits),
        feed.entries.len() + item_count(events, lo, hi) <= limits.max_entries,
    ensures
        channel_from(events, lo, hi, feed, depth, limits).1 is None,
        channel_from(events, lo, hi, feed, depth, limits).0.entries.len() == feed.entries.len()
            + item_count(events, lo, hi),
        channel_from(events, lo, hi, feed, depth, limits).0.entries == feed.entries
            + item_entries(events, lo, hi, depth, limits),
{
    lemma_channel_is_read(events, lo, hi, feed, depth, limits);
    lemma_every_item_is_readable(events, lo, hi, depth, limits);
    lemma_entries_are_the_items_in_order(events, lo, hi, feed, depth, limits);
}

/// A channel whose content fits, with more items than the feed has room
/// for, fills the feed to its limit and leaves it flagged.
pub proof fn lemma_fitting_channel_stops_at_the_limit(
    events: Seq<XmlEventView>,
    lo: int,
    hi: int,
    feed: ParsedFeedView,
    depth: usize,
    limits: ParserLimits,
)
    requires
        fits(events, lo, hi, depth, limits),
        feed.entries.len() <= limits.max_entries,
        feed.entries.len() + item_count(events, lo, hi) > limits.max_entries,
    ensures
        channel_from(events, lo, hi, feed, depth, limits).1 is None,
        channel_from(events, lo, hi, feed, depth, limits).0.entries.len() == limits.max_entries,
        channel_from(events, lo, hi, feed, depth, limits).0.bozo,
{
    lemma_channel_is_read(events, lo, hi, feed, depth, limits);
    lemma_every_item_is_readable(events, lo, hi, depth, limits);
    lemma_entries_are_the_items_in_order(events, lo, hi, feed, depth, limits);
    lemma_items_beyond_room_set_the_flag(events, lo, hi, feed, depth, limits);
}

} // verus!
