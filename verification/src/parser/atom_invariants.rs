//! What holds of every feed the Atom parser returns, whatever the input.

use vstd::prelude::*;
use crate::limits::ParserLimits;
use crate::parser::atom::{
    atom_document_from, atom_entry_child, atom_entry_field_of, atom_entry_from, atom_feed,
    atom_feed_child, atom_feed_field_of, atom_feed_from, base_inside, blank_atom,
    entry_with_author, entry_with_category, entry_with_contributor, entry_with_link,
    entry_with_text, feed_depth, feed_with_author, feed_with_category, feed_with_contributor,
    feed_with_link, feed_with_text, loose_entry, person_of, whole_feed, AtomEntryField,
    AtomFeedField,
};
use crate::parser::common::{
    after_close, capped, close_index, is_name, lemma_close_index_bounds, span_text,
};
use crate::parser::extension_invariants::{
    lemma_entry_with_extension_well_formed, lemma_feed_with_extension_well_formed,
};
use crate::parser::extensions::{content_of_extension, extension_of};
use crate::parser::invariants::lemma_with_namespaces_well_formed;
use crate::parser::namespaces::with_namespaces;
use crate::parser::rss::{blank_item, ItemOutcomeView};
use crate::types::feed::ParsedFeedView;
use crate::xml::{XmlAttrView, XmlEventView};

verus! {

/// Reading a child of an entry keeps the entry well formed.
pub proof fn lemma_atom_entry_child_well_formed(
    events: Seq<XmlEventView>,
    lo: int,
    hi: int,
    name: Seq<u8>,
    attrs: Seq<XmlAttrView>,
    item: ItemOutcomeView,
    depth: usize,
    base: Option<Seq<char>>,
    limits: ParserLimits,
)
    requires
        item.entry.well_formed(limits),
    ensures
        atom_entry_child(events, lo, hi, name, attrs, item, depth, base, limits) is Ok
            ==> atom_entry_child(
            events,
            lo,
            hi,
            name,
            attrs,
            item,
            depth,
            base,
            limits,
        )->Ok_0.entry.well_formed(limits),
{
    match atom_entry_field_of(name) {
        AtomEntryField::Link => {
            assert(entry_with_link(item, attrs, base, limits).entry.well_formed(limits));
        },
        AtomEntryField::Category => {
            assert(entry_with_category(item, attrs, limits).entry.well_formed(limits));
        },
        AtomEntryField::Author => {
            let person = person_of(events, lo, hi, depth, limits);
            if person is Ok {
                assert(entry_with_author(item, person->Ok_0, limits).entry.well_formed(limits));
            }
        },
        AtomEntryField::Contributor => {
            let person = person_of(events, lo, hi, depth, limits);
            if person is Ok {
                assert(entry_with_contributor(item, person->Ok_0, limits).entry.well_formed(
                    limits,
                ));
            }
        },
        AtomEntryField::Source => {},
        AtomEntryField::Other => {
            lemma_entry_with_extension_well_formed(
                item,
                extension_of(name),
                attrs,
                content_of_extension(events, lo, hi, extension_of(name), limits).text,
                limits,
            );
        },
        field => {
            let text = span_text(events, lo, hi, limits.max_text_length);
            if text is Ok {
                assert(entry_with_text(item, field, text->Ok_0, attrs, base, limits).entry.well_formed(
                    limits,
                ));
            }
        },
    }
}

/// Reading an entry from any point on keeps it well formed.
pub proof fn lemma_atom_entry_from_well_formed(
    events: Seq<XmlEventView>,
    pos: int,
    hi: int,
    item: ItemOutcomeView,
    depth: usize,
    base: Option<Seq<char>>,
    limits: ParserLimits,
)
    requires
        item.entry.well_formed(limits),
    ensures
        atom_entry_from(events, pos, hi, item, depth, base, limits) is Ok ==> atom_entry_from(
            events,
            pos,
            hi,
            item,
            depth,
            base,
            limits,
        )->Ok_0.entry.well_formed(limits),
    decreases hi - pos,
{
    if !(pos < 0 || pos >= hi || hi > events.len()) {
        match events[pos] {
            XmlEventView::Start(name, attrs) => {
                if !(depth + 1 > limits.max_nesting_depth) {
                    let close = close_index(events, pos + 1, hi, 0);
                    lemma_close_index_bounds(events, pos + 1, hi, 0);
                    let child = atom_entry_child(
                        events,
                        pos + 1,
                        close,
                        name,
                        attrs,
                        item,
                        capped(depth + 1),
                        base,
                        limits,
                    );
                    lemma_atom_entry_child_well_formed(
                        events,
                        pos + 1,
                        close,
                        name,
                        attrs,
                        item,
                        capped(depth + 1),
                        base,
                        limits,
                    );
                    if child is Ok {
                        lemma_atom_entry_from_well_formed(
                            events,
                            after_close(close, hi),
                            hi,
                            child->Ok_0,
                            depth,
                            base,
                            limits,
                        );
                    }
                }
            },
            XmlEventView::Error(_) => {},
            _ => {
                lemma_atom_entry_from_well_formed(events, pos + 1, hi, item, depth, base, limits);
            },
        }
    }
}

/// Reading a child of the `<feed>` element keeps a feed well formed.
pub proof fn lemma_atom_feed_child_well_formed(
    events: Seq<XmlEventView>,
    lo: int,
    hi: int,
    name: Seq<u8>,
    attrs: Seq<XmlAttrView>,
    feed: ParsedFeedView,
    depth: usize,
    base: Option<Seq<char>>,
    limits: ParserLimits,
)
    requires
        feed.well_formed(limits),
    ensures
        atom_feed_child(events, lo, hi, name, attrs, feed, depth, base, limits) is Ok
            ==> atom_feed_child(
            events,
            lo,
            hi,
            name,
            attrs,
            feed,
            depth,
            base,
            limits,
        )->Ok_0.well_formed(limits),
{
    match atom_feed_field_of(name) {
        AtomFeedField::Link => {
            assert(feed_with_link(feed, attrs, base, limits).well_formed(limits));
        },
        AtomFeedField::Category => {
            assert(feed_with_category(feed, attrs, limits).well_formed(limits));
        },
        AtomFeedField::Author => {
            let person = person_of(events, lo, hi, depth, limits);
            if person is Ok {
                assert(feed_with_author(feed, person->Ok_0, limits).well_formed(limits));
            }
        },
        AtomFeedField::Contributor => {
            let person = person_of(events, lo, hi, depth, limits);
            if person is Ok {
                assert(feed_with_contributor(feed, person->Ok_0, limits).well_formed(limits));
            }
        },
        AtomFeedField::Entry => {
            if feed.entries.len() < limits.max_entries {
                lemma_atom_entry_from_well_formed(
                    events,
                    lo,
                    hi,
                    blank_item(),
                    depth,
                    base_inside(base, attrs, limits),
                    limits,
                );
            }
        },
        AtomFeedField::Other => {
            lemma_feed_with_extension_well_formed(
                feed,
                extension_of(name),
                attrs,
                content_of_extension(events, lo, hi, extension_of(name), limits),
                limits,
            );
        },
        field => {
            let text = span_text(events, lo, hi, limits.max_text_length);
            if text is Ok {
                assert(feed_with_text(feed, field, text->Ok_0, attrs, base, limits).well_formed(
                    limits,
                ));
            }
        },
    }
}

/// Reading a `<feed>` element from any point on keeps a feed well formed,
/// also where the reading ends early.
pub proof fn lemma_atom_feed_from_well_formed(
    events: Seq<XmlEventView>,
    pos: int,
    hi: int,
    feed: ParsedFeedView,
    depth: usize,
    base: Option<Seq<char>>,
    limits: ParserLimits,
)
    requires
        feed.well_formed(limits),
    ensures
        atom_feed_from(events, pos, hi, feed, depth, base, limits).0.well_formed(limits),
    decreases hi - pos,
{
    if !(pos < 0 || pos >= hi || hi > events.len()) {
        match events[pos] {
            XmlEventView::Start(name, attrs) => {
                if !(depth + 1 > limits.max_nesting_depth) {
                    let close = close_index(events, pos + 1, hi, 0);
                    lemma_close_index_bounds(events, pos + 1, hi, 0);
                    let child = atom_feed_child(
                        events,
                        pos + 1,
                        close,
                        name,
                        attrs,
                        feed,
                        capped(depth + 1),
                        base,
                        limits,
                    );
                    lemma_atom_feed_child_well_formed(
                        events,
                        pos + 1,
                        close,
                        name,
                        attrs,
                        feed,
                        capped(depth + 1),
                        base,
                        limits,
                    );
                    if child is Ok {
                        lemma_atom_feed_from_well_formed(
                            events,
                            after_close(close, hi),
                            hi,
                            child->Ok_0,
                            depth,
                            base,
                            limits,
                        );
                    }
                }
            },
            XmlEventView::Error(_) => {},
            _ => {
                lemma_atom_feed_from_well_formed(events, pos + 1, hi, feed, depth, base, limits);
            },
        }
    }
}

/// Reading an Atom document from any point on keeps a feed well formed.
pub proof fn lemma_atom_document_from_well_formed(
    events: Seq<XmlEventView>,
    pos: int,
    feed: ParsedFeedView,
    limits: ParserLimits,
)
    requires
        feed.well_formed(limits),
    ensures
        atom_document_from(events, pos, feed, limits).well_formed(limits),
    decreases events.len() - pos,
{
    if !(pos < 0 || pos >= events.len()) {
        match events[pos] {
            XmlEventView::Start(name, attrs) => {
                let noted = with_namespaces(feed, attrs, 0, limits);
                lemma_with_namespaces_well_formed(feed, attrs, limits);
                let hi = events.len() as int;
                let close = close_index(events, pos + 1, hi, 0);
                lemma_close_index_bounds(events, pos + 1, hi, 0);
                if is_name(crate::parser::common::without_prefix(name, "atom:"), "feed") {
                    lemma_atom_feed_from_well_formed(
                        events,
                        pos + 1,
                        close,
                        noted,
                        feed_depth(),
                        base_inside(None, attrs, limits),
                        limits,
                    );
                    lemma_atom_document_from_well_formed(
                        events,
                        after_close(close, hi),
                        whole_feed(events, pos + 1, close, attrs, noted, limits),
                        limits,
                    );
                } else if atom_feed_field_of(name) == AtomFeedField::Entry {
                    lemma_atom_feed_child_well_formed(
                        events,
                        pos + 1,
                        close,
                        name,
                        attrs,
                        noted,
                        feed_depth(),
                        None,
                        limits,
                    );
                    lemma_atom_document_from_well_formed(
                        events,
                        after_close(close, hi),
                        loose_entry(events, pos + 1, close, name, attrs, noted, limits),
                        limits,
                    );
                } else {
                    lemma_atom_document_from_well_formed(events, pos + 1, noted, limits);
                }
            },
            XmlEventView::Error(_) => {},
            _ => {
                lemma_atom_document_from_well_formed(events, pos + 1, feed, limits);
            },
        }
    }
}

/// Whatever the events and the limits, the feed read from them as Atom is
/// well formed.
pub proof fn lemma_atom_feed_well_formed(events: Seq<XmlEventView>, limits: ParserLimits)
    ensures
        atom_feed(events, limits).well_formed(limits),
{
    reveal_strlit("utf-8");
    lemma_atom_document_from_well_formed(events, 0, blank_atom(), limits);
}

} // verus!
