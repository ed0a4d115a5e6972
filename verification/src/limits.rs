//! Resource limits: how much of a hostile document the parser will keep.

use vstd::prelude::*;
use crate::text::{decimal_string, decimal_text};

verus! {

/// Ceilings on what a single parse may take in and store.
#[derive(Debug, Clone, Copy)]
pub struct ParserLimits {
    /// Largest input, in bytes, that is parsed at all.
    pub max_feed_size_bytes: usize,
    /// Most entries kept in a feed.
    pub max_entries: usize,
    /// Most links kept on the feed itself.
    pub max_links_per_feed: usize,
    /// Most links kept on one entry.
    pub max_links_per_entry: usize,
    /// Most authors kept on a feed or an entry.
    pub max_authors: usize,
    /// Most contributors kept on a feed or an entry.
    pub max_contributors: usize,
    /// Most tags kept on a feed or an entry.
    pub max_tags: usize,
    /// Most content blocks kept on one entry.
    pub max_content_blocks: usize,
    /// Most enclosures kept on one entry.
    pub max_enclosures: usize,
    /// Most namespace bindings recorded for a document.
    pub max_namespaces: usize,
    /// Deepest element nesting that is followed.
    pub max_nesting_depth: usize,
    /// Longest single text node, in bytes, that is kept.
    pub max_text_length: usize,
    /// Longest single attribute value, in bytes, that is kept.
    pub max_attribute_length: usize,
}

/// A limit that an input went over.
#[derive(Debug, Clone, Copy, PartialEq, Eq, Structural)]
pub enum LimitError {
    /// The input has `size` bytes and only `max` are allowed.
    FeedTooLarge { size: usize, max: usize },
    /// An element sits at `depth` and only `max` levels are followed.
    NestingTooDeep { depth: usize, max: usize },
}

impl LimitError {
    /// The text a user is shown for this error.
    pub open spec fn message(self) -> Seq<char> {
        match self {
            LimitError::FeedTooLarge { size, max } => "Feed size ("@ + decimal_text(size as nat)
                + " bytes) exceeds maximum ("@ + decimal_text(max as nat) + " bytes)"@,
            LimitError::NestingTooDeep { depth, max } => "XML nesting depth "@ + decimal_text(
                depth as nat,
            ) + " exceeds maximum "@ + decimal_text(max as nat),
        }
    }

    /// The text a user is shown for this error.
    pub fn to_string(&self) -> (s: String)
        ensures
            s@ == self.message(),
    {
        match self {
            LimitError::FeedTooLarge { size, max } => {
                let mut s = String::from_str("Feed size (");
                s.append(decimal_string(*size).as_str());
                s.append(" bytes) exceeds maximum (");
                s.append(decimal_string(*max).as_str());
                s.append(" bytes)");
                s
            },
            LimitError::NestingTooDeep { depth, max } => {
                let mut s = String::from_str("XML nesting depth ");
                s.append(decimal_string(*depth).as_str());
                s.append(" exceeds maximum ");
                s.append(decimal_string(*max).as_str());
                s
            },
        }
    }
}

impl ParserLimits {
    /// The limits used when a caller names none.
    pub open spec fn default_limits() -> ParserLimits {
        ParserLimits {
            max_feed_size_bytes: 104857600,
            max_entries: 10000,
            max_links_per_feed: 100,
            max_links_per_entry: 50,
            max_authors: 20,
            max_contributors: 20,
            max_tags: 100,
            max_content_blocks: 10,
            max_enclosures: 20,
            max_namespaces: 100,
            max_nesting_depth: 100,
            max_text_length: 10485760,
            max_attribute_length: 65536,
        }
    }

    /// The limits with the given ceilings on size and lists, and the default
    /// ones on namespaces, nesting, text and attributes.
    pub fn new(
        max_feed_size_bytes: usize,
        max_entries: usize,
        max_links_per_feed: usize,
        max_links_per_entry: usize,
        max_authors: usize,
        max_contributors: usize,
        max_tags: usize,
        max_content_blocks: usize,
        max_enclosures: usize,
    ) -> (limits: ParserLimits)
        ensures
            limits == (ParserLimits {
                max_feed_size_bytes,
                max_entries,
                max_links_per_feed,
                max_links_per_entry,
                max_authors,
                max_contributors,
                max_tags,
                max_content_blocks,
                max_enclosures,
                ..ParserLimits::default_limits()
            }),
    {
        ParserLimits {
            max_feed_size_bytes,
            max_entries,
            max_links_per_feed,
            max_links_per_entry,
            max_authors,
            max_contributors,
            max_tags,
            max_content_blocks,
            max_enclosures,
            max_namespaces: 100,
            max_nesting_depth: 100,
            max_text_length: 10485760,
            max_attribute_length: 65536,
        }
    }

    /// Whether an input of `size` bytes may be parsed.
    pub fn check_feed_size(&self, size: usize) -> (r: Result<(), LimitError>)
        ensures
            size <= self.max_feed_size_bytes ==> r == Ok::<(), LimitError>(()),
            size > self.max_feed_size_bytes ==> r == Err::<(), LimitError>(
                LimitError::FeedTooLarge { size, max: self.max_feed_size_bytes },
            ),
    {
        if size > self.max_feed_size_bytes {
            Err(LimitError::FeedTooLarge { size, max: self.max_feed_size_bytes })
        } else {
            Ok(())
        }
    }

    /// Whether an element at `depth` may be entered.
    pub fn check_nesting_depth(&self, depth: usize) -> (r: Result<(), LimitError>)
        ensures
            depth <= self.max_nesting_depth ==> r == Ok::<(), LimitError>(()),
            depth > self.max_nesting_depth ==> r == Err::<(), LimitError>(
                LimitError::NestingTooDeep { depth, max: self.max_nesting_depth },
            ),
    {
        if depth > self.max_nesting_depth {
            Err(LimitError::NestingTooDeep { depth, max: self.max_nesting_depth })
        } else {
            Ok(())
        }
    }
}

impl Default for ParserLimits {
    fn default() -> (limits: ParserLimits)
        ensures
            limits == ParserLimits::default_limits(),
    {
        ParserLimits {
            max_feed_size_bytes: 104857600,
            max_entries: 10000,
            max_links_per_feed: 100,
            max_links_per_entry: 50,
            max_authors: 20,
            max_contributors: 20,
            max_tags: 100,
            max_content_blocks: 10,
            max_enclosures: 20,
            max_namespaces: 100,
            max_nesting_depth: 100,
            max_text_length: 10485760,
            max_attribute_length: 65536,
        }
    }
}

/// Whether `items` already holds `limit` items or more.
pub fn is_at_limit<T>(items: &Vec<T>, limit: usize) -> (full: bool)
    ensures
        full == (items@.len() >= limit),
{
    items.len() >= limit
}

/// Appends `item` unless `items` already holds `limit` items; says whether
/// it was appended.
pub fn try_push_limited<T>(items: &mut Vec<T>, item: T, limit: usize) -> (pushed: bool)
    ensures
        pushed == (old(items)@.len() < limit),
        pushed ==> final(items)@ == old(items)@.push(item),
        !pushed ==> final(items)@ == old(items)@,
{
    if items.len() < limit {
        items.push(item);
        true
    } else {
        false
    }
}

/// The value of a list that took one more item is the value it had, with
/// the value of the item at its end.
pub proof fn lemma_push_deep_view<T: DeepView>(before: Vec<T>, after: Vec<T>, item: T)
    requires
        after@ == before@.push(item),
    ensures
        after.deep_view() == before.deep_view().push(item.deep_view()),
{
    assert(after.deep_view() =~= before.deep_view().push(item.deep_view()));
}

/// The text that reports a list as full.
pub open spec fn limit_message(what: &str, limit: usize) -> Seq<char> {
    what@ + " limit exceeded: "@ + decimal_text(limit as nat)
}

/// The text that reports a list as full.
pub fn limit_exceeded(what: &str, limit: usize) -> (message: String)
    ensures
        message@ == limit_message(what, limit),
{
    let mut message = String::from_str(what);
    message.append(" limit exceeded: ");
    message.append(decimal_string(limit).as_str());
    message
}

} // verus!
