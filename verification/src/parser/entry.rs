//! The entry points: detect the format, then parse.

use vstd::prelude::*;
use crate::error::{FeedError, FeedErrorView};
use crate::limits::ParserLimits;
use crate::parser::atom::{atom_feed, parse_atom_events};
use crate::parser::detect::{detect_format, detected_format};
use crate::parser::json::{json_feed_of, parse_json_feed};
use crate::parser::rss::{
    feed_result, parse_rss20_events, rss_feed, set_diagnostic, too_large, with_diagnostic,
};
use crate::types::feed::{ParsedFeed, ParsedFeedView};
use crate::types::version::FeedVersion;
use crate::xml::{document_events, tokenize};

verus! {

/// Whether `version` is one of the RSS formats.
pub open spec fn is_rss(version: FeedVersion) -> bool {
    version == FeedVersion::Rss20 || version == FeedVersion::Rss10 || version
        == FeedVersion::Rss09x
}

/// Whether `version` is one of the Atom formats.
pub open spec fn is_atom(version: FeedVersion) -> bool {
    version == FeedVersion::Atom10 || version == FeedVersion::Atom03
}

/// Whether `version` is one of the JSON Feed formats.
pub open spec fn is_json(version: FeedVersion) -> bool {
    version == FeedVersion::JsonFeed10 || version == FeedVersion::JsonFeed11
}

/// What `parse_with_limits` returns for `data`.
///
/// An RSS document of any version is read by the RSS parser, an Atom
/// document of either version by the Atom parser, a JSON Feed of either
/// version by the JSON Feed parser, and each keeps the version that was
/// detected. A document whose format is not recognised yields an empty
/// feed that says so in its diagnostic.
pub open spec fn parse_result(data: Seq<u8>, limits: ParserLimits) -> Result<
    ParsedFeedView,
    FeedErrorView,
> {
    if data.len() > limits.max_feed_size_bytes {
        Err(too_large(data.len() as usize, limits.max_feed_size_bytes))
    } else {
        let version = detected_format(data);
        if is_rss(version) {
            Ok(ParsedFeedView { version, ..rss_feed(document_events(data), limits) })
        } else if is_atom(version) {
            Ok(ParsedFeedView { version, ..atom_feed(document_events(data), limits) })
        } else if is_json(version) {
            Ok(ParsedFeedView { version, ..json_feed_of(data, limits) })
        } else {
            Ok(with_diagnostic(ParsedFeedView::initial(), "Unknown feed format"@))
        }
    }
}

/// The feed with its version set to `version`.
pub fn with_version(feed: ParsedFeed, version: FeedVersion) -> (out: ParsedFeed)
    ensures
        out.deep_view() == (ParsedFeedView { version, ..feed.deep_view() }),
{
    let mut out = feed;
    out.version = version;
    out
}

/// The version of a feed has no part in whether it is well formed.
pub proof fn lemma_version_keeps_well_formed(
    feed: ParsedFeedView,
    version: FeedVersion,
    limits: ParserLimits,
)
    requires
        feed.well_formed(limits),
    ensures
        (ParsedFeedView { version, ..feed }).well_formed(limits),
{
}

/// The empty feed that says that the format of a document is not known.
pub fn unknown_format(limits: &ParserLimits) -> (feed: ParsedFeed)
    ensures
        feed.deep_view() == with_diagnostic(ParsedFeedView::initial(), "Unknown feed format"@),
        feed.deep_view().well_formed(*limits),
{
    proof {
        reveal_strlit("utf-8");
    }
    let mut feed = ParsedFeed::new();
    set_diagnostic(&mut feed, "Unknown feed format".to_owned());
    feed
}

/// Parses a feed within the given limits.
///
/// The one hard error is an input larger than `max_feed_size_bytes`, which
/// is refused before any of it is read. Every other input yields a feed;
/// what could not be read cleanly is reported in its `bozo` flag.
pub fn parse_with_limits(data: &[u8], limits: ParserLimits) -> (r: Result<ParsedFeed, FeedError>)
    ensures
        feed_result(r) == parse_result(data@, limits),
        r is Err <==> data@.len() > limits.max_feed_size_bytes,
        r is Ok ==> r->Ok_0.deep_view().well_formed(limits),
{
    match limits.check_feed_size(data.len()) {
        Ok(_) => {},
        Err(e) => {
            return Err(FeedError::InvalidFormat(e.to_string()));
        },
    }
    let version = detect_format(data);
    match version {
        FeedVersion::Rss20 | FeedVersion::Rss10 | FeedVersion::Rss09x => {
            let events = tokenize(data);
            let feed = parse_rss20_events(&events, &limits);
            proof {
                lemma_version_keeps_well_formed(feed.deep_view(), version, limits);
            }
            Ok(with_version(feed, version))
        },
        FeedVersion::Atom10 | FeedVersion::Atom03 => {
            let events = tokenize(data);
            let feed = parse_atom_events(&events, &limits);
            proof {
                lemma_version_keeps_well_formed(feed.deep_view(), version, limits);
            }
            Ok(with_version(feed, version))
        },
        FeedVersion::JsonFeed10 | FeedVersion::JsonFeed11 => {
            let feed = parse_json_feed(data, &limits);
            proof {
                lemma_version_keeps_well_formed(feed.deep_view(), version, limits);
            }
            Ok(with_version(feed, version))
        },
        FeedVersion::Unknown => Ok(unknown_format(&limits)),
    }
}

/// Parses a feed within the default limits.
pub fn parse(data: &[u8]) -> (r: Result<ParsedFeed, FeedError>)
    ensures
        feed_result(r) == parse_result(data@, ParserLimits::default_limits()),
        r is Err <==> data@.len() > ParserLimits::default_limits().max_feed_size_bytes,
        r is Ok ==> r->Ok_0.deep_view().well_formed(ParserLimits::default_limits()),
{
    parse_with_limits(data, ParserLimits::default())
}

} // verus!
