//! A tolerant feed parser: untrusted bytes in, one typed feed out.
//!
//! [`parse`] tells RSS, Atom and JSON Feed apart and reads each into the
//! same [`ParsedFeed`]. Malformed input never aborts a parse. What could
//! not be read cleanly is reported through the `bozo` flag of the result,
//! and the only hard error is an input larger than the configured size
//! limit. [`ParserLimits`] bounds what a hostile document can make the
//! parser keep.
//!
//! The XML tokenizer is `quick_xml`, the JSON parser `serde_json`, dates are
//! read by `chrono` and URLs joined by `url`. What they return is named in
//! the contracts of this crate; everything that is done with it is
//! verified: every function says what it returns as a function of those
//! names, and the modules [`parser::invariants`], [`parser::order`],
//! [`parser::clean`] and [`parser::documents`] prove what holds of every
//! result.

pub mod error;
pub mod json;
pub mod limits;
pub mod parser;
pub mod text;
pub mod types;
pub mod util;
pub mod xml;

pub use error::{convert_feed_error, ExceptionKind, FeedError, ForeignError};
pub use limits::{LimitError, ParserLimits};
pub use util::{
    charset_of, combine_bases, datetime_to_struct_time, optional_datetime_to_struct_time,
    parse_date, resolve_url, BaseUrlContext, StructTime, Timestamp,
};
pub use types::{
    Content, Enclosure, Entry, FeedMeta, FeedVersion, Generator, GeoKind, GeoLocation, GeoPoint,
    Image, ItunesCategory, ItunesEntryMeta, ItunesFeedMeta, ItunesOwner, Link, MediaContent,
    MediaThumbnail, Namespace, ParsedFeed, Person, PodcastFunding, PodcastMeta, PodcastPerson,
    PodcastTranscript, Source, SyndicationMeta, Tag, TextConstruct, TextType,
};
pub use parser::{
    detect_format, parse, parse_atom_events, parse_json_feed, parse_json_feed_value,
    parse_rss20, parse_rss20_events, parse_rss20_with_limits, parse_with_limits,
};
pub use xml::{tokenize, XmlAttr, XmlEvent};
