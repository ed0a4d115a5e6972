//! The parsers, one per format, and what they share.

pub mod atom;
pub mod atom_invariants;
pub mod clean;
pub mod common;
pub mod detect;
pub mod diagnostics;
pub mod documents;
pub mod entry;
pub mod extension_invariants;
pub mod extensions;
pub mod invariants;
pub mod json;
pub mod json_invariants;
pub mod namespaces;
pub mod order;
pub mod rss;
pub mod values;

pub use detect::detect_format;
pub use entry::{parse, parse_with_limits};
pub use atom::parse_atom_events;
pub use json::{parse_json_feed, parse_json_feed_value};
pub use rss::{parse_rss20, parse_rss20_events, parse_rss20_with_limits};
