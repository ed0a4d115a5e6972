//! The formats a document can have.

use vstd::prelude::*;

verus! {

/// The format of a feed document.
#[derive(Debug, Clone, Copy, PartialEq, Eq, Structural)]
pub enum FeedVersion {
    /// RSS 2.0.
    Rss20,
    /// RSS 1.0, the RDF flavour.
    Rss10,
    /// One of RSS 0.90 to 0.94.
    Rss09x,
    /// Atom 0.3.
    Atom03,
    /// Atom 1.0.
    Atom10,
    /// JSON Feed 1.0.
    JsonFeed10,
    /// JSON Feed 1.1.
    JsonFeed11,
    /// Not recognised.
    Unknown,
}

impl FeedVersion {
    /// The short name of the format; empty where it is not known.
    pub open spec fn name(self) -> Seq<char> {
        match self {
            FeedVersion::Rss20 => "rss20"@,
            FeedVersion::Rss10 => "rss10"@,
            FeedVersion::Rss09x => "rss09x"@,
            FeedVersion::Atom03 => "atom03"@,
            FeedVersion::Atom10 => "atom10"@,
            FeedVersion::JsonFeed10 => "json10"@,
            FeedVersion::JsonFeed11 => "json11"@,
            FeedVersion::Unknown => ""@,
        }
    }

    /// The short name of the format; empty where it is not known.
    pub fn as_str(&self) -> (s: &'static str)
        ensures
            s@ == self.name(),
    {
        match self {
            FeedVersion::Rss20 => "rss20",
            FeedVersion::Rss10 => "rss10",
            FeedVersion::Rss09x => "rss09x",
            FeedVersion::Atom03 => "atom03",
            FeedVersion::Atom10 => "atom10",
            FeedVersion::JsonFeed10 => "json10",
            FeedVersion::JsonFeed11 => "json11",
            FeedVersion::Unknown => "",
        }
    }

    /// The short name of the format as an owned string.
    pub fn to_string(&self) -> (s: String)
        ensures
            s@ == self.name(),
    {
        self.as_str().to_owned()
    }
}

impl Default for FeedVersion {
    fn default() -> (version: FeedVersion)
        ensures
            version == FeedVersion::Unknown,
    {
        FeedVersion::Unknown
    }
}

} // verus!
