//! The data model: what a parse produces.

pub mod common;
pub mod entry;
pub mod extensions;
pub mod feed;
pub mod version;

pub use common::{
    Content, ContentView, Enclosure, EnclosureView, Generator, GeneratorView, Image, ImageView,
    Link, LinkView, Namespace, NamespaceView, Person, PersonView, Source, SourceView, Tag,
    TagView, TextConstruct, TextConstructView, TextType,
};
pub use entry::{Entry, EntryView};
pub use extensions::{
    GeoKind, GeoLocation, GeoPoint, ItunesCategory, ItunesEntryMeta, ItunesFeedMeta, ItunesOwner,
    MediaContent, MediaThumbnail, PodcastFunding, PodcastMeta, PodcastPerson, PodcastTranscript,
    SyndicationMeta,
};
pub use feed::{FeedMeta, FeedMetaView, ParsedFeed, ParsedFeedView};
pub use version::FeedVersion;
