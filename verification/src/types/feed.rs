//! A feed as a whole.

use vstd::prelude::*;
use crate::types::common::{
    Generator, GeneratorView, Image, ImageView, Link, LinkView, Namespace, NamespaceView, Person,
    PersonView, Tag, TagView, TextConstruct, TextConstructView,
};
use crate::types::entry::{Entry, EntryView};
use crate::types::extensions::{
    GeoLocation, GeoLocationView, ItunesFeedMeta, ItunesFeedMetaView, PodcastMeta,
    PodcastMetaView, SyndicationMeta, SyndicationMetaView,
};
use crate::types::version::FeedVersion;
use crate::util::date::Timestamp;

verus! {

/// What a feed says about itself.
#[derive(Debug, Clone)]
pub struct FeedMeta {
    /// Title.
    pub title: Option<String>,
    /// Title with the way it is to be read.
    pub title_detail: Option<TextConstruct>,
    /// Main link.
    pub link: Option<String>,
    /// All links, in document order.
    pub links: Vec<Link>,
    /// Subtitle or description.
    pub subtitle: Option<String>,
    /// Subtitle with the way it is to be read.
    pub subtitle_detail: Option<TextConstruct>,
    /// When the feed was last changed.
    pub updated: Option<Timestamp>,
    /// Name of the main author.
    pub author: Option<String>,
    /// The main author.
    pub author_detail: Option<Person>,
    /// All authors.
    pub authors: Vec<Person>,
    /// Contributors.
    pub contributors: Vec<Person>,
    /// Name of the publisher.
    pub publisher: Option<String>,
    /// The publisher.
    pub publisher_detail: Option<Person>,
    /// Language, such as `en-us`.
    pub language: Option<String>,
    /// Copyright statement.
    pub rights: Option<String>,
    /// Copyright statement with the way it is to be read.
    pub rights_detail: Option<TextConstruct>,
    /// Name of the program that wrote the feed.
    pub generator: Option<String>,
    /// The program that wrote the feed.
    pub generator_detail: Option<Generator>,
    /// Image of the feed.
    pub image: Option<Image>,
    /// URL of a small image.
    pub icon: Option<String>,
    /// URL of a larger image.
    pub logo: Option<String>,
    /// Tags, in document order.
    pub tags: Vec<Tag>,
    /// Identifier of the feed.
    pub id: Option<String>,
    /// Minutes the feed may be cached.
    pub ttl: Option<u32>,
    /// How often the feed is updated.
    pub syndication: Option<SyndicationMeta>,
    /// Dublin Core: who made the feed.
    pub dc_creator: Option<String>,
    /// Dublin Core: who publishes the feed.
    pub dc_publisher: Option<String>,
    /// Dublin Core: the rights held in the feed.
    pub dc_rights: Option<String>,
    /// What the iTunes elements say about the podcast.
    pub itunes: Option<ItunesFeedMeta>,
    /// What the Podcast 2.0 elements say about the podcast.
    pub podcast: Option<PodcastMeta>,
    /// GeoRSS: where the feed is about.
    pub geo: Option<GeoLocation>,
}

/// The mathematical value of a [`FeedMeta`].
pub struct FeedMetaView {
    pub title: Option<Seq<char>>,
    pub title_detail: Option<TextConstructView>,
    pub link: Option<Seq<char>>,
    pub links: Seq<LinkView>,
    pub subtitle: Option<Seq<char>>,
    pub subtitle_detail: Option<TextConstructView>,
    pub updated: Option<Timestamp>,
    pub author: Option<Seq<char>>,
    pub author_detail: Option<PersonView>,
    pub authors: Seq<PersonView>,
    pub contributors: Seq<PersonView>,
    pub publisher: Option<Seq<char>>,
    pub publisher_detail: Option<PersonView>,
    pub language: Option<Seq<char>>,
    pub rights: Option<Seq<char>>,
    pub rights_detail: Option<TextConstructView>,
    pub generator: Option<Seq<char>>,
    pub generator_detail: Option<GeneratorView>,
    pub image: Option<ImageView>,
    pub icon: Option<Seq<char>>,
    pub logo: Option<Seq<char>>,
    pub tags: Seq<TagView>,
    pub id: Option<Seq<char>>,
    pub ttl: Option<u32>,
    pub syndication: Option<SyndicationMetaView>,
    pub dc_creator: Option<Seq<char>>,
    pub dc_publisher: Option<Seq<char>>,
    pub dc_rights: Option<Seq<char>>,
    pub itunes: Option<ItunesFeedMetaView>,
    pub podcast: Option<PodcastMetaView>,
    pub geo: Option<GeoLocationView>,
}

impl DeepView for FeedMeta {
    type V = FeedMetaView;

    open spec fn deep_view(&self) -> FeedMetaView {
        FeedMetaView {
            title: self.title.deep_view(),
            title_detail: self.title_detail.deep_view(),
            link: self.link.deep_view(),
            links: self.links.deep_view(),
            subtitle: self.subtitle.deep_view(),
            subtitle_detail: self.subtitle_detail.deep_view(),
            updated: self.updated,
            author: self.author.deep_view(),
            author_detail: self.author_detail.deep_view(),
            authors: self.authors.deep_view(),
            contributors: self.contributors.deep_view(),
            publisher: self.publisher.deep_view(),
            publisher_detail: self.publisher_detail.deep_view(),
            language: self.language.deep_view(),
            rights: self.rights.deep_view(),
            rights_detail: self.rights_detail.deep_view(),
            generator: self.generator.deep_view(),
            generator_detail: self.generator_detail.deep_view(),
            image: self.image.deep_view(),
            icon: self.icon.deep_view(),
            logo: self.logo.deep_view(),
            tags: self.tags.deep_view(),
            id: self.id.deep_view(),
            ttl: self.ttl,
            syndication: self.syndication.deep_view(),
            dc_creator: self.dc_creator.deep_view(),
            dc_publisher: self.dc_publisher.deep_view(),
            dc_rights: self.dc_rights.deep_view(),
            itunes: self.itunes.deep_view(),
            podcast: self.podcast.deep_view(),
            geo: self.geo.deep_view(),
        }
    }
}

impl FeedMetaView {
    /// A feed of which nothing is known.
    pub open spec fn empty() -> FeedMetaView {
        FeedMetaView {
            title: None,
            title_detail: None,
            link: None,
            links: Seq::empty(),
            subtitle: None,
            subtitle_detail: None,
            updated: None,
            author: None,
            author_detail: None,
            authors: Seq::empty(),
            contributors: Seq::empty(),
            publisher: None,
            publisher_detail: None,
            language: None,
            rights: None,
            rights_detail: None,
            generator: None,
            generator_detail: None,
            image: None,
            icon: None,
            logo: None,
            tags: Seq::empty(),
            id: None,
            ttl: None,
            syndication: None,
            dc_creator: None,
            dc_publisher: None,
            dc_rights: None,
            itunes: None,
            podcast: None,
            geo: None,
        }
    }
}

impl Default for FeedMeta {
    fn default() -> (value: FeedMeta)
        ensures
            value.deep_view() == FeedMetaView::empty(),
    {
        let value = FeedMeta {
            title: None,
            title_detail: None,
            link: None,
            links: Vec::new(),
            subtitle: None,
            subtitle_detail: None,
            updated: None,
            author: None,
            author_detail: None,
            authors: Vec::new(),
            contributors: Vec::new(),
            publisher: None,
            publisher_detail: None,
            language: None,
            rights: None,
            rights_detail: None,
            generator: None,
            generator_detail: None,
            image: None,
            icon: None,
            logo: None,
            tags: Vec::new(),
            id: None,
            ttl: None,
            syndication: None,
            dc_creator: None,
            dc_publisher: None,
            dc_rights: None,
            itunes: None,
            podcast: None,
            geo: None,
        };
        proof {
            assert(value.links.deep_view() =~= Seq::empty());
            assert(value.authors.deep_view() =~= Seq::empty());
            assert(value.contributors.deep_view() =~= Seq::empty());
            assert(value.tags.deep_view() =~= Seq::empty());
        }
        value
    }
}

/// The result of a parse: the feed, its entries, and how the parse went.
#[derive(Debug, Clone)]
pub struct ParsedFeed {
    /// What the feed says about itself.
    pub feed: FeedMeta,
    /// The entries, in document order.
    pub entries: Vec<Entry>,
    /// Whether something in the document could not be read cleanly.
    pub bozo: bool,
    /// The last thing that could not be read cleanly.
    pub bozo_exception: Option<String>,
    /// Character encoding of the document.
    pub encoding: String,
    /// Format of the document.
    pub version: FeedVersion,
    /// Namespaces the document declares, each prefix once.
    pub namespaces: Vec<Namespace>,
}

/// The mathematical value of a [`ParsedFeed`].
pub struct ParsedFeedView {
    pub feed: FeedMetaView,
    pub entries: Seq<EntryView>,
    pub bozo: bool,
    pub bozo_exception: Option<Seq<char>>,
    pub encoding: Seq<char>,
    pub version: FeedVersion,
    pub namespaces: Seq<NamespaceView>,
}

impl DeepView for ParsedFeed {
    type V = ParsedFeedView;

    open spec fn deep_view(&self) -> ParsedFeedView {
        ParsedFeedView {
            feed: self.feed.deep_view(),
            entries: self.entries.deep_view(),
            bozo: self.bozo,
            bozo_exception: self.bozo_exception.deep_view(),
            encoding: self.encoding@,
            version: self.version,
            namespaces: self.namespaces.deep_view(),
        }
    }
}

impl ParsedFeedView {
    /// The result without any content, not even an encoding.
    pub open spec fn empty() -> ParsedFeedView {
        ParsedFeedView {
            feed: FeedMetaView::empty(),
            entries: Seq::empty(),
            bozo: false,
            bozo_exception: None,
            encoding: Seq::empty(),
            version: FeedVersion::Unknown,
            namespaces: Seq::empty(),
        }
    }
}

impl Default for ParsedFeed {
    fn default() -> (value: ParsedFeed)
        ensures
            value.deep_view() == ParsedFeedView::empty(),
    {
        let value = ParsedFeed {
            feed: FeedMeta::default(),
            entries: Vec::new(),
            bozo: false,
            bozo_exception: None,
            encoding: String::new(),
            version: FeedVersion::Unknown,
            namespaces: Vec::new(),
        };
        proof {
            assert(value.entries.deep_view() =~= Seq::empty());
            assert(value.namespaces.deep_view() =~= Seq::empty());
        }
        value
    }
}

impl ParsedFeedView {
    /// The result that every parse starts from: nothing but the encoding.
    pub open spec fn initial() -> ParsedFeedView {
        ParsedFeedView { encoding: "utf-8"@, ..ParsedFeedView::empty() }
    }
}

impl ParsedFeed {
    /// An empty result in UTF-8.
    pub fn new() -> (feed: ParsedFeed)
        ensures
            feed.deep_view() == ParsedFeedView::initial(),
    {
        let mut feed = ParsedFeed::default();
        feed.encoding = "utf-8".to_owned();
        feed
    }

    /// An empty result in UTF-8 with room for `entry_count` entries.
    pub fn with_capacity(entry_count: usize) -> (feed: ParsedFeed)
        ensures
            feed.deep_view() == ParsedFeedView::initial(),
    {
        let mut feed = ParsedFeed::default();
        feed.entries = Vec::with_capacity(entry_count);
        feed.namespaces = Vec::with_capacity(8);
        feed.encoding = "utf-8".to_owned();
        proof {
            assert(feed.entries.deep_view() =~= Seq::empty());
            assert(feed.namespaces.deep_view() =~= Seq::empty());
        }
        feed
    }
}

impl FeedMeta {
    /// Empty metadata with room for the lists an RSS channel usually has.
    pub fn with_rss_capacity() -> (meta: FeedMeta)
        ensures
            meta.deep_view() == FeedMetaView::empty(),
    {
        let mut meta = FeedMeta::default();
        meta.links = Vec::with_capacity(2);
        meta.authors = Vec::with_capacity(1);
        meta.contributors = Vec::with_capacity(0);
        meta.tags = Vec::with_capacity(3);
        proof {
            assert(meta.links.deep_view() =~= Seq::empty());
            assert(meta.authors.deep_view() =~= Seq::empty());
            assert(meta.contributors.deep_view() =~= Seq::empty());
            assert(meta.tags.deep_view() =~= Seq::empty());
        }
        meta
    }

    /// Empty metadata with room for the lists an Atom feed usually has.
    pub fn with_atom_capacity() -> (meta: FeedMeta)
        ensures
            meta.deep_view() == FeedMetaView::empty(),
    {
        let mut meta = FeedMeta::default();
        meta.links = Vec::with_capacity(4);
        meta.authors = Vec::with_capacity(2);
        meta.contributors = Vec::with_capacity(1);
        meta.tags = Vec::with_capacity(5);
        proof {
            assert(meta.links.deep_view() =~= Seq::empty());
            assert(meta.authors.deep_view() =~= Seq::empty());
            assert(meta.contributors.deep_view() =~= Seq::empty());
            assert(meta.tags.deep_view() =~= Seq::empty());
        }
        meta
    }
}

} // verus!
