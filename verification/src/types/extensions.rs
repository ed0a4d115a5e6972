//! The records that extension namespaces add to feeds and entries.

use vstd::prelude::*;

verus! {

/// How often a feed is updated, as the Syndication module says it.
#[derive(Debug, Clone)]
pub struct SyndicationMeta {
    /// How often the feed changes: `hourly`, `daily`, `weekly`, `monthly` or `yearly`.
    pub update_period: Option<String>,
    /// How many times in that period.
    pub update_frequency: Option<u32>,
    /// The date from which the periods are counted.
    pub update_base: Option<String>,
}

/// The mathematical value of a [`SyndicationMeta`].
pub struct SyndicationMetaView {
    pub update_period: Option<Seq<char>>,
    pub update_frequency: Option<u32>,
    pub update_base: Option<Seq<char>>,
}

impl DeepView for SyndicationMeta {
    type V = SyndicationMetaView;

    open spec fn deep_view(&self) -> SyndicationMetaView {
        SyndicationMetaView {
            update_period: self.update_period.deep_view(),
            update_frequency: self.update_frequency,
            update_base: self.update_base.deep_view(),
        }
    }
}

impl SyndicationMetaView {
    /// Nothing said.
    pub open spec fn empty() -> SyndicationMetaView {
        SyndicationMetaView {
            update_period: None,
            update_frequency: None,
            update_base: None,
        }
    }
}

impl Default for SyndicationMeta {
    fn default() -> (value: SyndicationMeta)
        ensures
            value.deep_view() == SyndicationMetaView::empty(),
    {
        let value = SyndicationMeta {
            update_period: None,
            update_frequency: None,
            update_base: None,
        };
        value
    }
}

/// The owner of a podcast.
#[derive(Debug, Clone)]
pub struct ItunesOwner {
    /// Name of the owner.
    pub name: Option<String>,
    /// E-mail address of the owner.
    pub email: Option<String>,
}

/// The mathematical value of an [`ItunesOwner`].
pub struct ItunesOwnerView {
    pub name: Option<Seq<char>>,
    pub email: Option<Seq<char>>,
}

impl DeepView for ItunesOwner {
    type V = ItunesOwnerView;

    open spec fn deep_view(&self) -> ItunesOwnerView {
        ItunesOwnerView {
            name: self.name.deep_view(),
            email: self.email.deep_view(),
        }
    }
}

impl ItunesOwnerView {
    /// An owner of whom nothing is known.
    pub open spec fn empty() -> ItunesOwnerView {
        ItunesOwnerView {
            name: None,
            email: None,
        }
    }
}

impl Default for ItunesOwner {
    fn default() -> (value: ItunesOwner)
        ensures
            value.deep_view() == ItunesOwnerView::empty(),
    {
        let value = ItunesOwner {
            name: None,
            email: None,
        };
        value
    }
}

/// A category of a podcast.
#[derive(Debug, Clone)]
pub struct ItunesCategory {
    /// The category.
    pub text: String,
    /// The category within it.
    pub subcategory: Option<String>,
}

/// The mathematical value of an [`ItunesCategory`].
pub struct ItunesCategoryView {
    pub text: Seq<char>,
    pub subcategory: Option<Seq<char>>,
}

impl DeepView for ItunesCategory {
    type V = ItunesCategoryView;

    open spec fn deep_view(&self) -> ItunesCategoryView {
        ItunesCategoryView {
            text: self.text@,
            subcategory: self.subcategory.deep_view(),
        }
    }
}

/// What the iTunes elements say about a podcast.
#[derive(Debug, Clone)]
pub struct ItunesFeedMeta {
    /// Who makes the podcast.
    pub author: Option<String>,
    /// Who is to be contacted about it.
    pub owner: Option<ItunesOwner>,
    /// Categories, in document order.
    pub categories: Vec<ItunesCategory>,
    /// Whether the podcast is marked as explicit.
    pub explicit: Option<bool>,
    /// URL of the artwork.
    pub image: Option<String>,
    /// Keywords, in the order they are written.
    pub keywords: Vec<String>,
    /// `episodic` or `serial`.
    pub podcast_type: Option<String>,
    /// Whether no more episodes will come.
    pub complete: Option<bool>,
    /// Where the feed has moved to.
    pub new_feed_url: Option<String>,
}

/// The mathematical value of an [`ItunesFeedMeta`].
pub struct ItunesFeedMetaView {
    pub author: Option<Seq<char>>,
    pub owner: Option<ItunesOwnerView>,
    pub categories: Seq<ItunesCategoryView>,
    pub explicit: Option<bool>,
    pub image: Option<Seq<char>>,
    pub keywords: Seq<Seq<char>>,
    pub podcast_type: Option<Seq<char>>,
    pub complete: Option<bool>,
    pub new_feed_url: Option<Seq<char>>,
}

impl DeepView for ItunesFeedMeta {
    type V = ItunesFeedMetaView;

    open spec fn deep_view(&self) -> ItunesFeedMetaView {
        ItunesFeedMetaView {
            author: self.author.deep_view(),
            owner: self.owner.deep_view(),
            categories: self.categories.deep_view(),
            explicit: self.explicit,
            image: self.image.deep_view(),
            keywords: self.keywords.deep_view(),
            podcast_type: self.podcast_type.deep_view(),
            complete: self.complete,
            new_feed_url: self.new_feed_url.deep_view(),
        }
    }
}

impl ItunesFeedMetaView {
    /// Nothing said.
    pub open spec fn empty() -> ItunesFeedMetaView {
        ItunesFeedMetaView {
            author: None,
            owner: None,
            categories: Seq::empty(),
            explicit: None,
            image: None,
            keywords: Seq::empty(),
            podcast_type: None,
            complete: None,
            new_feed_url: None,
        }
    }
}

impl Default for ItunesFeedMeta {
    fn default() -> (value: ItunesFeedMeta)
        ensures
            value.deep_view() == ItunesFeedMetaView::empty(),
    {
        let value = ItunesFeedMeta {
            author: None,
            owner: None,
            categories: Vec::new(),
            explicit: None,
            image: None,
            keywords: Vec::new(),
            podcast_type: None,
            complete: None,
            new_feed_url: None,
        };
        proof {
            assert(value.categories.deep_view() =~= Seq::empty());
            assert(value.keywords.deep_view() =~= Seq::empty());
        }
        value
    }
}

/// What the iTunes elements say about an episode.
#[derive(Debug, Clone)]
pub struct ItunesEntryMeta {
    /// Title of the episode.
    pub title: Option<String>,
    /// Who made the episode.
    pub author: Option<String>,
    /// Length of the episode in seconds.
    pub duration: Option<u32>,
    /// Whether the episode is marked as explicit.
    pub explicit: Option<bool>,
    /// URL of the artwork.
    pub image: Option<String>,
    /// Number of the episode.
    pub episode: Option<u32>,
    /// Number of the season.
    pub season: Option<u32>,
    /// `full`, `trailer` or `bonus`.
    pub episode_type: Option<String>,
}

/// The mathematical value of an [`ItunesEntryMeta`].
pub struct ItunesEntryMetaView {
    pub title: Option<Seq<char>>,
    pub author: Option<Seq<char>>,
    pub duration: Option<u32>,
    pub explicit: Option<bool>,
    pub image: Option<Seq<char>>,
    pub episode: Option<u32>,
    pub season: Option<u32>,
    pub episode_type: Option<Seq<char>>,
}

impl DeepView for ItunesEntryMeta {
    type V = ItunesEntryMetaView;

    open spec fn deep_view(&self) -> ItunesEntryMetaView {
        ItunesEntryMetaView {
            title: self.title.deep_view(),
            author: self.author.deep_view(),
            duration: self.duration,
            explicit: self.explicit,
            image: self.image.deep_view(),
            episode: self.episode,
            season: self.season,
            episode_type: self.episode_type.deep_view(),
        }
    }
}

impl ItunesEntryMetaView {
    /// Nothing said.
    pub open spec fn empty() -> ItunesEntryMetaView {
        ItunesEntryMetaView {
            title: None,
            author: None,
            duration: None,
            explicit: None,
            image: None,
            episode: None,
            season: None,
            episode_type: None,
        }
    }
}

impl Default for ItunesEntryMeta {
    fn default() -> (value: ItunesEntryMeta)
        ensures
            value.deep_view() == ItunesEntryMetaView::empty(),
    {
        let value = ItunesEntryMeta {
            title: None,
            author: None,
            duration: None,
            explicit: None,
            image: None,
            episode: None,
            season: None,
            episode_type: None,
        };
        value
    }
}

/// A way to support a podcast.
#[derive(Debug, Clone)]
pub struct PodcastFunding {
    /// Where to give.
    pub url: String,
    /// What the link says.
    pub message: Option<String>,
}

/// The mathematical value of a [`PodcastFunding`].
pub struct PodcastFundingView {
    pub url: Seq<char>,
    pub message: Option<Seq<char>>,
}

impl DeepView for PodcastFunding {
    type V = PodcastFundingView;

    open spec fn deep_view(&self) -> PodcastFundingView {
        PodcastFundingView {
            url: self.url@,
            message: self.message.deep_view(),
        }
    }
}

/// A transcript of an episode.
#[derive(Debug, Clone)]
pub struct PodcastTranscript {
    /// Where the transcript is.
    pub url: String,
    /// MIME type of the transcript.
    pub transcript_type: Option<String>,
    /// Language of the transcript.
    pub language: Option<String>,
    /// `captions` where the transcript is timed.
    pub rel: Option<String>,
}

/// The mathematical value of a [`PodcastTranscript`].
pub struct PodcastTranscriptView {
    pub url: Seq<char>,
    pub transcript_type: Option<Seq<char>>,
    pub language: Option<Seq<char>>,
    pub rel: Option<Seq<char>>,
}

impl DeepView for PodcastTranscript {
    type V = PodcastTranscriptView;

    open spec fn deep_view(&self) -> PodcastTranscriptView {
        PodcastTranscriptView {
            url: self.url@,
            transcript_type: self.transcript_type.deep_view(),
            language: self.language.deep_view(),
            rel: self.rel.deep_view(),
        }
    }
}

/// A person behind a podcast or an episode.
#[derive(Debug, Clone)]
pub struct PodcastPerson {
    /// Name of the person.
    pub name: String,
    /// What the person did.
    pub role: Option<String>,
    /// The group the role belongs to.
    pub group: Option<String>,
    /// URL of a picture.
    pub img: Option<String>,
    /// A page about the person.
    pub href: Option<String>,
}

/// The mathematical value of a [`PodcastPerson`].
pub struct PodcastPersonView {
    pub name: Seq<char>,
    pub role: Option<Seq<char>>,
    pub group: Option<Seq<char>>,
    pub img: Option<Seq<char>>,
    pub href: Option<Seq<char>>,
}

impl DeepView for PodcastPerson {
    type V = PodcastPersonView;

    open spec fn deep_view(&self) -> PodcastPersonView {
        PodcastPersonView {
            name: self.name@,
            role: self.role.deep_view(),
            group: self.group.deep_view(),
            img: self.img.deep_view(),
            href: self.href.deep_view(),
        }
    }
}

/// What the Podcast 2.0 elements say about a podcast.
#[derive(Debug, Clone)]
pub struct PodcastMeta {
    /// Ways to support the podcast.
    pub funding: Vec<PodcastFunding>,
    /// People behind the podcast.
    pub persons: Vec<PodcastPerson>,
    /// Identifier of the podcast across feeds.
    pub guid: Option<String>,
}

/// The mathematical value of a [`PodcastMeta`].
pub struct PodcastMetaView {
    pub funding: Seq<PodcastFundingView>,
    pub persons: Seq<PodcastPersonView>,
    pub guid: Option<Seq<char>>,
}

impl DeepView for PodcastMeta {
    type V = PodcastMetaView;

    open spec fn deep_view(&self) -> PodcastMetaView {
        PodcastMetaView {
            funding: self.funding.deep_view(),
            persons: self.persons.deep_view(),
            guid: self.guid.deep_view(),
        }
    }
}

impl PodcastMetaView {
    /// Nothing said.
    pub open spec fn empty() -> PodcastMetaView {
        PodcastMetaView {
            funding: Seq::empty(),
            persons: Seq::empty(),
            guid: None,
        }
    }
}

impl Default for PodcastMeta {
    fn default() -> (value: PodcastMeta)
        ensures
            value.deep_view() == PodcastMetaView::empty(),
    {
        let value = PodcastMeta {
            funding: Vec::new(),
            persons: Vec::new(),
            guid: None,
        };
        proof {
            assert(value.funding.deep_view() =~= Seq::empty());
            assert(value.persons.deep_view() =~= Seq::empty());
        }
        value
    }
}

/// A picture that stands for an entry.
#[derive(Debug, Clone)]
pub struct MediaThumbnail {
    /// Where the picture is.
    pub url: String,
    /// Width in pixels.
    pub width: Option<u32>,
    /// Height in pixels.
    pub height: Option<u32>,
}

/// The mathematical value of a [`MediaThumbnail`].
pub struct MediaThumbnailView {
    pub url: Seq<char>,
    pub width: Option<u32>,
    pub height: Option<u32>,
}

impl DeepView for MediaThumbnail {
    type V = MediaThumbnailView;

    open spec fn deep_view(&self) -> MediaThumbnailView {
        MediaThumbnailView {
            url: self.url@,
            width: self.width,
            height: self.height,
        }
    }
}

/// A media file of an entry.
#[derive(Debug, Clone)]
pub struct MediaContent {
    /// Where the file is.
    pub url: String,
    /// MIME type of the file.
    pub content_type: Option<String>,
    /// Size of the file in bytes.
    pub filesize: Option<u64>,
    /// Width in pixels.
    pub width: Option<u32>,
    /// Height in pixels.
    pub height: Option<u32>,
    /// Playing time in seconds.
    pub duration: Option<u32>,
}

/// The mathematical value of a [`MediaContent`].
pub struct MediaContentView {
    pub url: Seq<char>,
    pub content_type: Option<Seq<char>>,
    pub filesize: Option<u64>,
    pub width: Option<u32>,
    pub height: Option<u32>,
    pub duration: Option<u32>,
}

impl DeepView for MediaContent {
    type V = MediaContentView;

    open spec fn deep_view(&self) -> MediaContentView {
        MediaContentView {
            url: self.url@,
            content_type: self.content_type.deep_view(),
            filesize: self.filesize,
            width: self.width,
            height: self.height,
            duration: self.duration,
        }
    }
}

/// The shapes a location can have.
#[derive(Debug, Clone, Copy, PartialEq, Eq, Structural)]
pub enum GeoKind {
    /// One point.
    Point,
    /// A line through two points or more.
    Line,
    /// An area with three corners or more.
    Polygon,
    /// A rectangle, given by two opposite corners.
    Box,
}

/// A point on the globe, in millionths of a degree.
#[derive(Debug, Clone, Copy, PartialEq, Eq, Structural)]
pub struct GeoPoint {
    /// Latitude: positive to the north.
    pub latitude: i64,
    /// Longitude: positive to the east.
    pub longitude: i64,
}

/// Where a feed or an entry is about.
#[derive(Debug, Clone)]
pub struct GeoLocation {
    /// The shape.
    pub geo_type: GeoKind,
    /// The points of the shape, in the order they are written.
    pub coordinates: Vec<GeoPoint>,
}

/// The mathematical value of a [`GeoLocation`].
pub struct GeoLocationView {
    pub geo_type: GeoKind,
    pub coordinates: Seq<GeoPoint>,
}

impl DeepView for GeoLocation {
    type V = GeoLocationView;

    open spec fn deep_view(&self) -> GeoLocationView {
        GeoLocationView {
            geo_type: self.geo_type,
            coordinates: self.coordinates@,
        }
    }
}

} // verus!
