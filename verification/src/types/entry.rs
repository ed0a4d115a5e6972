//! One entry of a feed.

use vstd::prelude::*;
use crate::types::common::{
    Content, ContentView, Enclosure, EnclosureView, Link, LinkView, Person, PersonView, Source,
    SourceView, Tag, TagView, TextConstruct, TextConstructView,
};
use crate::types::extensions::{
    GeoLocation, GeoLocationView, ItunesEntryMeta, ItunesEntryMetaView, MediaContent,
    MediaContentView, MediaThumbnail, MediaThumbnailView, PodcastPerson, PodcastPersonView,
    PodcastTranscript, PodcastTranscriptView,
};
use crate::util::date::Timestamp;

verus! {

/// An item of an RSS channel or an entry of an Atom feed.
#[derive(Debug, Clone)]
pub struct Entry {
    /// Identifier, unique within the feed.
    pub id: Option<String>,
    /// Title.
    pub title: Option<String>,
    /// Title with the way it is to be read.
    pub title_detail: Option<TextConstruct>,
    /// Main link.
    pub link: Option<String>,
    /// All links, in document order.
    pub links: Vec<Link>,
    /// Summary or description.
    pub summary: Option<String>,
    /// Summary with the way it is to be read.
    pub summary_detail: Option<TextConstruct>,
    /// Full content, block by block.
    pub content: Vec<Content>,
    /// When the entry was published.
    pub published: Option<Timestamp>,
    /// When the entry was last changed.
    pub updated: Option<Timestamp>,
    /// When the entry was created.
    pub created: Option<Timestamp>,
    /// When the entry ceases to be current.
    pub expired: Option<Timestamp>,
    /// Name of the main author.
    pub author: Option<String>,
    /// The main author.
    pub author_detail: Option<Person>,
    /// All authors.
    pub authors: Vec<Person>,
    /// Contributors.
    pub contributors: Vec<Person>,
    /// Name of the publisher.
    pub publisher: Option<String>,
    /// The publisher.
    pub publisher_detail: Option<Person>,
    /// Tags, in document order.
    pub tags: Vec<Tag>,
    /// Attached media files, in document order.
    pub enclosures: Vec<Enclosure>,
    /// Where comments on the entry are found.
    pub comments: Option<String>,
    /// The feed the entry was taken from.
    pub source: Option<Source>,
    /// Dublin Core: who made the entry.
    pub dc_creator: Option<String>,
    /// Dublin Core: the date of the entry.
    pub dc_date: Option<Timestamp>,
    /// Dublin Core: what the entry is about.
    pub dc_subject: Vec<String>,
    /// Dublin Core: the rights held in the entry.
    pub dc_rights: Option<String>,
    /// Media RSS: pictures that stand for the entry.
    pub media_thumbnails: Vec<MediaThumbnail>,
    /// Media RSS: media files of the entry.
    pub media_content: Vec<MediaContent>,
    /// Podcast 2.0: transcripts of the episode.
    pub podcast_transcripts: Vec<PodcastTranscript>,
    /// Podcast 2.0: people behind the episode.
    pub podcast_persons: Vec<PodcastPerson>,
    /// What the iTunes elements say about the episode.
    pub itunes: Option<ItunesEntryMeta>,
    /// GeoRSS: where the entry is about.
    pub geo: Option<GeoLocation>,
}

/// The mathematical value of an [`Entry`].
pub struct EntryView {
    pub id: Option<Seq<char>>,
    pub title: Option<Seq<char>>,
    pub title_detail: Option<TextConstructView>,
    pub link: Option<Seq<char>>,
    pub links: Seq<LinkView>,
    pub summary: Option<Seq<char>>,
    pub summary_detail: Option<TextConstructView>,
    pub content: Seq<ContentView>,
    pub published: Option<Timestamp>,
    pub updated: Option<Timestamp>,
    pub created: Option<Timestamp>,
    pub expired: Option<Timestamp>,
    pub author: Option<Seq<char>>,
    pub author_detail: Option<PersonView>,
    pub authors: Seq<PersonView>,
    pub contributors: Seq<PersonView>,
    pub publisher: Option<Seq<char>>,
    pub publisher_detail: Option<PersonView>,
    pub tags: Seq<TagView>,
    pub enclosures: Seq<EnclosureView>,
    pub comments: Option<Seq<char>>,
    pub source: Option<SourceView>,
    pub dc_creator: Option<Seq<char>>,
    pub dc_date: Option<Timestamp>,
    pub dc_subject: Seq<Seq<char>>,
    pub dc_rights: Option<Seq<char>>,
    pub media_thumbnails: Seq<MediaThumbnailView>,
    pub media_content: Seq<MediaContentView>,
    pub podcast_transcripts: Seq<PodcastTranscriptView>,
    pub podcast_persons: Seq<PodcastPersonView>,
    pub itunes: Option<ItunesEntryMetaView>,
    pub geo: Option<GeoLocationView>,
}

impl DeepView for Entry {
    type V = EntryView;

    open spec fn deep_view(&self) -> EntryView {
        EntryView {
            id: self.id.deep_view(),
            title: self.title.deep_view(),
            title_detail: self.title_detail.deep_view(),
            link: self.link.deep_view(),
            links: self.links.deep_view(),
            summary: self.summary.deep_view(),
            summary_detail: self.summary_detail.deep_view(),
            content: self.content.deep_view(),
            published: self.published,
            updated: self.updated,
            created: self.created,
            expired: self.expired,
            author: self.author.deep_view(),
            author_detail: self.author_detail.deep_view(),
            authors: self.authors.deep_view(),
            contributors: self.contributors.deep_view(),
            publisher: self.publisher.deep_view(),
            publisher_detail: self.publisher_detail.deep_view(),
            tags: self.tags.deep_view(),
            enclosures: self.enclosures.deep_view(),
            comments: self.comments.deep_view(),
            source: self.source.deep_view(),
            dc_creator: self.dc_creator.deep_view(),
            dc_date: self.dc_date,
            dc_subject: self.dc_subject.deep_view(),
            dc_rights: self.dc_rights.deep_view(),
            media_thumbnails: self.media_thumbnails.deep_view(),
            media_content: self.media_content.deep_view(),
            podcast_transcripts: self.podcast_transcripts.deep_view(),
            podcast_persons: self.podcast_persons.deep_view(),
            itunes: self.itunes.deep_view(),
            geo: self.geo.deep_view(),
        }
    }
}

impl EntryView {
    /// An entry of which nothing is known.
    pub open spec fn empty() -> EntryView {
        EntryView {
            id: None,
            title: None,
            title_detail: None,
            link: None,
            links: Seq::empty(),
            summary: None,
            summary_detail: None,
            content: Seq::empty(),
            published: None,
            updated: None,
            created: None,
            expired: None,
            author: None,
            author_detail: None,
            authors: Seq::empty(),
            contributors: Seq::empty(),
            publisher: None,
            publisher_detail: None,
            tags: Seq::empty(),
            enclosures: Seq::empty(),
            comments: None,
            source: None,
            dc_creator: None,
            dc_date: None,
            dc_subject: Seq::empty(),
            dc_rights: None,
            media_thumbnails: Seq::empty(),
            media_content: Seq::empty(),
            podcast_transcripts: Seq::empty(),
            podcast_persons: Seq::empty(),
            itunes: None,
            geo: None,
        }
    }
}

impl Default for Entry {
    fn default() -> (value: Entry)
        ensures
            value.deep_view() == EntryView::empty(),
    {
        let value = Entry {
            id: None,
            title: None,
            title_detail: None,
            link: None,
            links: Vec::new(),
            summary: None,
            summary_detail: None,
            content: Vec::new(),
            published: None,
            updated: None,
            created: None,
            expired: None,
            author: None,
            author_detail: None,
            authors: Vec::new(),
            contributors: Vec::new(),
            publisher: None,
            publisher_detail: None,
            tags: Vec::new(),
            enclosures: Vec::new(),
            comments: None,
            source: None,
            dc_creator: None,
            dc_date: None,
            dc_subject: Vec::new(),
            dc_rights: None,
            media_thumbnails: Vec::new(),
            media_content: Vec::new(),
            podcast_transcripts: Vec::new(),
            podcast_persons: Vec::new(),
            itunes: None,
            geo: None,
        };
        proof {
            assert(value.links.deep_view() =~= Seq::empty());
            assert(value.content.deep_view() =~= Seq::empty());
            assert(value.authors.deep_view() =~= Seq::empty());
            assert(value.contributors.deep_view() =~= Seq::empty());
            assert(value.tags.deep_view() =~= Seq::empty());
            assert(value.enclosures.deep_view() =~= Seq::empty());
            assert(value.dc_subject.deep_view() =~= Seq::empty());
            assert(value.media_thumbnails.deep_view() =~= Seq::empty());
            assert(value.media_content.deep_view() =~= Seq::empty());
            assert(value.podcast_transcripts.deep_view() =~= Seq::empty());
            assert(value.podcast_persons.deep_view() =~= Seq::empty());
        }
        value
    }
}

impl Entry {
    /// An empty entry with room for the lists an entry usually has.
    pub fn with_capacity() -> (entry: Entry)
        ensures
            entry.deep_view() == EntryView::empty(),
    {
        let mut entry = Entry::default();
        entry.links = Vec::with_capacity(2);
        entry.content = Vec::with_capacity(1);
        entry.authors = Vec::with_capacity(1);
        entry.contributors = Vec::with_capacity(0);
        entry.tags = Vec::with_capacity(3);
        entry.enclosures = Vec::with_capacity(1);
        proof {
            assert(entry.links.deep_view() =~= Seq::empty());
            assert(entry.content.deep_view() =~= Seq::empty());
            assert(entry.authors.deep_view() =~= Seq::empty());
            assert(entry.contributors.deep_view() =~= Seq::empty());
            assert(entry.tags.deep_view() =~= Seq::empty());
            assert(entry.enclosures.deep_view() =~= Seq::empty());
            assert(entry.dc_subject.deep_view() =~= Seq::empty());
            assert(entry.media_thumbnails.deep_view() =~= Seq::empty());
            assert(entry.media_content.deep_view() =~= Seq::empty());
            assert(entry.podcast_transcripts.deep_view() =~= Seq::empty());
            assert(entry.podcast_persons.deep_view() =~= Seq::empty());
        }
        entry
    }
}

} // verus!
