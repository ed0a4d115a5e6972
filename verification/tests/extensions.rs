use feedparser_rs_core::parser::values::{
    parse_duration, parse_explicit, parse_location, parse_millionths, parse_yes, split_list,
};
use feedparser_rs_core::{parse, GeoKind, GeoPoint, ParserLimits, Timestamp};

const PODCAST: &str = r#"<?xml version="1.0" encoding="UTF-8"?>
<rss version="2.0"
     xmlns:atom="http://www.w3.org/2005/Atom"
     xmlns:content="http://purl.org/rss/1.0/modules/content/"
     xmlns:dc="http://purl.org/dc/elements/1.1/"
     xmlns:sy="http://purl.org/rss/1.0/modules/syndication/"
     xmlns:itunes="http://www.itunes.com/dtds/podcast-1.0.dtd"
     xmlns:podcast="https://podcastindex.org/namespace/1.0"
     xmlns:media="http://search.yahoo.com/mrss/"
     xmlns:georss="http://www.georss.org/georss">
  <channel>
    <title>Show</title>
    <link>https://show.example/</link>
    <atom:link href="https://show.example/feed.xml" rel="self" type="application/rss+xml"/>
    <dc:creator>Creator</dc:creator>
    <dc:publisher>Publisher</dc:publisher>
    <dc:rights>CC-BY</dc:rights>
    <dc:date>2024-12-14T10:30:00Z</dc:date>
    <sy:updatePeriod>hourly</sy:updatePeriod>
    <sy:updateFrequency>2</sy:updateFrequency>
    <sy:updateBase>2000-01-01T12:00+00:00</sy:updateBase>
    <itunes:author>Host</itunes:author>
    <itunes:explicit>Yes</itunes:explicit>
    <itunes:image href="https://show.example/art.jpg"/>
    <itunes:keywords> one, two ,, three </itunes:keywords>
    <itunes:type>episodic</itunes:type>
    <itunes:complete>no</itunes:complete>
    <itunes:new-feed-url>https://new.example/feed</itunes:new-feed-url>
    <itunes:owner><itunes:name>Owner</itunes:name><itunes:email>owner@show.example</itunes:email></itunes:owner>
    <itunes:category text="Technology"><itunes:category text="Podcasting"/></itunes:category>
    <itunes:category text="News"/>
    <itunes:category/>
    <podcast:funding url="https://show.example/donate">Support us</podcast:funding>
    <podcast:funding>no url</podcast:funding>
    <podcast:person role="host" img="https://show.example/h.png" href="https://h.example/">Host Name</podcast:person>
    <podcast:guid>917393e3-1b1e-5cef-ace4-edaa54e1f810</podcast:guid>
    <georss:box>42.943 -71.032 43.039 -69.856</georss:box>
    <item>
      <title>Episode</title>
      <link>https://show.example/1</link>
      <atom:link href="https://ignored.example/"/>
      <description>Short</description>
      <content:encoded><![CDATA[<p>Long</p>]]></content:encoded>
      <dc:creator>Writer</dc:creator>
      <dc:date>2024-12-13T09:00:00Z</dc:date>
      <dc:subject>Tech</dc:subject>
      <dc:subject>News</dc:subject>
      <dc:rights>All</dc:rights>
      <itunes:title>Clean title</itunes:title>
      <itunes:author>Guest</itunes:author>
      <itunes:duration>1:02:03</itunes:duration>
      <itunes:explicit>clean</itunes:explicit>
      <itunes:image href="https://show.example/e1.jpg"/>
      <itunes:episode>7</itunes:episode>
      <itunes:season>2</itunes:season>
      <itunes:episodeType>full</itunes:episodeType>
      <podcast:transcript url="https://show.example/1.vtt" type="text/vtt" language="en" rel="captions"/>
      <podcast:transcript type="text/plain"/>
      <podcast:person role="guest">Guest Name</podcast:person>
      <media:thumbnail url="https://show.example/t.jpg" width="120" height="90"/>
      <media:content url="https://show.example/1.mp4" type="video/mp4" fileSize="1000" width="640" height="480" duration="3723"/>
      <media:content type="video/mp4"/>
      <georss:point>45.256 -71.92</georss:point>
    </item>
    <item>
      <title>Plain</title>
      <author>named@show.example</author>
      <pubDate>Sat, 14 Dec 2024 10:30:00 +0000</pubDate>
      <dc:creator>Other</dc:creator>
      <dc:date>never</dc:date>
      <georss:point>91 0</georss:point>
    </item>
  </channel>
</rss>"#;

#[test]
fn a_feed_takes_in_what_extension_elements_say() {
    let feed = parse(PODCAST.as_bytes()).unwrap();
    let meta = &feed.feed;
    assert_eq!(meta.title.as_deref(), Some("Show"));
    // The atom:link does not stand in for the link of the channel.
    assert_eq!(meta.link.as_deref(), Some("https://show.example/"));
    assert_eq!(meta.links.len(), 2);
    assert_eq!(meta.links[1].href, "https://show.example/feed.xml");
    assert_eq!(meta.links[1].rel.as_deref(), Some("self"));
    assert_eq!(meta.links[1].link_type.as_deref(), Some("application/rss+xml"));
    assert_eq!(meta.dc_creator.as_deref(), Some("Creator"));
    assert_eq!(meta.author.as_deref(), Some("Creator"));
    assert_eq!(meta.dc_publisher.as_deref(), Some("Publisher"));
    assert_eq!(meta.publisher.as_deref(), Some("Publisher"));
    assert_eq!(meta.dc_rights.as_deref(), Some("CC-BY"));
    assert_eq!(meta.rights.as_deref(), Some("CC-BY"));
    assert_eq!(meta.updated, Some(Timestamp { seconds: 1734172200, nanos: 0 }));
    let syndication = meta.syndication.as_ref().unwrap();
    assert_eq!(syndication.update_period.as_deref(), Some("hourly"));
    assert_eq!(syndication.update_frequency, Some(2));
    assert_eq!(syndication.update_base.as_deref(), Some("2000-01-01T12:00+00:00"));
    let itunes = meta.itunes.as_ref().unwrap();
    assert_eq!(itunes.author.as_deref(), Some("Host"));
    assert_eq!(itunes.explicit, Some(true));
    assert_eq!(itunes.image.as_deref(), Some("https://show.example/art.jpg"));
    assert_eq!(itunes.keywords, vec!["one", "two", "three"]);
    assert_eq!(itunes.podcast_type.as_deref(), Some("episodic"));
    assert_eq!(itunes.complete, Some(false));
    assert_eq!(itunes.new_feed_url.as_deref(), Some("https://new.example/feed"));
    let owner = itunes.owner.as_ref().unwrap();
    assert_eq!(owner.name.as_deref(), Some("Owner"));
    assert_eq!(owner.email.as_deref(), Some("owner@show.example"));
    assert_eq!(itunes.categories.len(), 2);
    assert_eq!(itunes.categories[0].text, "Technology");
    assert_eq!(itunes.categories[0].subcategory.as_deref(), Some("Podcasting"));
    assert_eq!(itunes.categories[1].text, "News");
    assert_eq!(itunes.categories[1].subcategory, None);
    let podcast = meta.podcast.as_ref().unwrap();
    assert_eq!(podcast.funding.len(), 1);
    assert_eq!(podcast.funding[0].url, "https://show.example/donate");
    assert_eq!(podcast.funding[0].message.as_deref(), Some("Support us"));
    assert_eq!(podcast.persons.len(), 1);
    assert_eq!(podcast.persons[0].name, "Host Name");
    assert_eq!(podcast.persons[0].role.as_deref(), Some("host"));
    assert_eq!(podcast.persons[0].img.as_deref(), Some("https://show.example/h.png"));
    assert_eq!(podcast.persons[0].href.as_deref(), Some("https://h.example/"));
    assert_eq!(podcast.guid.as_deref(), Some("917393e3-1b1e-5cef-ace4-edaa54e1f810"));
    let geo = meta.geo.as_ref().unwrap();
    assert_eq!(geo.geo_type, GeoKind::Box);
    assert_eq!(
        geo.coordinates,
        vec![
            GeoPoint { latitude: 42_943_000, longitude: -71_032_000 },
            GeoPoint { latitude: 43_039_000, longitude: -69_856_000 },
        ]
    );
    assert_eq!(feed.namespaces.len(), 8);
}

#[test]
fn an_entry_takes_in_what_extension_elements_say() {
    let feed = parse(PODCAST.as_bytes()).unwrap();
    assert_eq!(feed.entries.len(), 2);
    let entry = &feed.entries[0];
    assert_eq!(entry.title.as_deref(), Some("Episode"));
    assert_eq!(entry.link.as_deref(), Some("https://show.example/1"));
    assert_eq!(entry.links.len(), 1);
    assert_eq!(entry.summary.as_deref(), Some("Short"));
    assert_eq!(entry.content.len(), 1);
    assert_eq!(entry.content[0].value, "<p>Long</p>");
    assert_eq!(entry.content[0].content_type.as_deref(), Some("text/html"));
    assert_eq!(entry.dc_creator.as_deref(), Some("Writer"));
    assert_eq!(entry.author.as_deref(), Some("Writer"));
    assert_eq!(entry.dc_date, Some(Timestamp { seconds: 1734080400, nanos: 0 }));
    assert_eq!(entry.published, entry.dc_date);
    assert_eq!(entry.dc_subject, vec!["Tech", "News"]);
    assert_eq!(entry.dc_rights.as_deref(), Some("All"));
    let itunes = entry.itunes.as_ref().unwrap();
    assert_eq!(itunes.title.as_deref(), Some("Clean title"));
    assert_eq!(itunes.author.as_deref(), Some("Guest"));
    assert_eq!(itunes.duration, Some(3723));
    assert_eq!(itunes.explicit, Some(false));
    assert_eq!(itunes.image.as_deref(), Some("https://show.example/e1.jpg"));
    assert_eq!(itunes.episode, Some(7));
    assert_eq!(itunes.season, Some(2));
    assert_eq!(itunes.episode_type.as_deref(), Some("full"));
    assert_eq!(entry.podcast_transcripts.len(), 1);
    assert_eq!(entry.podcast_transcripts[0].url, "https://show.example/1.vtt");
    assert_eq!(entry.podcast_transcripts[0].transcript_type.as_deref(), Some("text/vtt"));
    assert_eq!(entry.podcast_transcripts[0].language.as_deref(), Some("en"));
    assert_eq!(entry.podcast_transcripts[0].rel.as_deref(), Some("captions"));
    assert_eq!(entry.podcast_persons.len(), 1);
    assert_eq!(entry.podcast_persons[0].name, "Guest Name");
    assert_eq!(entry.media_thumbnails.len(), 1);
    assert_eq!(entry.media_thumbnails[0].url, "https://show.example/t.jpg");
    assert_eq!(entry.media_thumbnails[0].width, Some(120));
    assert_eq!(entry.media_thumbnails[0].height, Some(90));
    assert_eq!(entry.media_content.len(), 1);
    assert_eq!(entry.media_content[0].url, "https://show.example/1.mp4");
    assert_eq!(entry.media_content[0].content_type.as_deref(), Some("video/mp4"));
    assert_eq!(entry.media_content[0].filesize, Some(1000));
    assert_eq!(entry.media_content[0].width, Some(640));
    assert_eq!(entry.media_content[0].height, Some(480));
    assert_eq!(entry.media_content[0].duration, Some(3723));
    let geo = entry.geo.as_ref().unwrap();
    assert_eq!(geo.geo_type, GeoKind::Point);
    assert_eq!(
        geo.coordinates,
        vec![GeoPoint { latitude: 45_256_000, longitude: -71_920_000 }]
    );
}

#[test]
fn what_the_entry_says_itself_comes_before_dublin_core() {
    let feed = parse(PODCAST.as_bytes()).unwrap();
    let entry = &feed.entries[1];
    assert_eq!(entry.author.as_deref(), Some("named@show.example"));
    assert_eq!(entry.dc_creator.as_deref(), Some("Other"));
    assert_eq!(entry.published, Some(Timestamp { seconds: 1734172200, nanos: 0 }));
    assert_eq!(entry.dc_date, None);
    assert!(entry.geo.is_none());
    assert!(entry.itunes.is_none());
    assert!(feed.bozo);
    assert_eq!(feed.bozo_exception.as_deref(), Some("Invalid dc:date format"));
}

#[test]
fn extension_lists_keep_within_their_limits() {
    let limits = ParserLimits {
        max_tags: 1,
        max_enclosures: 0,
        max_authors: 0,
        max_links_per_feed: 1,
        ..ParserLimits::default()
    };
    let feed = feedparser_rs_core::parse_with_limits(PODCAST.as_bytes(), limits).unwrap();
    let itunes = feed.feed.itunes.as_ref().unwrap();
    assert_eq!(itunes.keywords, vec!["one"]);
    assert_eq!(itunes.categories.len(), 1);
    assert_eq!(feed.feed.links.len(), 1);
    let podcast = feed.feed.podcast.as_ref().unwrap();
    assert!(podcast.persons.is_empty());
    assert_eq!(podcast.funding.len(), 1);
    let entry = &feed.entries[0];
    assert_eq!(entry.dc_subject, vec!["Tech"]);
    assert!(entry.media_content.is_empty());
    assert!(entry.media_thumbnails.is_empty());
    assert!(entry.podcast_transcripts.is_empty());
    assert!(entry.podcast_persons.is_empty());
    assert!(feed.bozo);
}

#[test]
fn durations_are_read() {
    assert_eq!(parse_duration("0"), Some(0));
    assert_eq!(parse_duration("3723"), Some(3723));
    assert_eq!(parse_duration("62:03"), Some(3723));
    assert_eq!(parse_duration("1:02:03"), Some(3723));
    assert_eq!(parse_duration(" 01:02:03\n"), Some(3723));
    assert_eq!(parse_duration("00:00:59"), Some(59));
    assert_eq!(parse_duration("4294967295"), Some(u32::MAX));
    assert_eq!(parse_duration("4294967296"), None);
    assert_eq!(parse_duration("1193046:28:15"), Some(u32::MAX));
    assert_eq!(parse_duration("1193046:28:16"), None);
    for text in ["", ":", "1:", ":1", "1::2", "1:2:3:4", "+5", "-5", "1.5", "1: 2", "abc", "1h"] {
        assert_eq!(parse_duration(text), None, "{text:?}");
    }
}

#[test]
fn yes_and_no_are_read_in_any_case() {
    for text in ["yes", "YES", "Yes", " true ", "TRUE", "explicit", "Explicit"] {
        assert_eq!(parse_explicit(text), Some(true), "{text:?}");
    }
    for text in ["no", "No", "false", "FALSE\n", "clean", "CLEAN"] {
        assert_eq!(parse_explicit(text), Some(false), "{text:?}");
    }
    for text in ["", "y", "yess", "1", "0", "not", "ye s"] {
        assert_eq!(parse_explicit(text), None, "{text:?}");
    }
    assert_eq!(parse_yes("Yes"), Some(true));
    assert_eq!(parse_yes("false"), Some(false));
    assert_eq!(parse_yes("explicit"), None);
    assert_eq!(parse_yes("clean"), None);
}

#[test]
fn lists_are_taken_apart() {
    assert_eq!(split_list("a,b,c", 10), vec!["a", "b", "c"]);
    assert_eq!(split_list(" a , b b ,, \t, c ", 10), vec!["a", "b b", "c"]);
    assert_eq!(split_list("a,b,c", 2), vec!["a", "b"]);
    assert_eq!(split_list("a,b,c", 0), Vec::<String>::new());
    assert_eq!(split_list("", 10), Vec::<String>::new());
    assert_eq!(split_list(",,,", 10), Vec::<String>::new());
    assert_eq!(split_list("single", 10), vec!["single"]);
}

#[test]
fn numbers_are_read_in_millionths() {
    assert_eq!(parse_millionths(b"0"), Some(0));
    assert_eq!(parse_millionths(b"1"), Some(1_000_000));
    assert_eq!(parse_millionths(b"-1"), Some(-1_000_000));
    assert_eq!(parse_millionths(b"+1.5"), Some(1_500_000));
    assert_eq!(parse_millionths(b"45.256"), Some(45_256_000));
    assert_eq!(parse_millionths(b"-71.92"), Some(-71_920_000));
    assert_eq!(parse_millionths(b"0.000001"), Some(1));
    assert_eq!(parse_millionths(b"0.0000019"), Some(1));
    assert_eq!(parse_millionths(b"1."), Some(1_000_000));
    assert_eq!(parse_millionths(b"1000.999999"), Some(1_000_999_999));
    assert_eq!(parse_millionths(b"-0.5"), Some(-500_000));
    for text in [
        &b""[..], b"-", b"+", b".", b".5", b"1.2.3", b"1,5", b"1e3", b"1001", b"abc", b"1.5x",
        b"--1", b" 1",
    ] {
        assert_eq!(parse_millionths(text), None, "{:?}", String::from_utf8_lossy(text));
    }
}

#[test]
fn shapes_are_read_point_by_point() {
    let point = parse_location(GeoKind::Point, "45.256 -71.92", 10).unwrap();
    assert_eq!(point.geo_type, GeoKind::Point);
    assert_eq!(
        point.coordinates,
        vec![GeoPoint { latitude: 45_256_000, longitude: -71_920_000 }]
    );
    let line = parse_location(GeoKind::Line, "45 -110, 46 -109\n43.84 -109.86", 10).unwrap();
    assert_eq!(line.coordinates.len(), 3);
    assert_eq!(line.coordinates[2], GeoPoint { latitude: 43_840_000, longitude: -109_860_000 });
    assert!(parse_location(GeoKind::Polygon, "0 0 0 1 1 1 0 0", 10).is_some());
    assert!(parse_location(GeoKind::Box, "42.9 -71.0 43.0 -69.8", 10).is_some());
    assert!(parse_location(GeoKind::Point, "90 180", 10).is_some());
    assert!(parse_location(GeoKind::Point, "-90 -180", 10).is_some());

    // The wrong count of points for the shape
    assert!(parse_location(GeoKind::Point, "1 2 3 4", 10).is_none());
    assert!(parse_location(GeoKind::Line, "1 2", 10).is_none());
    assert!(parse_location(GeoKind::Polygon, "1 2 3 4", 10).is_none());
    assert!(parse_location(GeoKind::Box, "1 2 3 4 5 6", 10).is_none());
    // A number left over, something that is no number, a point off the globe
    assert!(parse_location(GeoKind::Point, "1 2 3", 10).is_none());
    assert!(parse_location(GeoKind::Point, "", 10).is_none());
    assert!(parse_location(GeoKind::Point, "north east", 10).is_none());
    assert!(parse_location(GeoKind::Point, "90.000001 0", 10).is_none());
    assert!(parse_location(GeoKind::Point, "0 180.000001", 10).is_none());
    assert!(parse_location(GeoKind::Point, "-91 0", 10).is_none());
    // More points than the limit
    assert!(parse_location(GeoKind::Line, "1 1 2 2 3 3", 3).is_some());
    assert!(parse_location(GeoKind::Line, "1 1 2 2 3 3", 2).is_none());
}

#[test]
fn atom_feeds_take_extensions_and_the_atom_prefix() {
    let xml = br#"<atom:feed xmlns:atom="http://www.w3.org/2005/Atom" xmlns:georss="http://www.georss.org/georss" xmlns:media="http://search.yahoo.com/mrss/">
        <atom:title>Prefixed</atom:title>
        <atom:entry>
            <atom:title>E</atom:title>
            <atom:author><atom:name>N</atom:name></atom:author>
            <georss:line>45 -110 46 -109</georss:line>
            <media:thumbnail url="http://t.example/t.png"/>
        </atom:entry>
    </atom:feed>"#;
    let feed = parse(xml).unwrap();
    assert_eq!(feed.version, feedparser_rs_core::FeedVersion::Atom10);
    assert!(!feed.bozo);
    assert_eq!(feed.feed.title.as_deref(), Some("Prefixed"));
    assert_eq!(feed.entries.len(), 1);
    let entry = &feed.entries[0];
    assert_eq!(entry.title.as_deref(), Some("E"));
    assert_eq!(entry.author.as_deref(), Some("N"));
    assert_eq!(entry.geo.as_ref().unwrap().geo_type, GeoKind::Line);
    assert_eq!(entry.media_thumbnails.len(), 1);
}
