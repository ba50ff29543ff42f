use podcast_sync::error::AppError;
use podcast_sync::feed::{available_media, fetch_url, parse_rss, parse_rss_with_quality};

const FEED: &str = r#"<?xml version="1.0" encoding="UTF-8"?>
<rss version="2.0" xmlns:itunes="http://www.itunes.com/dtds/podcast-1.0.dtd" xmlns:media="http://search.yahoo.com/mrss/">
<channel>
<title>Show Title</title>
<link>https://example.com</link>
<description>About the show</description>
<item>
  <title>First</title>
  <guid>guid-1</guid>
  <pubDate>Tue, 02 Jan 2024 10:00:00 +0000</pubDate>
  <itunes:duration>29:45</itunes:duration>
  <itunes:author>Host</itunes:author>
  <enclosure url="https://cdn.example.com/first.mp3" length="1234" type="audio/mpeg"/>
  <media:group>
    <media:content url="https://cdn.example.com/first-std.mp3" type="audio/mpeg" fileSize="999">
      <media:title>Version standard</media:title>
    </media:content>
    <media:content url="https://cdn.example.com/first-raw.flac" type="audio/flac" fileSize="5000">
      <media:title>Version BRUTE</media:title>
    </media:content>
  </media:group>
</item>
<item>
  <link>https://example.com/second</link>
  <enclosure url="https://cdn.example.com/second.m4a" length="oops" type="audio/mp4"/>
</item>
<item>
  <title>Third</title>
  <pubDate>not a date</pubDate>
</item>
</channel>
</rss>"#;

#[test]
fn parses_items_with_quality_choice() {
    let feed = parse_rss_with_quality(FEED, "flac").unwrap();
    assert_eq!(feed.title, "Show Title");
    assert_eq!(feed.description.as_deref(), Some("About the show"));
    assert_eq!(feed.items.len(), 3);
    let first = &feed.items[0];
    assert_eq!(first.guid, "guid-1");
    assert_eq!(first.title, "First");
    assert_eq!(first.pub_date, Some(1704189600));
    assert_eq!(first.duration, Some(1785));
    assert_eq!(first.author.as_deref(), Some("Host"));
    let enc = first.enclosure.as_ref().unwrap();
    assert_eq!(enc.url, "https://cdn.example.com/first-raw.flac");
    assert_eq!(enc.length, Some(5000));
}

#[test]
fn best_available_prefers_flac_over_mp3_variant() {
    let feed = parse_rss(FEED).unwrap();
    let enc = feed.items[0].enclosure.as_ref().unwrap();
    assert_eq!(enc.url, "https://cdn.example.com/first-raw.flac");
    let feed = parse_rss_with_quality(FEED, "mp3").unwrap();
    let enc = feed.items[0].enclosure.as_ref().unwrap();
    assert_eq!(enc.url, "https://cdn.example.com/first-std.mp3");
    assert_eq!(enc.mime_type.as_deref(), Some("audio/mpeg"));
}

#[test]
fn guid_falls_back_to_link_then_title_and_date() {
    let feed = parse_rss(FEED).unwrap();
    assert_eq!(feed.items[1].guid, "https://example.com/second");
    assert_eq!(feed.items[1].title, "Untitled");
    assert_eq!(feed.items[2].guid, "Third_not a date");
    assert_eq!(feed.items[2].pub_date, None);
    assert!(feed.items[2].enclosure.is_none());
}

#[test]
fn plain_enclosure_is_used_without_variants() {
    let feed = parse_rss_with_quality(FEED, "original").unwrap();
    let enc = feed.items[1].enclosure.as_ref().unwrap();
    assert_eq!(enc.url, "https://cdn.example.com/second.m4a");
    assert_eq!(enc.mime_type.as_deref(), Some("audio/mp4"));
    assert_eq!(enc.length, None);
}

#[test]
fn malformed_document_is_a_parsing_error() {
    match parse_rss("<rss><channel>") {
        Err(AppError::RssParsing(_)) => {}
        other => panic!("unexpected: {:?}", other.map(|f| f.title)),
    }
    let e = AppError::NotFound("x".to_string());
    assert_eq!(e.message(), "Not found: x");
    assert_eq!(AppError::DownloadCancelled.message(), "Download cancelled");
}

#[test]
fn fetch_url_adds_limit() {
    assert_eq!(fetch_url("https://a/feed", None), "https://a/feed");
    assert_eq!(fetch_url("https://a/feed", Some(1)), "https://a/feed?limit=1");
    assert_eq!(fetch_url("https://a/feed?x=2", Some(10)), "https://a/feed?x=2&limit=10");
    assert_eq!(fetch_url("https://a/f", Some(-3)), "https://a/f?limit=-3");
}

#[test]
fn available_media_lists_every_variant() {
    let m = available_media(FEED, "guid-1").unwrap();
    assert_eq!(m.standard_url.as_deref(), Some("https://cdn.example.com/first.mp3"));
    assert_eq!(m.original_url, None);
    assert_eq!(m.flac_url.as_deref(), Some("https://cdn.example.com/first-raw.flac"));
    assert_eq!(m.mp3_url.as_deref(), Some("https://cdn.example.com/first-std.mp3"));
    match available_media(FEED, "https://example.com/second") {
        Err(AppError::NotFound(msg)) => {
            assert_eq!(msg, "Episode with GUID 'https://example.com/second' not found in RSS")
        }
        _ => panic!("an item found only by its link does not count"),
    }
}

#[test]
fn every_error_has_its_text() {
    let m = |s: &str| s.to_string();
    assert_eq!(AppError::Database(m("locked")).message(), "Database error: locked");
    assert_eq!(AppError::Migration(m("v2")).message(), "Migration error: v2");
    assert_eq!(AppError::Http(m("timeout")).message(), "HTTP error: timeout");
    assert_eq!(AppError::RssParsing(m("eof")).message(), "RSS parsing error: eof");
    assert_eq!(AppError::Io(m("denied")).message(), "IO error: denied");
    assert_eq!(AppError::InvalidInput(m("url")).message(), "Invalid input: url");
    assert_eq!(AppError::Other(m("plain")).message(), "plain");
}

#[test]
fn thumbnail_is_the_fallback_image() {
    let xml = r#"<?xml version="1.0"?>
<rss version="2.0" xmlns:media="http://search.yahoo.com/mrss/"><channel><title>T</title><link>l</link><description>d</description>
<item><title>A</title><guid>a</guid>
<media:thumbnail url="https://img.example.com/a.jpg"/>
<media:group><media:content url="https://x/a-original.wav"/></media:group>
</item></channel></rss>"#;
    let feed = parse_rss_with_quality(xml, "mp3").unwrap();
    assert_eq!(feed.items[0].image_url.as_deref(), Some("https://img.example.com/a.jpg"));
    let enc = feed.items[0].enclosure.as_ref().unwrap();
    assert_eq!(enc.url, "https://x/a-original.wav");
    assert_eq!(enc.mime_type, None);
}
