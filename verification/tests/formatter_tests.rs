use chrono::TimeZone;
use stream_prism::formatter::m3u::M3uFormatter;
use stream_prism::formatter::rss::{format_rfc2822, render_rss, rss_channel, RssFormatter};
use stream_prism::formatter::Formatter;
use stream_prism::model::{MediaFeed, MediaItem};

fn item(id: &str, title: &str, url: &str, pub_date: u64, duration: Option<u32>) -> MediaItem {
    MediaItem {
        id: id.to_string(),
        title: title.to_string(),
        description: None,
        pub_date,
        duration,
        original_url: url.to_string(),
        thumbnail_url: None,
    }
}

fn feed(items: Vec<MediaItem>) -> MediaFeed {
    MediaFeed {
        id: "chan".to_string(),
        title: "My Channel".to_string(),
        description: None,
        author: None,
        link: "https://youtube.com/c".to_string(),
        cover_url: Some("https://img/cover.jpg".to_string()),
        items,
    }
}

#[test]
fn m3u_playlist_lines() {
    let f = feed(vec![
        item("a", "First", "https://youtube.com/watch?v=a b", 0, Some(360)),
        item("b", "Zweite Folge ü", "https://x.y/ü~-._", 0, None),
    ]);
    let out = M3uFormatter.format(&f, "http://localhost:8080").unwrap();
    assert_eq!(
        out,
        "#EXTM3U\n#EXTINF:360,First\nhttp://localhost:8080/resolve?url=https%3A%2F%2Fyoutube.com%2Fwatch%3Fv%3Da%20b\n#EXTINF:0,Zweite Folge ü\nhttp://localhost:8080/resolve?url=https%3A%2F%2Fx.y%2F%C3%BC~-._\n"
    );
}

#[test]
fn m3u_empty_feed() {
    assert_eq!(M3uFormatter.format(&feed(vec![]), "http://h").unwrap(), "#EXTM3U\n");
}

#[test]
fn rfc2822_dates() {
    assert_eq!(format_rfc2822(1700000000, 0), "Tue, 14 Nov 2023 22:13:20 +0000");
    assert_eq!(format_rfc2822(253402300799, 0), "Fri, 31 Dec 9999 23:59:59 +0000");
    // u64 values above i64::MAX are read as negative seconds, as `as i64` does
    assert_eq!(format_rfc2822((-62167219200i64) as u64, 0), "Sat, 1 Jan 0000 00:00:00 +0000");
}

#[test]
fn rfc2822_unknown_date_uses_clock() {
    // 0 stands for an unknown date: the clock reading is written
    assert_eq!(format_rfc2822(0, 1700000000), "Tue, 14 Nov 2023 22:13:20 +0000");
    assert_eq!(format_rfc2822(0, 0), "Thu, 1 Jan 1970 00:00:00 +0000");
    // outside what chrono represents: the clock reading is written too
    assert_eq!(format_rfc2822(8210266876800, 1700000000), "Tue, 14 Nov 2023 22:13:20 +0000");
    // a known date does not depend on the clock
    assert_eq!(format_rfc2822(1700000000, 86400), format_rfc2822(1700000000, 0));
}

#[test]
fn chrono_range_bounds() {
    assert!(matches!(chrono::Utc.timestamp_opt(8210266876799, 0), chrono::LocalResult::Single(_)));
    assert!(matches!(chrono::Utc.timestamp_opt(8210266876800, 0), chrono::LocalResult::None));
    assert!(matches!(chrono::Utc.timestamp_opt(-8334601228800, 0), chrono::LocalResult::Single(_)));
    assert!(matches!(chrono::Utc.timestamp_opt(-8334601228801, 0), chrono::LocalResult::None));
}

#[test]
fn rss_channel_model() {
    let mut f = feed(vec![item("vid", "Episode", "https://youtube.com/watch?v=x", 1700000000, Some(5))]);
    f.items[0].description = Some("About it".to_string());
    let c = rss_channel(&f, "https://gw.example", 0);
    assert_eq!(c.title, "My Channel");
    assert_eq!(c.description, "Dynamic Podcast feed for My Channel");
    let image = c.image.as_ref().unwrap();
    assert_eq!(image.url, "https://img/cover.jpg");
    assert_eq!(image.link, "https://youtube.com/c");
    assert_eq!(c.items.len(), 1);
    let e = &c.items[0];
    assert_eq!(e.title.as_deref(), Some("Episode"));
    assert_eq!(e.description.as_deref(), Some("About it"));
    assert_eq!(e.enclosure_url, "https://gw.example/resolve?url=https%3A%2F%2Fyoutube.com%2Fwatch%3Fv%3Dx");
    assert_eq!(e.enclosure_type, "video/mp4");
    assert_eq!(e.enclosure_length, "0");
    assert_eq!(e.guid, "vid");
    assert!(!e.guid_is_permalink);
    assert_eq!(e.pub_date.as_deref(), Some("Tue, 14 Nov 2023 22:13:20 +0000"));
}

#[test]
fn rss_document() {
    let f = feed(vec![item("vid", "Episode", "https://youtube.com/watch?v=x", 1700000000, None)]);
    let xml = RssFormatter.format(&f, "http://h").unwrap();
    assert!(xml.contains("<rss"), "{}", xml);
    assert!(xml.contains("<title>My Channel</title>"));
    assert!(xml.contains("<description>Dynamic Podcast feed for My Channel</description>"));
    assert!(xml.contains("<url>https://img/cover.jpg</url>"));
    assert!(xml.contains("<enclosure url=\"http://h/resolve?url=https%3A%2F%2Fyoutube.com%2Fwatch%3Fv%3Dx\" length=\"0\" type=\"video/mp4\"/>"));
    assert!(xml.contains("<guid isPermaLink=\"false\">vid</guid>"));
    assert!(xml.contains("<pubDate>Tue, 14 Nov 2023 22:13:20 +0000</pubDate>"));
}

#[test]
fn rss_channel_unknown_date_takes_clock() {
    let f = feed(vec![item("vid", "Episode", "https://youtube.com/watch?v=x", 0, None)]);
    let c = rss_channel(&f, "http://h", 86400);
    assert_eq!(c.items[0].pub_date.as_deref(), Some("Fri, 2 Jan 1970 00:00:00 +0000"));
    assert_eq!(c.image.as_ref().unwrap().title, "My Channel");
}

#[test]
fn rss_document_unknown_date_is_written() {
    let f = feed(vec![item("vid", "Episode", "https://youtube.com/watch?v=x", 0, None)]);
    let xml = RssFormatter.format(&f, "http://h").unwrap();
    assert!(xml.contains("<pubDate>"));
    assert!(xml.contains("+0000</pubDate>"));
}

#[test]
fn render_rss_by_clock_reading() {
    let undated = feed(vec![item("vid", "Episode", "https://youtube.com/watch?v=x", 0, None)]);
    let xml = render_rss(&undated, "http://h", Some(1700000000)).unwrap();
    assert!(xml.contains("<pubDate>Tue, 14 Nov 2023 22:13:20 +0000</pubDate>"));
    let xml = render_rss(&undated, "http://h", Some(253402300799)).unwrap();
    assert!(xml.contains("<pubDate>Fri, 31 Dec 9999 23:59:59 +0000</pubDate>"));
    assert_eq!(render_rss(&undated, "http://h", Some(253402300800)).unwrap_err(), "date cannot be represented by RFC 2822");
    assert_eq!(render_rss(&undated, "http://h", None).unwrap_err(), "system time before Unix epoch");
    let dated = feed(vec![item("vid", "Episode", "https://youtube.com/watch?v=x", 1700000000, None)]);
    assert!(render_rss(&dated, "http://h", None).is_ok());
    assert!(render_rss(&dated, "http://h", Some(u64::MAX)).is_ok());
    assert_eq!(render_rss(&dated, "http://h", None).unwrap(), RssFormatter.format(&dated, "http://h").unwrap());
}
