use stream_prism::model::{MediaFeed, MediaItem};
use stream_prism::provider::classify_provider_status;
use stream_prism::routes::{feed_response, feed_response_at, host_uri, required_url, resolve_response, FeedFormat, GatewayResponse};

fn feed() -> MediaFeed {
    MediaFeed {
        id: "c".to_string(),
        title: "T".to_string(),
        description: Some("D".to_string()),
        author: None,
        link: "https://l".to_string(),
        cover_url: None,
        items: vec![MediaItem {
            id: "i".to_string(),
            title: "Ep".to_string(),
            description: None,
            pub_date: 0,
            duration: Some(7),
            original_url: "https://v/1".to_string(),
            thumbnail_url: None,
        }],
    }
}

#[test]
fn url_parameter_is_trimmed() {
    assert_eq!(required_url(Some("  https://a.b/c \t")).unwrap(), "https://a.b/c");
}

#[test]
fn host_uri_variants() {
    assert_eq!(host_uri(None, false), "http://localhost:8080");
    assert_eq!(host_uri(Some("gw.example:9000"), false), "http://gw.example:9000");
    assert_eq!(host_uri(Some("gw.example"), true), "https://gw.example");
}

#[test]
fn m3u_feed_response() {
    match feed_response(FeedFormat::M3u, Ok(feed()), Some("gw"), true) {
        GatewayResponse::Text { status, content_type, body } => {
            assert_eq!(status, 200);
            assert_eq!(content_type, "audio/x-mpegurl; charset=utf-8");
            assert_eq!(body, "#EXTM3U\n#EXTINF:7,Ep\nhttps://gw/resolve?url=https%3A%2F%2Fv%2F1\n");
        },
        other => panic!("unexpected {:?}", other),
    }
}

#[test]
fn rss_feed_response() {
    match feed_response(FeedFormat::Rss, Ok(feed()), None, false) {
        GatewayResponse::Text { status, content_type, body } => {
            assert_eq!(status, 200);
            assert_eq!(content_type, "application/xml; charset=utf-8");
            assert!(body.contains("<description>D</description>"));
            assert!(body.contains("http://localhost:8080/resolve?url=https%3A%2F%2Fv%2F1"));
        },
        other => panic!("unexpected {:?}", other),
    }
}

#[test]
fn failed_fetch_is_server_error() {
    match feed_response(FeedFormat::Rss, Err("No provider found matching URL: x".to_string()), None, false) {
        GatewayResponse::Text { status, body, .. } => {
            assert_eq!(status, 500);
            assert_eq!(body, "Failed to retrieve media feed: No provider found matching URL: x");
        },
        other => panic!("unexpected {:?}", other),
    }
}

#[test]
fn resolve_answers() {
    match resolve_response(Ok(" https://cdn/x.mp4\n".to_string()), Some("json")) {
        GatewayResponse::StreamUrlJson { url } => assert_eq!(url, "https://cdn/x.mp4"),
        other => panic!("unexpected {:?}", other),
    }
    match resolve_response(Ok("https://cdn/x.mp4".to_string()), Some("xml")) {
        GatewayResponse::Redirect { location } => assert_eq!(location, "https://cdn/x.mp4"),
        other => panic!("unexpected {:?}", other),
    }
    match resolve_response(Ok("https://cdn/x.mp4".to_string()), None) {
        GatewayResponse::Redirect { location } => assert_eq!(location, "https://cdn/x.mp4"),
        other => panic!("unexpected {:?}", other),
    }
    match resolve_response(Err("boom".to_string()), Some("json")) {
        GatewayResponse::Text { status, body, .. } => {
            assert_eq!(status, 500);
            assert_eq!(body, "Failed to resolve dynamic stream: boom");
        },
        other => panic!("unexpected {:?}", other),
    }
}

#[test]
fn provider_status_messages() {
    assert!(classify_provider_status(200).is_ok());
    assert!(classify_provider_status(204).is_ok());
    assert_eq!(classify_provider_status(404).unwrap_err(), "ProviderError: HTTP 404 Not Found");
    assert_eq!(classify_provider_status(302).unwrap_err(), "ProviderError: HTTP 302 Found");
    assert_eq!(classify_provider_status(599).unwrap_err(), "ProviderError: HTTP 599 <unknown status code>");
}

#[test]
fn rss_feed_response_at_clock_readings() {
    match feed_response_at(FeedFormat::Rss, Ok(feed()), Some("gw"), false, Some(86400)) {
        GatewayResponse::Text { status, content_type, body } => {
            assert_eq!(status, 200);
            assert_eq!(content_type, "application/xml; charset=utf-8");
            assert!(body.contains("<pubDate>Fri, 2 Jan 1970 00:00:00 +0000</pubDate>"));
        },
        other => panic!("unexpected {:?}", other),
    }
    match feed_response_at(FeedFormat::Rss, Ok(feed()), Some("gw"), false, Some(253402300800)) {
        GatewayResponse::Text { status, body, .. } => {
            assert_eq!(status, 422);
            assert_eq!(body, "Serialization failed: date cannot be represented by RFC 2822");
        },
        other => panic!("unexpected {:?}", other),
    }
    match feed_response_at(FeedFormat::Rss, Ok(feed()), Some("gw"), false, None) {
        GatewayResponse::Text { status, body, .. } => {
            assert_eq!(status, 422);
            assert_eq!(body, "Serialization failed: system time before Unix epoch");
        },
        other => panic!("unexpected {:?}", other),
    }
}

#[test]
fn rss_dated_feed_needs_no_clock() {
    let mut f = feed();
    f.items[0].pub_date = 1700000000;
    match feed_response_at(FeedFormat::Rss, Ok(f), None, false, None) {
        GatewayResponse::Text { status, body, .. } => {
            assert_eq!(status, 200);
            assert!(body.contains("<pubDate>Tue, 14 Nov 2023 22:13:20 +0000</pubDate>"));
        },
        other => panic!("unexpected {:?}", other),
    }
}
