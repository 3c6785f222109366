use stream_prism::config::{
    ActionConfig, Actions, Capabilities, FeedMapping, ItemMapping, ProviderManifest, ResponseMapping,
};
use stream_prism::json::{JsonNumber, JsonValue};
use stream_prism::mapper::{map_feed, map_stream, upload_date_to_seconds};

fn s(text: &str) -> String {
    text.to_string()
}

fn text(v: &str) -> JsonValue {
    JsonValue::String(v.to_string())
}

fn integer(n: u64) -> JsonValue {
    JsonValue::Number(JsonNumber::PosInt(n))
}

fn object(members: Vec<(&str, JsonValue)>) -> JsonValue {
    JsonValue::Object(members.into_iter().map(|(k, v)| (k.to_string(), v)).collect())
}

fn to_serde(v: &JsonValue) -> serde_json::Value {
    match v {
        JsonValue::Null => serde_json::Value::Null,
        JsonValue::Bool(b) => serde_json::Value::Bool(*b),
        JsonValue::Number(JsonNumber::PosInt(u)) => serde_json::Value::from(*u),
        JsonValue::Number(JsonNumber::NegInt(i)) => serde_json::Value::from(*i),
        JsonValue::Number(JsonNumber::Float(t)) => serde_json::from_str(t).unwrap(),
        JsonValue::String(s) => serde_json::Value::String(s.clone()),
        JsonValue::Array(a) => serde_json::Value::Array(a.iter().map(to_serde).collect()),
        JsonValue::Object(m) => serde_json::Value::Object(m.iter().map(|(k, v)| (k.clone(), to_serde(v))).collect()),
    }
}

fn action() -> ActionConfig {
    ActionConfig { path: s("/run"), method: s("POST"), headers: None, payload: object(vec![]) }
}

fn get_mock_manifest() -> ProviderManifest {
    ProviderManifest {
        id: s("mock-wrapper"),
        version: s("1.0.0"),
        description: None,
        endpoint: s("http://localhost:8080"),
        priority: 0,
        capabilities: Capabilities { url_patterns: vec![s(".*")] },
        actions: Actions { fetch_feed: action(), resolve_stream: action() },
        response_mapping: ResponseMapping {
            unpack_field: Some(s("$.stdout")),
            feed: FeedMapping {
                id: s("$.id"),
                title: s("$.title"),
                description: Some(s("$.description")),
                author: Some(s("$.uploader")),
                link: s("$.webpage_url"),
                cover_url: Some(s("$.thumbnails[0].url")),
                items_path: s("$.entries"),
            },
            item: ItemMapping {
                id: s("$.id"),
                title: s("$.title"),
                description: Some(s("$.description")),
                pub_date: s("$.timestamp"),
                duration: Some(s("$.duration")),
                original_url: s("$.webpage_url"),
                thumbnail_url: Some(s("$.thumbnail")),
            },
        },
    }
}

fn wrapper_response(stdout: String) -> JsonValue {
    object(vec![("exit_code", integer(0)), ("stdout", JsonValue::String(stdout)), ("stderr", text(""))])
}

#[test]
fn test_map_feed_success() {
    let manifest = get_mock_manifest();
    let yt_dlp_json = object(vec![
        ("id", text("my_channel")),
        ("title", text("My Great Channel")),
        ("description", text("Welcome to my channel")),
        ("uploader", text("Creator Name")),
        ("webpage_url", text("https://youtube.com/my_channel")),
        ("thumbnails", JsonValue::Array(vec![object(vec![("url", text("https://youtube.com/my_channel/cover.jpg"))])])),
        (
            "entries",
            JsonValue::Array(vec![object(vec![
                ("id", text("video_abc")),
                ("title", text("My Awesome Video")),
                ("description", text("This is video description")),
                ("timestamp", integer(1700000000)),
                ("duration", integer(360)),
                ("webpage_url", text("https://youtube.com/watch?v=video_abc")),
                ("thumbnail", text("https://youtube.com/video_abc.jpg")),
            ])]),
        ),
    ]);

    // Wrapper wraps stdout in string
    let raw_wrapper_response = wrapper_response(serde_json::to_string(&to_serde(&yt_dlp_json)).unwrap());

    let feed = map_feed(raw_wrapper_response, &manifest, "https://youtube.com/my_channel").unwrap();

    assert_eq!(feed.id, "my_channel");
    assert_eq!(feed.title, "My Great Channel");
    assert_eq!(feed.description, Some("Welcome to my channel".to_string()));
    assert_eq!(feed.author, Some("Creator Name".to_string()));
    assert_eq!(feed.items.len(), 1);

    let item = &feed.items[0];
    assert_eq!(item.id, "video_abc");
    assert_eq!(item.title, "My Awesome Video");
    assert_eq!(item.pub_date, 1700000000);
    assert_eq!(item.duration, Some(360));
    assert_eq!(item.original_url, "https://youtube.com/watch?v=video_abc");
    assert_eq!(item.thumbnail_url, Some("https://youtube.com/video_abc.jpg".to_string()));
}

#[test]
fn test_map_stream_raw_string() {
    let manifest = get_mock_manifest();
    let raw_wrapper_response = wrapper_response(s(" https://manifest.googlevideo.com/api/expire/... \n"));

    let stream_url = map_stream(raw_wrapper_response, &manifest).unwrap();
    assert_eq!(stream_url, "https://manifest.googlevideo.com/api/expire/...");
}

#[test]
fn map_feed_defaults_for_missing_item_fields() {
    let manifest = get_mock_manifest();
    let doc = object(vec![
        ("id", integer(42)),
        ("title", JsonValue::Bool(true)),
        (
            "entries",
            JsonValue::Array(vec![
                object(vec![("id", text("a")), ("timestamp", text("+17")), ("duration", integer(4294967297))]),
                object(vec![("title", text("no id, left out"))]),
                object(vec![("id", text("b")), ("timestamp", text("-5")), ("duration", text("x"))]),
            ]),
        ),
    ]);
    let raw = wrapper_response(serde_json::to_string(&to_serde(&doc)).unwrap());
    let feed = map_feed(raw, &manifest, "https://example.org/c").unwrap();
    assert_eq!(feed.id, "42");
    assert_eq!(feed.title, "true");
    assert_eq!(feed.description, None);
    assert_eq!(feed.link, "https://example.org/c");
    assert_eq!(feed.cover_url, None);
    assert_eq!(feed.items.len(), 2);
    assert_eq!(feed.items[0].id, "a");
    assert_eq!(feed.items[0].title, "Untitled Episode");
    assert_eq!(feed.items[0].pub_date, 17);
    // the duration is truncated to 32 bits, as `as u32` does
    assert_eq!(feed.items[0].duration, Some(1));
    assert_eq!(feed.items[0].original_url, "https://example.org/c");
    assert_eq!(feed.items[1].id, "b");
    assert_eq!(feed.items[1].pub_date, 0);
    assert_eq!(feed.items[1].duration, None);
}

#[test]
fn map_feed_reports_missing_id_and_title() {
    let manifest = get_mock_manifest();
    let raw = wrapper_response(s("{\"title\":\"t\"}"));
    let err = map_feed(raw, &manifest, "u").unwrap_err();
    assert_eq!(err, "MappingError: Failed to resolve feed 'id' using path '$.id'");
    let raw = wrapper_response(s("{\"id\":\"x\"}"));
    let err = map_feed(raw, &manifest, "u").unwrap_err();
    assert_eq!(err, "MappingError: Failed to resolve feed 'title' using path '$.title'");
}

#[test]
fn map_feed_without_items_array() {
    let mut manifest = get_mock_manifest();
    manifest.response_mapping.unpack_field = None;
    let raw = object(vec![("id", text("x")), ("title", text("t")), ("entries", text("not an array"))]);
    let feed = map_feed(raw, &manifest, "u").unwrap();
    assert!(feed.items.is_empty());
}

#[test]
fn map_stream_from_url_fields_and_error() {
    let mut manifest = get_mock_manifest();
    manifest.response_mapping.unpack_field = None;
    let direct = object(vec![("url", text("https://cdn/a.mp4"))]);
    assert_eq!(map_stream(direct, &manifest).unwrap(), "https://cdn/a.mp4");
    let nested = object(vec![("entries", JsonValue::Array(vec![object(vec![("url", text("https://cdn/b.mp4"))])]))]);
    assert_eq!(map_stream(nested, &manifest).unwrap(), "https://cdn/b.mp4");
    let nothing = object(vec![("other", integer(1))]);
    assert_eq!(
        map_stream(nothing, &manifest).unwrap_err(),
        "MappingError: Could not extract stream URL from JSON structure: Object {\"other\": Number(1)}"
    );
}

#[test]
fn map_stream_unpacked_json_string() {
    let manifest = get_mock_manifest();
    let raw = wrapper_response(s("\"https://cdn/c.mp4\""));
    assert_eq!(map_stream(raw, &manifest).unwrap(), "https://cdn/c.mp4");
}

#[test]
fn map_feed_pub_date_falls_back_to_upload_date() {
    let mut manifest = get_mock_manifest();
    manifest.response_mapping.unpack_field = None;
    let raw = object(vec![
        ("id", text("c")),
        ("title", text("T")),
        (
            "entries",
            JsonValue::Array(vec![
                object(vec![("id", text("v")), ("upload_date", text("20231114"))]),
                object(vec![("id", text("w")), ("timestamp", integer(5)), ("upload_date", text("20231114"))]),
                object(vec![("id", text("x")), ("upload_date", text("20230229"))]),
                object(vec![("id", text("y")), ("upload_date", integer(20231114))]),
            ]),
        ),
    ]);
    let feed = map_feed(raw, &manifest, "u").unwrap();
    assert_eq!(feed.items.len(), 4);
    assert_eq!(feed.items[0].pub_date, 1699920000);
    // a timestamp found by the mapping path wins
    assert_eq!(feed.items[1].pub_date, 5);
    // no such date
    assert_eq!(feed.items[2].pub_date, 0);
    // a number is read by its digits, as any scalar text is
    assert_eq!(feed.items[3].pub_date, 1699920000);
}

#[test]
fn upload_dates_to_midnight_utc() {
    assert_eq!(upload_date_to_seconds("19700101"), Some(0));
    assert_eq!(upload_date_to_seconds("20231114"), Some(1699920000));
    assert_eq!(upload_date_to_seconds("20240229"), Some(1709164800));
    assert_eq!(upload_date_to_seconds("99991231"), Some(253402214400));
    assert_eq!(upload_date_to_seconds("20230229"), None);
    assert_eq!(upload_date_to_seconds("20231301"), None);
    assert_eq!(upload_date_to_seconds("20231100"), None);
    assert_eq!(upload_date_to_seconds("19691231"), None);
    assert_eq!(upload_date_to_seconds("2023-11-14"), None);
    assert_eq!(upload_date_to_seconds("2023111"), None);
    assert_eq!(upload_date_to_seconds(""), None);
}
