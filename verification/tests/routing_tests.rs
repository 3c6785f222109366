use stream_prism::config::{
    ActionConfig, Actions, Capabilities, FeedMapping, ItemMapping, ProviderManifest, ResponseMapping,
};
use stream_prism::json::{JsonNumber, JsonValue};
use stream_prism::provider::{ProviderAction, ProviderRegistry};
use stream_prism::routes::{required_url, resolve_response, GatewayResponse};

fn s(text: &str) -> String {
    text.to_string()
}

fn args(values: &[&str]) -> JsonValue {
    JsonValue::Object(vec![(s("args"), JsonValue::Array(values.iter().map(|v| JsonValue::String(s(v))).collect()))])
}

fn manifest(id: &str, priority: i32, patterns: &[&str], fetch: JsonValue, resolve: JsonValue) -> ProviderManifest {
    let feed = FeedMapping {
        id: s("$.id"),
        title: s("$.title"),
        description: Some(s("$.description")),
        author: Some(s("$.uploader")),
        link: s("$.webpage_url"),
        cover_url: Some(s("$.thumbnail")),
        items_path: s("$.entries"),
    };
    let item = ItemMapping {
        id: s("$.id"),
        title: s("$.title"),
        description: Some(s("$.description")),
        pub_date: s("$.timestamp"),
        duration: Some(s("$.duration")),
        original_url: s("$.url"),
        thumbnail_url: Some(s("$.thumbnail")),
    };
    ProviderManifest {
        id: s(id),
        version: s("1.0.0"),
        description: None,
        endpoint: s("http://localhost:8080"),
        priority,
        capabilities: Capabilities { url_patterns: patterns.iter().map(|p| s(p)).collect() },
        actions: Actions {
            fetch_feed: ActionConfig { path: s("/run"), method: s("POST"), headers: None, payload: fetch },
            resolve_stream: ActionConfig { path: s("/run"), method: s("POST"), headers: None, payload: resolve },
        },
        response_mapping: ResponseMapping { unpack_field: Some(s("$.stdout")), feed, item },
    }
}

fn to_serde(v: &JsonValue) -> serde_json::Value {
    match v {
        JsonValue::Null => serde_json::Value::Null,
        JsonValue::Bool(b) => serde_json::Value::Bool(*b),
        JsonValue::Number(JsonNumber::PosInt(u)) => serde_json::Value::from(*u),
        JsonValue::Number(JsonNumber::NegInt(i)) => serde_json::Value::from(*i),
        JsonValue::Number(JsonNumber::Float(t)) => serde_json::from_str(t).unwrap(),
        JsonValue::String(s) => serde_json::Value::String(s.clone()),
        JsonValue::Array(a) => serde_json::Value::Array(a.iter().map(to_serde).collect()),
        JsonValue::Object(m) => serde_json::Value::Object(m.iter().map(|(k, v)| (k.clone(), to_serde(v))).collect()),
    }
}

fn status_of(r: &GatewayResponse) -> u16 {
    match r {
        GatewayResponse::Text { status, .. } => *status,
        GatewayResponse::StreamUrlJson { .. } => 200,
        GatewayResponse::Redirect { .. } => 302,
    }
}

#[test]
fn test_missing_url_parameter() {
    // GET /feed/rss and GET /resolve without url
    let response = required_url(None).unwrap_err();
    assert_eq!(status_of(&response), 400);
    match response {
        GatewayResponse::Text { body, .. } => assert_eq!(body, "Missing 'url' query parameter"),
        _ => panic!("expected a text answer"),
    }
}

#[test]
fn test_empty_url_parameter() {
    // GET /feed/rss?url=
    assert_eq!(status_of(&required_url(Some("")).unwrap_err()), 400);
    // GET /resolve?url=%20
    assert_eq!(status_of(&required_url(Some(" ")).unwrap_err()), 400);
}

#[test]
fn test_provider_not_found() {
    // GET /resolve?url=https://unknown.com with an empty registry
    let registry = ProviderRegistry::new();
    let url = required_url(Some("https://unknown.com")).unwrap();
    let planned = registry.plan_request(&url, ProviderAction::ResolveStream);
    let error = match planned {
        Err(e) => e,
        Ok(_) => panic!("no provider should serve the URL"),
    };
    assert_eq!(error, "No provider found matching URL: https://unknown.com");
    let response = resolve_response(Err(error), None);
    assert_eq!(status_of(&response), 500);
}

#[test]
fn test_youtube_payload_construction() {
    let mut registry = ProviderRegistry::new();
    let youtube = manifest(
        "ytdlp-wrapper",
        0,
        &["^https?://(www\\.)?youtube\\.com/.*"],
        args(&["--cookies", "/data/yt.txt", "--flat-playlist", "--dump-single-json", "{{target_url}}"]),
        args(&["--cookies", "/data/yt.txt", "-g", "-f", "best[ext=mp4]/best", "{{target_url}}"]),
    );
    registry.load_manifests(vec![Ok(youtube)]).unwrap();

    let target_url = "https://www.youtube.com/watch?v=dngiI-xU5Z8";
    let provider = registry.find_provider(target_url).expect("Should find youtube provider");

    let strings = |payload: &JsonValue| -> Vec<String> {
        match payload {
            JsonValue::Object(members) => match &members[0].1 {
                JsonValue::Array(items) => items
                    .iter()
                    .map(|v| match v {
                        JsonValue::String(t) => t.clone(),
                        _ => panic!("string expected"),
                    })
                    .collect(),
                _ => panic!("payload should have args array"),
            },
            _ => panic!("payload should be an object"),
        }
    };

    // fetch_feed payload construction
    let mut fetch_payload = provider.actions.fetch_feed.payload.clone();
    ProviderRegistry::interpolate_value(&mut fetch_payload, target_url);
    assert_eq!(
        strings(&fetch_payload),
        vec!["--cookies", "/data/yt.txt", "--flat-playlist", "--dump-single-json", "https://www.youtube.com/watch?v=dngiI-xU5Z8"]
    );

    // resolve_stream payload construction
    let mut resolve_payload = provider.actions.resolve_stream.payload.clone();
    ProviderRegistry::interpolate_value(&mut resolve_payload, target_url);
    assert_eq!(
        strings(&resolve_payload),
        vec!["--cookies", "/data/yt.txt", "-g", "-f", "best[ext=mp4]/best", "https://www.youtube.com/watch?v=dngiI-xU5Z8"]
    );
}

#[test]
fn plan_request_builds_url_headers_and_payload() {
    let mut registry = ProviderRegistry::new();
    let mut m = manifest("p", 0, &["example\\.org"], args(&["{{target_url}}", "x{{target_url}}y"]), args(&[]));
    m.actions.fetch_feed.headers = Some(vec![(s("Content-Type"), s("application/json"))]);
    registry.load_manifests(vec![Ok(m)]).unwrap();
    let req = registry.plan_request("https://example.org/a", ProviderAction::FetchFeed).unwrap();
    assert_eq!(req.provider_index, 0);
    assert_eq!(req.url, "http://localhost:8080/run");
    assert_eq!(req.method, "POST");
    assert_eq!(req.headers, vec![(s("Content-Type"), s("application/json"))]);
    assert_eq!(
        serde_json::to_string(&to_serde(&req.payload)).unwrap(),
        "{\"args\":[\"https://example.org/a\",\"xhttps://example.org/ay\"]}"
    );
}

#[test]
fn priority_routing_prefers_higher_priority_then_load_order() {
    let mut registry = ProviderRegistry::new();
    let low = manifest("low", 1, &["video"], args(&[]), args(&[]));
    let high_a = manifest("high-a", 5, &["nomatch"], args(&[]), args(&[]));
    let high_b = manifest("high-b", 5, &["video"], args(&[]), args(&[]));
    let high_c = manifest("high-c", 5, &["video"], args(&[]), args(&[]));
    registry.load_manifests(vec![Ok(low), Ok(high_a), Ok(high_b), Ok(high_c)]).unwrap();
    let order: Vec<String> = (0..registry.len()).map(|i| registry.provider(i).unwrap().id.clone()).collect();
    assert_eq!(order, vec!["high-a", "high-b", "high-c", "low"]);
    assert_eq!(registry.find_provider("https://video.site/1").unwrap().id, "high-b");
    assert!(registry.find_provider("https://other.site/1").is_none());
}

#[test]
fn load_stops_at_first_bad_entry_without_sorting() {
    let mut registry = ProviderRegistry::new();
    let a = manifest("a", 1, &["a"], args(&[]), args(&[]));
    let b = manifest("b", 9, &["b"], args(&[]), args(&[]));
    let bad = manifest("bad", 3, &["ok", "(unclosed"], args(&[]), args(&[]));
    let never = manifest("never", 4, &["n"], args(&[]), args(&[]));
    let err = registry.load_manifests(vec![Ok(a), Ok(b), Ok(bad), Ok(never)]).unwrap_err();
    assert_eq!(err, regex::Regex::new("(unclosed").unwrap_err().to_string());
    let order: Vec<String> = (0..registry.len()).map(|i| registry.provider(i).unwrap().id.clone()).collect();
    assert_eq!(order, vec!["a", "b"]);

    let mut other = ProviderRegistry::new();
    let e = other.load_manifests(vec![Err(s("yaml error")), Ok(manifest("x", 0, &["x"], args(&[]), args(&[])))]);
    assert_eq!(e.unwrap_err(), "yaml error");
    assert_eq!(other.len(), 0);
}

#[test]
fn payload_without_placeholder_is_unchanged() {
    let mut payload = JsonValue::Object(vec![
        (s("timeout_seconds"), JsonValue::Number(JsonNumber::PosInt(15))),
        (s("args"), JsonValue::Array(vec![JsonValue::String(s("-g")), JsonValue::String(s("{{other}}"))])),
    ]);
    let before = serde_json::to_string(&to_serde(&payload)).unwrap();
    ProviderRegistry::interpolate_value(&mut payload, "https://example.org/x");
    assert_eq!(serde_json::to_string(&to_serde(&payload)).unwrap(), before);
}
