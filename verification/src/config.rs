//! Provider manifests: how a provider is reached, which URLs it serves and
//! how its answers map onto the unified media schema.

use crate::json::JsonValue;
use vstd::prelude::*;

verus! {

/// A declarative provider manifest.
#[derive(Debug, Clone)]
pub struct ProviderManifest {
    pub id: String,
    pub version: String,
    pub description: Option<String>,
    pub endpoint: String,
    /// Higher priorities are tried first when routing a URL.
    pub priority: i32,
    pub capabilities: Capabilities,
    pub actions: Actions,
    pub response_mapping: ResponseMapping,
}

/// The priority of a manifest that does not give one.
pub fn default_priority() -> (p: i32)
    ensures
        p == 0,
{
    0
}

/// Whether a file with extension `ext` holds a provider manifest: a YAML
/// (`yaml`, `yml`) or JSON (`json`) document.
pub fn is_manifest_extension(ext: &str) -> (b: bool)
    ensures
        b == (ext@ == "yaml"@ || ext@ == "yml"@ || ext@ == "json"@),
{
    let e = ext.to_owned();
    e == "yaml".to_owned() || e == "yml".to_owned() || e == "json".to_owned()
}

/// The URLs a provider serves, as regular expressions.
#[derive(Debug, Clone)]
pub struct Capabilities {
    pub url_patterns: Vec<String>,
}

/// The two requests a provider answers.
#[derive(Debug, Clone)]
pub struct Actions {
    pub fetch_feed: ActionConfig,
    pub resolve_stream: ActionConfig,
}

/// One provider request: the path below the endpoint, the HTTP method, the
/// extra headers and the JSON body, in which `{{target_url}}` stands for the
/// client's URL.
#[derive(Debug, Clone)]
pub struct ActionConfig {
    pub path: String,
    pub method: String,
    pub headers: Option<Vec<(String, String)>>,
    pub payload: JsonValue,
}

/// JSONPath expressions that map a provider's answer onto a media feed.
#[derive(Debug, Clone)]
pub struct ResponseMapping {
    /// When present, the answer holds the actual document as a JSON string
    /// at this path.
    pub unpack_field: Option<String>,
    pub feed: FeedMapping,
    pub item: ItemMapping,
}

/// JSONPath expressions for the fields of a feed; a field without an
/// expression is left empty.
#[derive(Debug, Clone)]
pub struct FeedMapping {
    pub id: String,
    pub title: String,
    pub description: Option<String>,
    pub author: Option<String>,
    pub link: String,
    pub cover_url: Option<String>,
    pub items_path: String,
}

/// JSONPath expressions, relative to one item, for the fields of an item;
/// a field without an expression is left empty.
#[derive(Debug, Clone)]
pub struct ItemMapping {
    pub id: String,
    pub title: String,
    pub description: Option<String>,
    pub pub_date: String,
    pub duration: Option<String>,
    pub original_url: String,
    pub thumbnail_url: Option<String>,
}

} // verus!
