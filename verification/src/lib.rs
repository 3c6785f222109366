//! Verified core of a stateless streaming-media gateway: provider manifests,
//! URL routing, JSONPath response mapping and RSS / M3U rendering.

pub mod text;
pub mod json;
pub mod config;
pub mod model;
pub mod mapper;
pub mod provider;
pub mod formatter;
pub mod routes;
