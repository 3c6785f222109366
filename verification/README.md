# stream_prism

A stateless streaming-media gateway. Provider manifests describe which
URLs a provider serves, how to call it and how its JSON answers map onto a
unified media schema; the gateway turns those answers into RSS podcast
feeds and M3U playlists and resolves stream URLs.

Layout:

- `src/` — the verified library (Verus):
  - `text.rs` — decimal rendering, unsigned parsing, trimming, replacement,
    percent-encoding.
  - `json.rs` — JSON values as plain data, JSONPath queries and parsing.
  - `config.rs`, `model.rs` — provider manifests and the media schema.
  - `mapper.rs` — mapping provider answers onto feeds and stream URLs.
  - `provider.rs` — the registry: loading, priority ordering, URL routing,
    request planning.
  - `formatter/` — M3U and RSS rendering.
  - `routes.rs` — the gateway's answers for every request outcome.
- `app/` — the HTTP server: manifest files, provider calls, axum handlers.
- `tests/` — tests of the library.
