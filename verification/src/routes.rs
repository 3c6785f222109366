//! The decisions of the HTTP gateway: validating the client's URL
//! parameter, choosing the formatter and the host that enclosures point
//! at, and the response sent for every outcome of a provider call.

use crate::formatter::m3u::{m3u_playlist, M3uFormatter};
use crate::formatter::rss::{
    clock_failure, clock_seconds, clock_writable, feed_dates_writable, feed_needs_clock, needs_clock, now_seconds,
    render_rss, rss_channel_of, rss_document, RssChannelModel,
};
use crate::formatter::Formatter;
use crate::model::MediaFeed;
use crate::text::{trim, trimmed};
use vstd::prelude::*;

verus! {

/// The protocol a feed is served in.
#[derive(Debug, Clone, Copy, PartialEq, Eq)]
pub enum FeedFormat {
    Rss,
    M3u,
}

/// A response of the gateway.
#[derive(Debug, Clone)]
pub enum GatewayResponse {
    /// A body of the given content type with the given HTTP status.
    Text { status: u16, content_type: String, body: String },
    /// `200 OK` with the JSON object `{"url": url}`.
    StreamUrlJson { url: String },
    /// `302 Found` to `location`.
    Redirect { location: String },
}

/// The mathematical model of a [`GatewayResponse`].
pub enum ResponseModel {
    Text { status: u16, content_type: Seq<char>, body: Seq<char> },
    StreamUrlJson { url: Seq<char> },
    Redirect { location: Seq<char> },
}

impl View for GatewayResponse {
    type V = ResponseModel;

    open spec fn view(&self) -> ResponseModel {
        match self {
            GatewayResponse::Text { status, content_type, body } => ResponseModel::Text {
                status: *status,
                content_type: content_type@,
                body: body@,
            },
            GatewayResponse::StreamUrlJson { url } => ResponseModel::StreamUrlJson { url: url@ },
            GatewayResponse::Redirect { location } => ResponseModel::Redirect { location: location@ },
        }
    }
}

/// The content type of plain-text answers.
pub open spec fn plain_text() -> Seq<char> {
    "text/plain; charset=utf-8"@
}

/// A plain-text answer.
pub open spec fn text_response(status: u16, body: Seq<char>) -> ResponseModel {
    ResponseModel::Text { status, content_type: plain_text(), body }
}

fn text(status: u16, body: String) -> (r: GatewayResponse)
    ensures
        r@ == text_response(status, body@),
{
    GatewayResponse::Text { status, content_type: "text/plain; charset=utf-8".to_owned(), body }
}

/// The client's URL: the `url` query parameter without surrounding white
/// space; `400 Bad Request` when it is missing or blank.
pub fn required_url(param: Option<&str>) -> (r: Result<String, GatewayResponse>)
    ensures
        match param {
            Some(u) if trim(u@).len() > 0 => r matches Ok(url) && url@ == trim(u@),
            _ => r matches Err(resp) && resp@ == text_response(400, "Missing 'url' query parameter"@),
        },
{
    match param {
        Some(u) => {
            let url = trimmed(u);
            if !url.as_str().is_empty() {
                return Ok(url);
            }
        },
        None => {},
    }
    Err(text(400, "Missing 'url' query parameter".to_owned()))
}

/// The base URL of the gateway as the client reached it: `https` when the
/// request came through a proxy that set `X-Forwarded-Proto`, else `http`,
/// and the `Host` header, or `localhost:8080` without one.
pub open spec fn host_uri_spec(host: Option<Seq<char>>, forwarded_proto: bool) -> Seq<char> {
    (if forwarded_proto {
        "https"@
    } else {
        "http"@
    }) + "://"@ + match host {
        Some(h) => h,
        None => "localhost:8080"@,
    }
}

/// The base URL of the gateway as the client reached it.
pub fn host_uri(host: Option<&str>, forwarded_proto: bool) -> (r: String)
    ensures
        r@ == host_uri_spec(
            match host {
                Some(h) => Some(h@),
                None => None,
            },
            forwarded_proto,
        ),
{
    let mut uri = if forwarded_proto {
        "https".to_owned()
    } else {
        "http".to_owned()
    };
    uri.append("://");
    match host {
        Some(h) => uri.append(h),
        None => uri.append("localhost:8080"),
    }
    uri
}

/// The base URI of the gateway for the `Host` header `host`.
pub open spec fn gateway_base(host: Option<&str>, forwarded_proto: bool) -> Seq<char> {
    host_uri_spec(
        match host {
            Some(h) => Some(h@),
            None => None,
        },
        forwarded_proto,
    )
}

/// The content type of a feed format.
pub open spec fn feed_content_type(format: FeedFormat) -> Seq<char> {
    match format {
        FeedFormat::Rss => "application/xml; charset=utf-8"@,
        FeedFormat::M3u => "audio/x-mpegurl; charset=utf-8"@,
    }
}

/// The feeds a format can render.
pub open spec fn feed_renderable(format: FeedFormat, feed: &MediaFeed) -> bool {
    match format {
        FeedFormat::Rss => feed_dates_writable(feed),
        FeedFormat::M3u => true,
    }
}

/// The answer to an RSS feed request for `feed` at `base` when the system
/// clock reads `now`: `200` with the XML of the feed's channel, or, exactly
/// when some date needs the current time and the reading cannot be
/// written, `422` with the error for that reading.
pub open spec fn rss_answer(r: ResponseModel, feed: &MediaFeed, base: Seq<char>, now: Option<u64>) -> bool {
    if feed_needs_clock(feed) && !clock_writable(now) {
        r == text_response(422, "Serialization failed: "@ + clock_failure(now))
    } else {
        exists|c: RssChannelModel|
            #[trigger] rss_channel_of(c, feed@, base, clock_seconds(now)) && r == ResponseModel::Text {
                status: 200,
                content_type: "application/xml; charset=utf-8"@,
                body: rss_document(c),
            }
    }
}

/// The answer to a feed request once the provider was called and, for RSS,
/// the system clock read `now`: `500` with the provider error, or the feed
/// rendered in `format` for the gateway at `host_uri_spec(host,
/// forwarded_proto)`.
pub fn feed_response_at(
    format: FeedFormat,
    fetched: Result<MediaFeed, String>,
    host: Option<&str>,
    forwarded_proto: bool,
    now: Option<u64>,
) -> (r: GatewayResponse)
    requires
        fetched matches Ok(feed) ==> feed_renderable(format, &feed),
    ensures
        match fetched {
            Err(e) => r@ == text_response(500, "Failed to retrieve media feed: "@ + e@),
            Ok(feed) => {
                let base = gateway_base(host, forwarded_proto);
                match format {
                    FeedFormat::M3u => r matches GatewayResponse::Text { status, content_type, body }
                        && status == 200 && content_type@ == feed_content_type(format)
                        && body@ == m3u_playlist(feed@, base),
                    FeedFormat::Rss => rss_answer(r@, &feed, base, now),
                }
            },
        },
{
    match fetched {
        Err(e) => {
            let mut body = "Failed to retrieve media feed: ".to_owned();
            body.append(e.as_str());
            text(500, body)
        },
        Ok(feed) => {
            let base = host_uri(host, forwarded_proto);
            let (rendered, content_type) = match format {
                FeedFormat::Rss => (render_rss(&feed, base.as_str(), now), "application/xml; charset=utf-8"),
                FeedFormat::M3u => (M3uFormatter.format(&feed, base.as_str()), "audio/x-mpegurl; charset=utf-8"),
            };
            match rendered {
                Ok(body) => GatewayResponse::Text { status: 200, content_type: content_type.to_owned(), body },
                Err(e) => {
                    let mut body = "Serialization failed: ".to_owned();
                    body.append(e.as_str());
                    text(422, body)
                },
            }
        },
    }
}

/// The answer to a feed request once the provider was called: as
/// `feed_response_at` for the system clock's reading, which is read only
/// for an RSS feed with a date that needs the current time.
pub fn feed_response(format: FeedFormat, fetched: Result<MediaFeed, String>, host: Option<&str>, forwarded_proto: bool) -> (r: GatewayResponse)
    requires
        fetched matches Ok(feed) ==> feed_renderable(format, &feed),
    ensures
        match fetched {
            Err(e) => r@ == text_response(500, "Failed to retrieve media feed: "@ + e@),
            Ok(feed) => {
                let base = gateway_base(host, forwarded_proto);
                match format {
                    FeedFormat::M3u => r matches GatewayResponse::Text { status, content_type, body }
                        && status == 200 && content_type@ == feed_content_type(format)
                        && body@ == m3u_playlist(feed@, base),
                    FeedFormat::Rss => exists|now: Option<u64>| #[trigger] rss_answer(r@, &feed, base, now),
                }
            },
        },
{
    let mut now: Option<u64> = None;
    if let Ok(feed) = &fetched {
        if let FeedFormat::Rss = format {
            if needs_clock(feed) {
                now = now_seconds();
            }
        }
    }
    feed_response_at(format, fetched, host, forwarded_proto, now)
}

/// The answer to a resolve request once the provider was called: `500`
/// with the provider error; otherwise the stream URL without surrounding
/// white space, as JSON when the `format` parameter is `json`, else as a
/// redirect.
pub fn resolve_response(resolved: Result<String, String>, format_param: Option<&str>) -> (r: GatewayResponse)
    ensures
        match resolved {
            Err(e) => r@ == text_response(500, "Failed to resolve dynamic stream: "@ + e@),
            Ok(url) => if format_param matches Some(f) && f@ == "json"@ {
                r@ == ResponseModel::StreamUrlJson { url: trim(url@) }
            } else {
                r@ == ResponseModel::Redirect { location: trim(url@) }
            },
        },
{
    match resolved {
        Err(e) => {
            let mut body = "Failed to resolve dynamic stream: ".to_owned();
            body.append(e.as_str());
            text(500, body)
        },
        Ok(url) => {
            let stream_url = trimmed(url.as_str());
            let wants_json = match format_param {
                Some(f) => {
                    let f = f.to_owned();
                    f == "json".to_owned()
                },
                None => false,
            };
            if wants_json {
                GatewayResponse::StreamUrlJson { url: stream_url }
            } else {
                GatewayResponse::Redirect { location: stream_url }
            }
        },
    }
}

} // verus!
