//! RSS 2.0 podcast feeds whose enclosures point back at the gateway's
//! resolver.

use crate::formatter::m3u::resolve_link;
use crate::formatter::Formatter;
use crate::model::{FeedModel, ItemModel, MediaFeed, MediaItem};
use crate::text::encode_url_component;
use vstd::prelude::*;

verus! {

/// The channel image of an RSS feed.
#[derive(Debug, Clone)]
pub struct RssImage {
    pub url: String,
    pub title: String,
    pub link: String,
}

/// One RSS item with its enclosure and GUID.
#[derive(Debug, Clone)]
pub struct RssEntry {
    pub title: Option<String>,
    pub description: Option<String>,
    pub enclosure_url: String,
    pub enclosure_length: String,
    pub enclosure_type: String,
    pub guid: String,
    pub guid_is_permalink: bool,
    pub pub_date: Option<String>,
}

/// An RSS channel, ready to be written as XML.
#[derive(Debug, Clone)]
pub struct RssChannel {
    pub title: String,
    pub link: String,
    pub description: String,
    pub image: Option<RssImage>,
    pub items: Vec<RssEntry>,
}

/// The mathematical model of an [`RssImage`].
pub struct RssImageModel {
    pub url: Seq<char>,
    pub title: Seq<char>,
    pub link: Seq<char>,
}

/// The mathematical model of an [`RssEntry`].
pub struct RssEntryModel {
    pub title: Option<Seq<char>>,
    pub description: Option<Seq<char>>,
    pub enclosure_url: Seq<char>,
    pub enclosure_length: Seq<char>,
    pub enclosure_type: Seq<char>,
    pub guid: Seq<char>,
    pub guid_is_permalink: bool,
    pub pub_date: Option<Seq<char>>,
}

/// The mathematical model of an [`RssChannel`].
pub struct RssChannelModel {
    pub title: Seq<char>,
    pub link: Seq<char>,
    pub description: Seq<char>,
    pub image: Option<RssImageModel>,
    pub items: Seq<RssEntryModel>,
}

impl View for RssImage {
    type V = RssImageModel;

    open spec fn view(&self) -> RssImageModel {
        RssImageModel { url: self.url@, title: self.title@, link: self.link@ }
    }
}

impl View for RssEntry {
    type V = RssEntryModel;

    open spec fn view(&self) -> RssEntryModel {
        RssEntryModel {
            title: self.title.deep_view(),
            description: self.description.deep_view(),
            enclosure_url: self.enclosure_url@,
            enclosure_length: self.enclosure_length@,
            enclosure_type: self.enclosure_type@,
            guid: self.guid@,
            guid_is_permalink: self.guid_is_permalink,
            pub_date: self.pub_date.deep_view(),
        }
    }
}

impl View for RssChannel {
    type V = RssChannelModel;

    open spec fn view(&self) -> RssChannelModel {
        RssChannelModel {
            title: self.title@,
            link: self.link@,
            description: self.description@,
            image: match self.image {
                Some(i) => Some(i@),
                None => None,
            },
            items: self.items@.map_values(|e: RssEntry| e@),
        }
    }
}

/// The XML document that the `rss` crate writes for `channel`
/// (`rss::Channel`'s `Display`).
pub uninterp spec fn rss_document(channel: RssChannelModel) -> Seq<char>;

/// Writes a channel as XML with the `rss` crate: every field goes to the
/// field of the same name of `rss::Channel`, `rss::Image`, `rss::Item`,
/// `rss::Enclosure` and `rss::Guid`; the other fields keep their defaults.
#[verifier::external_body]
fn render_channel(c: RssChannel) -> (r: String)
    ensures
        r@ == rss_document(c@),
{
    let items = c.items.into_iter().map(|e| rss::Item {
        title: e.title, description: e.description, pub_date: e.pub_date,
        enclosure: Some(rss::Enclosure { url: e.enclosure_url, length: e.enclosure_length, mime_type: e.enclosure_type }),
        guid: Some(rss::Guid { value: e.guid, permalink: e.guid_is_permalink }),
        ..Default::default()
    }).collect();
    let image = c.image.map(|i| rss::Image { url: i.url, title: i.title, link: i.link, ..Default::default() });
    rss::Channel { title: c.title, link: c.link, description: c.description, image, items, ..Default::default() }.to_string()
}

/// The seconds since the UNIX epoch that `chrono` can turn into a
/// `DateTime<Utc>` (years -262143 to 262142).
pub open spec fn in_chrono_range(secs: int) -> bool {
    -8334601228800 <= secs <= 8210266876799
}

/// The seconds since the UNIX epoch whose date falls in the years 0 to
/// 9999, which RFC 2822 can write.
pub open spec fn rfc2822_writable(secs: int) -> bool {
    -62167219200 <= secs <= 253402300799
}

/// The RFC 2822 text of the UTC date-time `secs` seconds after the UNIX
/// epoch (`chrono::DateTime::<Utc>::to_rfc2822`).
pub uninterp spec fn rfc2822_utc(secs: i64) -> Seq<char>;

/// `chrono::Utc.timestamp_opt(secs, 0)` written with `to_rfc2822`, or
/// `None` when `chrono` cannot represent that instant. `to_rfc2822` panics
/// on years outside 0 to 9999, hence the precondition.
#[verifier::external_body]
fn utc_rfc2822(secs: i64) -> (r: Option<String>)
    requires
        !in_chrono_range(secs as int) || rfc2822_writable(secs as int),
    ensures
        match r {
            Some(s) => in_chrono_range(secs as int) && s@ == rfc2822_utc(secs),
            None => !in_chrono_range(secs as int),
        },
{
    match chrono::TimeZone::timestamp_opt(&chrono::Utc, secs, 0) {
        chrono::LocalResult::Single(dt) => Some(dt.to_rfc2822()),
        _ => None,
    }
}

/// The system clock in whole seconds since the UNIX epoch
/// (`SystemTime::now().duration_since(UNIX_EPOCH)`, read as `as_secs`), or
/// `None` when the clock reads before the epoch. Nothing is stated of the
/// reading: it depends on the clock alone.
#[verifier::external_body]
pub(crate) fn now_seconds() -> (r: Option<u64>) {
    match std::time::SystemTime::now().duration_since(std::time::UNIX_EPOCH) {
        Ok(elapsed) => Some(elapsed.as_secs()),
        Err(_) => None,
    }
}

/// A publication date that can be written without a panic: unknown (0),
/// outside what `chrono` represents, or in the years 0 to 9999.
pub open spec fn pub_date_writable(timestamp: u64) -> bool {
    let secs = (timestamp as i64) as int;
    timestamp == 0 || !in_chrono_range(secs) || rfc2822_writable(secs)
}

/// The RFC 2822 date of a known, representable timestamp; `None` when the
/// current time is used instead.
pub open spec fn rfc2822_of(timestamp: u64) -> Option<Seq<char>> {
    let secs = timestamp as i64;
    if timestamp != 0 && in_chrono_range(secs as int) {
        Some(rfc2822_utc(secs))
    } else {
        None
    }
}

/// The RFC 2822 date written for `timestamp` when the clock reads `now`:
/// the date of the timestamp when it is known and representable, else the
/// date of `now`.
pub open spec fn pub_date_text(timestamp: u64, now: i64) -> Seq<char> {
    match rfc2822_of(timestamp) {
        Some(d) => d,
        None => rfc2822_utc(now),
    }
}

/// Writes a UNIX timestamp as an RFC 2822 date; an unknown (0) or
/// unrepresentable timestamp is written as the current time `now`.
pub fn format_rfc2822(timestamp: u64, now: i64) -> (r: String)
    requires
        pub_date_writable(timestamp),
        rfc2822_of(timestamp) is None ==> rfc2822_writable(now as int),
    ensures
        r@ == pub_date_text(timestamp, now),
{
    if timestamp != 0 {
        match utc_rfc2822(timestamp as i64) {
            Some(date) => {
                return date;
            },
            None => {},
        }
    }
    match utc_rfc2822(now) {
        Some(date) => date,
        None => String::new(),
    }
}

/// The RSS item of a media item when the clock reads `now`: its title,
/// description and id (as a GUID that is no permalink), an enclosure of type
/// `video/mp4` and length `0` that points at the gateway's resolver, and its
/// publication date.
pub open spec fn rss_entry_of(e: RssEntryModel, item: ItemModel, host_uri: Seq<char>, now: i64) -> bool {
    &&& e.title == Some(item.title)
    &&& e.description == item.description
    &&& e.enclosure_url == resolve_link(host_uri, item.original_url)
    &&& e.enclosure_length == "0"@
    &&& e.enclosure_type == "video/mp4"@
    &&& e.guid == item.id
    &&& !e.guid_is_permalink
    &&& e.pub_date == Some(pub_date_text(item.pub_date, now))
}

/// The description of a feed, or a generated one.
pub open spec fn channel_description(feed: FeedModel) -> Seq<char> {
    match feed.description {
        Some(d) => d,
        None => "Dynamic Podcast feed for "@ + feed.title,
    }
}

/// The RSS channel of a feed when the clock reads `now`: title, link and
/// description, the cover as image, and one RSS item per media item, in
/// order.
pub open spec fn rss_channel_of(c: RssChannelModel, feed: FeedModel, host_uri: Seq<char>, now: i64) -> bool {
    &&& c.title == feed.title
    &&& c.link == feed.link
    &&& c.description == channel_description(feed)
    &&& c.image == match feed.cover_url {
        Some(cover) => Some(RssImageModel { url: cover, title: feed.title, link: feed.link }),
        None => None,
    }
    &&& c.items.len() == feed.items.len()
    &&& forall|i: int| 0 <= i < c.items.len() ==> rss_entry_of(#[trigger] c.items[i], feed.items[i], host_uri, now)
}

/// In the RSS channel of a feed for the clock reading `now`, an item
/// without a date (0) is dated `now`, and an item with a date that `chrono`
/// represents is dated by that date, whatever the clock reads.
pub proof fn lemma_channel_dates(c: RssChannelModel, feed: FeedModel, host_uri: Seq<char>, now: i64, k: int)
    requires
        rss_channel_of(c, feed, host_uri, now),
        0 <= k < feed.items.len(),
    ensures
        feed.items[k].pub_date == 0 ==> c.items[k].pub_date == Some(rfc2822_utc(now)),
        feed.items[k].pub_date != 0 && in_chrono_range((feed.items[k].pub_date as i64) as int) ==> c.items[k].pub_date
            == Some(rfc2822_utc(feed.items[k].pub_date as i64)),
{
    assert(rss_entry_of(c.items[k], feed.items[k], host_uri, now));
}

/// Every publication date of the feed can be written.
pub open spec fn feed_dates_writable(feed: &MediaFeed) -> bool {
    forall|i: int| 0 <= i < feed.items@.len() ==> pub_date_writable(#[trigger] feed.items@[i].pub_date)
}

/// Some publication date of the feed is written as the current time.
pub open spec fn feed_needs_clock(feed: &MediaFeed) -> bool {
    exists|i: int| 0 <= i < feed.items@.len() && (#[trigger] rfc2822_of(feed.items@[i].pub_date)) is None
}

/// Whether every publication date of the feed can be written, which RSS
/// rendering requires.
pub fn dates_writable(feed: &MediaFeed) -> (b: bool)
    ensures
        b == feed_dates_writable(feed),
{
    let mut i: usize = 0;
    while i < feed.items.len()
        invariant
            i <= feed.items@.len(),
            forall|k: int| 0 <= k < i ==> pub_date_writable(#[trigger] feed.items@[k].pub_date),
        decreases feed.items@.len() - i,
    {
        let timestamp = feed.items[i].pub_date;
        let secs = timestamp as i64;
        let in_range = -8334601228800 <= secs && secs <= 8210266876799;
        let writable = -62167219200 <= secs && secs <= 253402300799;
        if !(timestamp == 0 || !in_range || writable) {
            return false;
        }
        i = i + 1;
    }
    true
}

/// Whether some publication date of the feed is written as the current time.
pub(crate) fn needs_clock(feed: &MediaFeed) -> (b: bool)
    ensures
        b == feed_needs_clock(feed),
{
    let mut i: usize = 0;
    while i < feed.items.len()
        invariant
            i <= feed.items@.len(),
            forall|k: int| 0 <= k < i ==> (#[trigger] rfc2822_of(feed.items@[k].pub_date)) is Some,
        decreases feed.items@.len() - i,
    {
        let timestamp = feed.items[i].pub_date;
        let secs = timestamp as i64;
        let in_range = -8334601228800 <= secs && secs <= 8210266876799;
        if timestamp == 0 || !in_range {
            assert(rfc2822_of(feed.items@[i as int].pub_date) is None);
            return true;
        }
        i = i + 1;
    }
    false
}

fn rss_entry(item: &MediaItem, host_uri: &str, now: i64) -> (e: RssEntry)
    requires
        pub_date_writable(item.pub_date),
        rfc2822_of(item.pub_date) is None ==> rfc2822_writable(now as int),
    ensures
        rss_entry_of(e@, item@, host_uri@, now),
{
    let mut enclosure_url = host_uri.to_owned();
    enclosure_url.append("/resolve?url=");
    enclosure_url.append(encode_url_component(item.original_url.as_str()).as_str());
    let description = match &item.description {
        Some(d) => Some(d.clone()),
        None => None,
    };
    RssEntry {
        title: Some(item.title.clone()),
        description,
        enclosure_url,
        enclosure_length: "0".to_owned(),
        enclosure_type: "video/mp4".to_owned(),
        guid: item.id.clone(),
        guid_is_permalink: false,
        pub_date: Some(format_rfc2822(item.pub_date, now)),
    }
}

/// The RSS channel of a feed, with enclosures pointing at `host_uri`, when
/// the clock reads `now`.
pub fn rss_channel(feed: &MediaFeed, host_uri: &str, now: i64) -> (c: RssChannel)
    requires
        feed_dates_writable(feed),
        feed_needs_clock(feed) ==> rfc2822_writable(now as int),
    ensures
        rss_channel_of(c@, feed@, host_uri@, now),
{
    let description = match &feed.description {
        Some(d) => d.clone(),
        None => {
            let mut d = "Dynamic Podcast feed for ".to_owned();
            d.append(feed.title.as_str());
            d
        },
    };
    let image = match &feed.cover_url {
        Some(cover) => Some(RssImage { url: cover.clone(), title: feed.title.clone(), link: feed.link.clone() }),
        None => None,
    };
    let mut items: Vec<RssEntry> = Vec::new();
    let mut i: usize = 0;
    while i < feed.items.len()
        invariant
            i <= feed.items@.len(),
            feed_dates_writable(feed),
            feed_needs_clock(feed) ==> rfc2822_writable(now as int),
            items@.len() == i,
            forall|k: int| 0 <= k < i ==> rss_entry_of(#[trigger] items@[k]@, feed.items@[k]@, host_uri@, now),
        decreases feed.items@.len() - i,
    {
        proof {
            assert(pub_date_writable(feed.items@[i as int].pub_date));
            if rfc2822_of(feed.items@[i as int].pub_date) is None {
                assert(feed_needs_clock(feed));
            }
        }
        let e = rss_entry(&feed.items[i], host_uri, now);
        items.push(e);
        i = i + 1;
    }
    let c = RssChannel { title: feed.title.clone(), link: feed.link.clone(), description, image, items };
    proof {
        assert forall|k: int| 0 <= k < c@.items.len() implies rss_entry_of(#[trigger] c@.items[k], feed@.items[k], host_uri@, now) by {
            assert(c@.items[k] == items@[k]@);
            assert(feed@.items[k] == feed.items@[k]@);
        }
    }
    c
}

/// The error of a feed that needs the current time while the clock lies
/// beyond the year 9999, which RFC 2822 cannot write.
pub open spec fn clock_error() -> Seq<char> {
    "date cannot be represented by RFC 2822"@
}

/// The error of a feed that needs the current time while the system clock
/// reads before the UNIX epoch.
pub open spec fn clock_unread_error() -> Seq<char> {
    "system time before Unix epoch"@
}

/// A clock reading (seconds since the UNIX epoch, `None` before it) that
/// RFC 2822 can write.
pub open spec fn clock_writable(now: Option<u64>) -> bool {
    now matches Some(n) && rfc2822_writable(n as int)
}

/// The seconds of a clock reading that dates are written with.
pub open spec fn clock_seconds(now: Option<u64>) -> i64 {
    match now {
        Some(n) => n as i64,
        None => 0,
    }
}

/// The error for a clock reading that cannot be written.
pub open spec fn clock_failure(now: Option<u64>) -> Seq<char> {
    match now {
        Some(_) => clock_error(),
        None => clock_unread_error(),
    }
}

/// The RSS rendering of a feed when the clock reads `now`: the XML of the
/// feed's RSS channel, or, exactly when some date needs the current time
/// and the reading cannot be written, the error for that reading.
pub open spec fn rss_rendered(r: Result<String, String>, feed: &MediaFeed, host_uri: Seq<char>, now: Option<u64>) -> bool {
    if feed_needs_clock(feed) && !clock_writable(now) {
        r matches Err(e) && e@ == clock_failure(now)
    } else {
        r matches Ok(s) && exists|c: RssChannelModel|
            #[trigger] rss_channel_of(c, feed@, host_uri, clock_seconds(now)) && s@ == rss_document(c)
    }
}

/// Renders a feed as RSS 2.0 XML, with enclosures pointing at `host_uri`,
/// when the system clock reads `now`.
pub fn render_rss(feed: &MediaFeed, host_uri: &str, now: Option<u64>) -> (r: Result<String, String>)
    requires
        feed_dates_writable(feed),
    ensures
        rss_rendered(r, feed, host_uri@, now),
{
    let writable = match now {
        Some(n) => n <= 253402300799,
        None => false,
    };
    if !writable && needs_clock(feed) {
        return match now {
            Some(_) => Err("date cannot be represented by RFC 2822".to_owned()),
            None => Err("system time before Unix epoch".to_owned()),
        };
    }
    let secs: i64 = match now {
        Some(n) => n as i64,
        None => 0,
    };
    let channel = rss_channel(feed, host_uri, secs);
    let ghost model = channel@;
    let xml = render_channel(channel);
    assert(rss_channel_of(model, feed@, host_uri@, clock_seconds(now)) && xml@ == rss_document(model));
    Ok(xml)
}

/// Renders feeds as RSS 2.0 podcast XML.
#[derive(Debug, Clone, Copy)]
pub struct RssFormatter;

impl Formatter for RssFormatter {
    open spec fn can_format(&self, feed: &MediaFeed) -> bool {
        feed_dates_writable(feed)
    }

    /// The RSS rendering of the feed for the system clock's reading, which
    /// is read only when some date needs the current time; a feed that
    /// needs no clock always renders.
    fn format(&self, feed: &MediaFeed, host_uri: &str) -> (r: Result<String, String>)
        ensures
            exists|now: Option<u64>| #[trigger] rss_rendered(r, feed, host_uri@, now),
            !feed_needs_clock(feed) ==> r is Ok,
    {
        let now = if needs_clock(feed) {
            now_seconds()
        } else {
            None
        };
        render_rss(feed, host_uri, now)
    }
}

} // verus!
