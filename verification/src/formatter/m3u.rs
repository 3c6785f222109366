//! M3U playlists whose entries point back at the gateway's resolver.

use crate::formatter::Formatter;
use crate::model::{FeedModel, ItemModel, MediaFeed};
use crate::text::{decimal, encode_url_component, push_decimal, url_encode};
use vstd::prelude::*;

verus! {

/// The gateway URL that resolves the stream of `original_url`.
pub open spec fn resolve_link(host_uri: Seq<char>, original_url: Seq<char>) -> Seq<char> {
    host_uri + "/resolve?url="@ + url_encode(original_url)
}

/// The two extended-M3U lines of one item: `#EXTINF:<duration>,<title>`
/// (duration 0 when unknown), then its resolver URL.
pub open spec fn m3u_entry(item: ItemModel, host_uri: Seq<char>) -> Seq<char> {
    let duration: nat = match item.duration {
        Some(d) => d as nat,
        None => 0,
    };
    "#EXTINF:"@ + decimal(duration) + ","@ + item.title + "\n"@ + resolve_link(host_uri, item.original_url)
        + "\n"@
}

/// The playlist lines of `items`, in order.
pub open spec fn m3u_entries(items: Seq<ItemModel>, host_uri: Seq<char>) -> Seq<char>
    decreases items.len(),
{
    if items.len() == 0 {
        seq![]
    } else {
        m3u_entries(items.drop_last(), host_uri) + m3u_entry(items.last(), host_uri)
    }
}

/// The M3U playlist of a feed.
pub open spec fn m3u_playlist(feed: FeedModel, host_uri: Seq<char>) -> Seq<char> {
    "#EXTM3U\n"@ + m3u_entries(feed.items, host_uri)
}

/// Renders feeds as M3U playlists.
#[derive(Debug, Clone, Copy)]
pub struct M3uFormatter;

impl Formatter for M3uFormatter {
    open spec fn can_format(&self, feed: &MediaFeed) -> bool {
        true
    }

    fn format(&self, feed: &MediaFeed, host_uri: &str) -> (r: Result<String, String>)
        ensures
            r matches Ok(s) && s@ == m3u_playlist(feed@, host_uri@),
    {
        let mut output = "#EXTM3U\n".to_owned();
        let items = &feed.items;
        let ghost models = feed@.items;
        let mut i: usize = 0;
        assert(models.take(0) =~= Seq::<ItemModel>::empty());
        while i < items.len()
            invariant
                i <= items@.len() == models.len(),
                models == items@.map_values(|it: crate::model::MediaItem| it@),
                output@ == "#EXTM3U\n"@ + m3u_entries(models.take(i as int), host_uri@),
            decreases items@.len() - i,
        {
            let item = &items[i];
            let duration: u64 = match item.duration {
                Some(d) => d as u64,
                None => 0,
            };
            let ghost before = output@;
            output.append("#EXTINF:");
            push_decimal(&mut output, duration);
            output.append(",");
            output.append(item.title.as_str());
            output.append("\n");
            output.append(host_uri);
            output.append("/resolve?url=");
            output.append(encode_url_component(item.original_url.as_str()).as_str());
            output.append("\n");
            proof {
                assert(models.take(i + 1).drop_last() =~= models.take(i as int));
                assert(models.take(i + 1).last() == item@);
                assert(output@ =~= before + m3u_entry(item@, host_uri@));
            }
            i = i + 1;
        }
        assert(models.take(items@.len() as int) =~= models);
        Ok(output)
    }
}

} // verus!
