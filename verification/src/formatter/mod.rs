//! Output formatters that render a media feed in a client protocol.

pub mod m3u;
pub mod rss;

use crate::model::MediaFeed;
use vstd::prelude::*;

verus! {

/// A rendering of media feeds in one client protocol.
pub trait Formatter {
    /// The feeds that this formatter can render.
    spec fn can_format(&self, feed: &MediaFeed) -> bool;

    /// Formats the unified MediaFeed into the target protocol's byte payload.
    fn format(&self, feed: &MediaFeed, host_uri: &str) -> (r: Result<String, String>)
        requires
            self.can_format(feed),
    ;
}

} // verus!
