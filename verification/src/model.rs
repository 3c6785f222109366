//! The unified media schema that every provider answer is mapped onto.

use vstd::prelude::*;

verus! {

/// A channel or playlist.
#[derive(Debug, Clone)]
pub struct MediaFeed {
    pub id: String,
    pub title: String,
    pub description: Option<String>,
    pub author: Option<String>,
    pub link: String,
    pub cover_url: Option<String>,
    pub items: Vec<MediaItem>,
}

/// One episode or video of a feed.
#[derive(Debug, Clone)]
pub struct MediaItem {
    pub id: String,
    pub title: String,
    pub description: Option<String>,
    /// UNIX timestamp in seconds; 0 when unknown.
    pub pub_date: u64,
    /// Length in seconds.
    pub duration: Option<u32>,
    pub original_url: String,
    pub thumbnail_url: Option<String>,
}

/// The mathematical model of a [`MediaFeed`].
pub struct FeedModel {
    pub id: Seq<char>,
    pub title: Seq<char>,
    pub description: Option<Seq<char>>,
    pub author: Option<Seq<char>>,
    pub link: Seq<char>,
    pub cover_url: Option<Seq<char>>,
    pub items: Seq<ItemModel>,
}

/// The mathematical model of a [`MediaItem`].
pub struct ItemModel {
    pub id: Seq<char>,
    pub title: Seq<char>,
    pub description: Option<Seq<char>>,
    pub pub_date: u64,
    pub duration: Option<u32>,
    pub original_url: Seq<char>,
    pub thumbnail_url: Option<Seq<char>>,
}

impl View for MediaItem {
    type V = ItemModel;

    open spec fn view(&self) -> ItemModel {
        ItemModel {
            id: self.id@,
            title: self.title@,
            description: self.description.deep_view(),
            pub_date: self.pub_date,
            duration: self.duration,
            original_url: self.original_url@,
            thumbnail_url: self.thumbnail_url.deep_view(),
        }
    }
}

impl View for MediaFeed {
    type V = FeedModel;

    open spec fn view(&self) -> FeedModel {
        FeedModel {
            id: self.id@,
            title: self.title@,
            description: self.description.deep_view(),
            author: self.author.deep_view(),
            link: self.link@,
            cover_url: self.cover_url.deep_view(),
            items: self.items@.map_values(|i: MediaItem| i@),
        }
    }
}

} // verus!
