//! Play queue and bookmark models.

use crate::models::song::Child;
use vstd::prelude::*;

verus! {

/// getPlayQueue data: { playQueue: { current, position, username,
/// changed, changedBy, entry } }
#[derive(Debug)]
pub struct PlayQueueResponse {
    pub play_queue: PlayQueue,
}

#[derive(Debug)]
pub struct PlayQueue {
    pub current: Option<String>,
    pub position: u64,
    pub username: String,
    pub changed: String,
    pub changed_by: String,
    pub entry: Vec<Child>,
}

/// getPlayQueueByIndex data (OpenSubsonic indexBasedQueue): like
/// playQueue, but the current song is the queue index, not the song id.
#[derive(Debug)]
pub struct PlayQueueByIndexResponse {
    pub play_queue: PlayQueueByIndex,
}

#[derive(Debug)]
pub struct PlayQueueByIndex {
    pub current_index: Option<u32>,
    pub position: u64,
    pub username: String,
    pub changed: String,
    pub changed_by: String,
    pub entry: Vec<Child>,
}

/// getBookmarks data: { bookmarks: { bookmark: [ Bookmark ] } }
#[derive(Debug)]
pub struct BookmarksResponse {
    pub bookmarks: Bookmarks,
}

#[derive(Debug)]
pub struct Bookmarks {
    pub bookmark: Vec<Bookmark>,
}

#[derive(Debug)]
pub struct Bookmark {
    pub entry: Child,
    pub position: u64,
    pub username: String,
    pub comment: String,
    pub created: String,
    pub changed: String,
}

} // verus!
