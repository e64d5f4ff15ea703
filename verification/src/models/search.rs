//! Search response models.

use crate::models::album::{Album, AlbumId3};
use crate::models::artist::{Artist, ArtistId3};
use crate::models::song::Child;
use vstd::prelude::*;

verus! {

/// search3 data: { searchResult3: { artist, album, song } }
#[derive(Debug)]
pub struct SearchResult3Response {
    pub search_result: SearchResult3,
}

#[derive(Debug)]
pub struct SearchResult3 {
    pub artist: Vec<ArtistId3>,
    pub album: Vec<AlbumId3>,
    pub song: Vec<Child>,
}

/// search2 data: { searchResult2: { artist, album, song } } with the legacy
/// Artist/Album shapes.
#[derive(Debug)]
pub struct SearchResult2Response {
    pub search_result: SearchResult2,
}

#[derive(Debug)]
pub struct SearchResult2 {
    pub artist: Vec<Artist>,
    pub album: Vec<Album>,
    pub song: Vec<Child>,
}

} // verus!
