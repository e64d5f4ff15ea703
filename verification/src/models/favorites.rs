//! Favorites (starred) response models. getStarred uses legacy shapes;
//! getStarred2 the ID3 shapes. Both wrap the same three entity lists.

use crate::models::album::AlbumId3;
use crate::models::artist::ArtistId3;
use crate::models::song::Child;
use vstd::prelude::*;

verus! {

/// getStarred data: legacy shapes. Albums get a parent (the artist id) and
/// isDir; artists stay minimal.
#[derive(Debug)]
pub struct StarredResponse {
    pub starred: Starred,
}

#[derive(Debug)]
pub struct Starred {
    pub artist: Vec<StarredArtist>,
    pub album: Vec<StarredAlbum>,
    pub song: Vec<Child>,
}

#[derive(Debug)]
pub struct StarredArtist {
    pub id: String,
    pub name: String,
    pub cover_art: Option<String>,
    pub starred: Option<String>,
}

/// `starred`/`starredAt` come from the flattened AlbumId3, already set by
/// favorite_album_from_tidal; a duplicate field here would serialize the
/// key twice.
#[derive(Debug)]
pub struct StarredAlbum {
    pub album: AlbumId3,
    pub parent: String,
    pub is_dir: bool,
}

/// getStarred2 data: ID3 shapes. Artists are plain ArtistId3 (albumCount
/// and artistImageUrl included) plus the favorite time.
#[derive(Debug)]
pub struct Starred2Response {
    pub starred2: Starred2,
}

#[derive(Debug)]
pub struct Starred2 {
    pub artist: Vec<Starred2Artist>,
    pub album: Vec<Starred2Album>,
    pub song: Vec<Child>,
}

/// `starred`/`starredAt`/`artistImageUrl` come from the flattened ArtistId3;
/// a duplicate field here would serialize the key twice.
#[derive(Debug)]
pub struct Starred2Artist {
    pub artist: ArtistId3,
}

/// `starred`/`starredAt` come from the flattened AlbumId3, already set by
/// favorite_album_from_tidal; a duplicate field here would serialize the
/// key twice.
#[derive(Debug)]
pub struct Starred2Album {
    pub album: AlbumId3,
}

} // verus!
