//! Playlist models.

use crate::models::song::Child;
use vstd::prelude::*;

verus! {

/// getPlaylists data: { playlists: { playlist: [ Playlist ] } }
#[derive(Debug)]
pub struct PlaylistsResponse {
    pub playlists: Playlists,
}

#[derive(Debug)]
pub struct Playlists {
    pub playlist: Vec<Playlist>,
}

/// Subsonic playlist. Tidal ids are UUIDs; Subsonic keeps them opaque.
#[derive(Debug)]
pub struct Playlist {
    pub id: String,
    pub name: String,
    pub comment: Option<String>,
    pub owner: Option<String>,
    pub public: bool,
    pub song_count: Option<u32>,
    pub duration: Option<u32>,
    pub created: Option<String>,
    pub changed: Option<String>,
    pub cover_art: Option<String>,
}

/// getPlaylist data: { playlist: { ...Playlist fields, entry: [ Child ] } }
#[derive(Debug)]
pub struct GetPlaylistResponse {
    pub playlist: PlaylistWithSongs,
}

#[derive(Debug)]
pub struct PlaylistWithSongs {
    pub playlist: Playlist,
    pub entry: Vec<Child>,
}

} // verus!
