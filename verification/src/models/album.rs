//! Album models: the ID3 album, its wrappers, and the song-ful variant.

use crate::models::song::{Child, GenreItem};
use vstd::prelude::*;

verus! {

/// getAlbumList2 data: { albumList2: { album: [ AlbumID3 ] } }
/// The albums stand in an array of a wrapper object.
#[derive(Debug)]
pub struct AlbumList2Response {
    pub album_list: AlbumList2,
}

#[derive(Debug)]
pub struct AlbumList2 {
    pub album: Vec<AlbumId3>,
}

/// getAlbum data: { album: AlbumID3WithSongs }
#[derive(Debug)]
pub struct GetAlbumResponse {
    pub album: AlbumWithSongs,
}

/// AlbumID3 plus its tracks. The album fields flatten from AlbumId3, so the
/// two share one field set; `song` carries the tracks in track order.
#[derive(Debug)]
pub struct AlbumWithSongs {
    pub album: AlbumId3,
    pub song: Vec<Child>,
}

/// getAlbumList data: { albumList: { album: [ Album ] } } (v1 legacy shapes)
#[derive(Debug)]
pub struct AlbumListResponse {
    pub album_list: AlbumList,
}

#[derive(Debug)]
pub struct AlbumList {
    pub album: Vec<Album>,
}

/// Legacy Album element (getAlbumList v1, search2): AlbumID3 without the
/// name aliases.
#[derive(Debug)]
pub struct Album {
    pub id: String,
    pub name: String,
    pub artist: String,
    pub artist_id: String,
    pub cover_art: Option<String>,
    pub song_count: Option<u32>,
    pub duration: Option<u32>,
    pub play_count: u32,
    pub created: Option<String>,
    pub year: Option<u32>,
    pub genre: Option<String>,
    pub genres: Option<Vec<GenreItem>>,
}

impl From<AlbumId3> for Album {
    fn from(a: AlbumId3) -> (r: Self)
        ensures
            r.id == a.id,
            r.name == a.name,
            r.artist == a.artist,
            r.artist_id == a.artist_id,
            r.cover_art == a.cover_art,
            r.song_count == a.song_count,
            r.duration == a.duration,
            r.play_count == a.play_count,
            r.created == a.created,
            r.year == a.year,
            r.genre == a.genre,
            r.genres == a.genres,
    {
        Album {
            id: a.id,
            name: a.name,
            artist: a.artist,
            artist_id: a.artist_id,
            cover_art: a.cover_art,
            song_count: a.song_count,
            duration: a.duration,
            play_count: a.play_count,
            created: a.created,
            year: a.year,
            genre: a.genre,
            genres: a.genres,
        }
    }
}

impl vstd::std_specs::convert::FromSpecImpl<AlbumId3> for Album {
    open spec fn obeys_from_spec() -> bool {
        true
    }

    open spec fn from_spec(a: AlbumId3) -> Self {
        Album {
            id: a.id,
            name: a.name,
            artist: a.artist,
            artist_id: a.artist_id,
            cover_art: a.cover_art,
            song_count: a.song_count,
            duration: a.duration,
            play_count: a.play_count,
            created: a.created,
            year: a.year,
            genre: a.genre,
            genres: a.genres,
        }
    }
}

/// getAlbumInfo / getAlbumInfo2 data. Tidal has no album notes and no
/// external ids, so only the artwork is real; notes, musicBrainzId, and
/// lastFmUrl stay empty and are omitted.
#[derive(Debug)]
pub struct AlbumInfoResponse {
    pub album_info: AlbumInfo,
}

#[derive(Debug)]
pub struct AlbumInfo2Response {
    pub album_info: AlbumInfo,
}

#[derive(Debug)]
pub struct AlbumInfo {
    pub notes: String,
    pub music_brainz_id: String,
    pub last_fm_url: String,
    pub small_image_url: Option<String>,
    pub medium_image_url: Option<String>,
    pub large_image_url: Option<String>,
}

#[derive(Debug)]
pub struct AlbumId3 {
    pub id: String,
    /// Aliases for older clients: all three hold the name.
    pub album: String,
    pub title: String,
    pub name: String,
    pub artist: String,
    pub artist_id: String,
    pub cover_art: Option<String>,
    pub song_count: Option<u32>,
    pub duration: Option<u32>,
    /// How often the album was played.
    pub play_count: u32,
    pub created: Option<String>,
    pub year: Option<u32>,
    pub genre: Option<String>,
    pub genres: Option<Vec<GenreItem>>,
    /// OpenSubsonic explicitStatus mirrors the release's `explicit` flag;
    /// omitted when the API payload carries no flag.
    pub explicit_status: Option<String>,
    /// OpenSubsonic extensions: releaseTypes carries Album/EP/Single, and
    /// isCompilation marks guest-appearance compilations. Both omit when
    /// unknown.
    pub is_compilation: Option<bool>,
    pub release_types: Option<Vec<String>>,
    /// Favorite time (OpenSubsonic 1.16.5 renamed the deprecated `starred`
    /// to `starredAt`); present only on albums from favorites lists.
    pub starred: Option<String>,
    pub starred_at: Option<String>,
}

} // verus!
