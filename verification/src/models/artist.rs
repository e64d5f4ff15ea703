//! Artist models: the ID3 artist and the artist-info response.

use crate::models::album::AlbumId3;
use vstd::prelude::*;

verus! {

/// getArtist data: { artist: ArtistWithAlbumsID3 }
#[derive(Debug)]
pub struct GetArtistResponse {
    pub artist: ArtistWithAlbums,
}

/// ArtistID3 plus its albums. The artist fields flatten from ArtistId3;
/// albumCount is the number of albums actually returned.
#[derive(Debug)]
pub struct ArtistWithAlbums {
    pub artist: ArtistId3,
    pub album: Vec<AlbumId3>,
}

/// Legacy Artist element (search2): ArtistID3 minus albumCount when absent.
#[derive(Debug)]
pub struct Artist {
    pub id: String,
    pub name: String,
    pub cover_art: Option<String>,
    pub album_count: Option<u32>,
}

impl From<ArtistId3> for Artist {
    fn from(a: ArtistId3) -> (r: Self)
        ensures
            r.id == a.id,
            r.name == a.name,
            r.cover_art == a.cover_art,
            r.album_count == a.album_count,
    {
        Artist {
            id: a.id,
            name: a.name,
            cover_art: a.cover_art,
            album_count: a.album_count,
        }
    }
}

impl vstd::std_specs::convert::FromSpecImpl<ArtistId3> for Artist {
    open spec fn obeys_from_spec() -> bool {
        true
    }

    open spec fn from_spec(a: ArtistId3) -> Self {
        Artist {
            id: a.id,
            name: a.name,
            cover_art: a.cover_art,
            album_count: a.album_count,
        }
    }
}

#[derive(Debug)]
pub struct ArtistId3 {
    pub id: String,
    pub name: String,
    pub cover_art: Option<String>,
    pub artist_image_url: Option<String>,
    pub album_count: Option<u32>,
    pub starred: Option<String>,
    pub starred_at: Option<String>,
}

/// getArtistInfo data: { artistInfo: ArtistInfoID3 }. Same payload as
/// getArtistInfo2, different wrapper name.
#[derive(Debug)]
pub struct ArtistInfoResponse {
    pub artist_info: ArtistInfo2,
}

/// getArtistInfo2 data: { artistInfo2: ArtistInfoID3 }. Images are the artist
/// portrait at three sizes; musicBrainzId is empty until Tidal
/// exposes it (artist detail carries no external links today).
#[derive(Debug)]
pub struct ArtistInfo2Response {
    pub artist_info: ArtistInfo2,
}

#[derive(Debug)]
pub struct ArtistInfo2 {
    pub biography: String,
    pub music_brainz_id: String,
    pub last_fm_url: String,
    pub small_image_url: Option<String>,
    pub medium_image_url: Option<String>,
    pub large_image_url: Option<String>,
    pub similar_artist: Vec<ArtistId3>,
}

} // verus!
