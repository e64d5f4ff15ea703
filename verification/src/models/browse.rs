//! Browsing models: the library index (getIndexes/getArtists) and the
//! directory listing (getMusicDirectory).

use crate::models::song::{Child, GenreItem, ReplayGain};
use vstd::prelude::*;

verus! {

/// getIndexes data: { indexes: Indexes }
#[derive(Debug)]
pub struct IndexesResponse {
    pub indexes: Indexes,
}

#[derive(Debug)]
pub struct Indexes {
    pub ignored_articles: &'static str,
    pub index: Vec<IndexGroup>,
    /// Virtual-folder shortcuts and root-level songs: this server has
    /// neither, so both stay empty and are omitted.
    pub shortcut: Vec<IndexShortcut>,
    pub child: Vec<DirectoryChild>,
    pub last_modified: i64,
}

/// getArtists data: { artists: Artists }
#[derive(Debug)]
pub struct ArtistsResponse {
    pub artists: Artists,
}

#[derive(Debug)]
pub struct Artists {
    pub ignored_articles: &'static str,
    pub index: Vec<IndexGroup>,
}

/// One letter group of the index: index["A"] = { name: "A", artist: [...] }
#[derive(Debug)]
pub struct IndexGroup {
    pub name: String,
    pub artist: Vec<IndexArtist>,
}

/// An artist inside the index. getIndexes carries the favorite time in
/// starred; getArtists serves the same shape without it.
#[derive(Debug)]
pub struct IndexArtist {
    pub id: String,
    pub name: String,
    pub cover_art: Option<String>,
    pub album_count: Option<u32>,
    pub starred: Option<String>,
}

/// Virtual-folder shortcuts (podcasts, audiobooks). This server has none,
/// so the list stays empty and is omitted.
#[derive(Debug)]
pub struct IndexShortcut {
    pub id: String,
    pub name: String,
}

/// getMusicDirectory data: { directory: Directory }
#[derive(Debug)]
pub struct DirectoryResponse {
    pub directory: Directory,
}

#[derive(Debug)]
pub struct Directory {
    pub id: String,
    pub name: String,
    pub child: Vec<DirectoryChild>,
}

/// One directory entry: a subdirectory (artist or album) or a song. Both
/// share the element type; songs fill the media fields, directories stay
/// minimal.
#[derive(Debug)]
pub struct DirectoryChild {
    pub id: String,
    pub parent: String,
    pub is_dir: bool,
    pub is_video: bool,
    pub title: String,
    pub album: String,
    pub artist: String,
    pub track: Option<u32>,
    pub year: Option<u32>,
    pub genre: Option<String>,
    pub genres: Option<Vec<GenreItem>>,
    pub explicit_status: Option<String>,
    pub cover_art: Option<String>,
    pub duration: Option<u32>,
    pub disc_number: Option<u32>,
    pub album_id: Option<String>,
    pub artist_id: Option<String>,
    pub kind: Option<&'static str>,
    pub content_type: Option<&'static str>,
    pub suffix: Option<&'static str>,
    pub size: Option<u64>,
    pub path: Option<String>,
    pub created: Option<String>,
    pub song_count: Option<u32>,
    /// OpenSubsonic ReplayGain, same shape as a song child so the player
    /// applies normalization also when the queue came from a directory.
    pub replay_gain: Option<ReplayGain>,
}

/// A song as an entry of a directory: a song fills every field, a directory stays minimal.
pub open spec fn entry_of(s: Child) -> DirectoryChild {
    DirectoryChild {
        id: s.id,
        parent: s.parent,
        is_dir: s.is_dir,
        is_video: s.is_video,
        title: s.title,
        album: s.album,
        artist: s.artist,
        track: Some(s.track),
        year: s.year,
        genre: s.genre,
        genres: s.genres,
        explicit_status: s.explicit_status,
        cover_art: s.cover_art,
        duration: Some(s.duration),
        disc_number: s.disc_number,
        album_id: Some(s.album_id),
        artist_id: Some(s.artist_id),
        kind: Some(s.kind),
        content_type: Some(s.content_type),
        suffix: Some(s.suffix),
        size: Some(s.size),
        path: Some(s.path),
        created: Some(s.created),
        song_count: None,
        replay_gain: Some(s.replay_gain),
    }
}

impl DirectoryChild {
    /// A song as an entry of a directory.
    pub fn from(s: Child) -> (r: DirectoryChild)
        ensures
            r == entry_of(s),
            r.id == s.id,
            r.parent == s.parent,
            r.is_dir == s.is_dir,
            r.is_video == s.is_video,
            r.title == s.title,
            r.album == s.album,
            r.artist == s.artist,
            r.track == Some(s.track),
            r.year == s.year,
            r.genre == s.genre,
            r.genres == s.genres,
            r.explicit_status == s.explicit_status,
            r.cover_art == s.cover_art,
            r.duration == Some(s.duration),
            r.disc_number == s.disc_number,
            r.album_id == Some(s.album_id),
            r.artist_id == Some(s.artist_id),
            r.kind == Some(s.kind),
            r.content_type == Some(s.content_type),
            r.suffix == Some(s.suffix),
            r.size == Some(s.size),
            r.path == Some(s.path),
            r.created == Some(s.created),
            r.song_count is None,
            r.replay_gain == Some(s.replay_gain),
    {
        DirectoryChild {
            id: s.id,
            parent: s.parent,
            is_dir: s.is_dir,
            is_video: s.is_video,
            title: s.title,
            album: s.album,
            artist: s.artist,
            track: Some(s.track),
            year: s.year,
            genre: s.genre,
            genres: s.genres,
            explicit_status: s.explicit_status,
            cover_art: s.cover_art,
            duration: Some(s.duration),
            disc_number: s.disc_number,
            album_id: Some(s.album_id),
            artist_id: Some(s.artist_id),
            kind: Some(s.kind),
            content_type: Some(s.content_type),
            suffix: Some(s.suffix),
            size: Some(s.size),
            path: Some(s.path),
            created: Some(s.created),
            song_count: None,
            replay_gain: Some(s.replay_gain),
        }
    }
}

/// An entry of a directory carries the facts of its song, each under its own name.
pub proof fn law_an_entry_carries_the_facts_of_its_song(s: Child)
    ensures
        entry_of(s).id == s.id,
        entry_of(s).parent == s.parent,
        entry_of(s).is_dir == s.is_dir,
        entry_of(s).is_video == s.is_video,
        entry_of(s).title == s.title,
        entry_of(s).album == s.album,
        entry_of(s).artist == s.artist,
        entry_of(s).track == Some(s.track),
        entry_of(s).year == s.year,
        entry_of(s).genre == s.genre,
        entry_of(s).genres == s.genres,
        entry_of(s).explicit_status == s.explicit_status,
        entry_of(s).cover_art == s.cover_art,
        entry_of(s).duration == Some(s.duration),
        entry_of(s).disc_number == s.disc_number,
        entry_of(s).album_id == Some(s.album_id),
        entry_of(s).artist_id == Some(s.artist_id),
        entry_of(s).kind == Some(s.kind),
        entry_of(s).content_type == Some(s.content_type),
        entry_of(s).suffix == Some(s.suffix),
        entry_of(s).size == Some(s.size),
        entry_of(s).path == Some(s.path),
        entry_of(s).created == Some(s.created),
        entry_of(s).song_count is None,
        entry_of(s).replay_gain == Some(s.replay_gain),
{
}

} // verus!
