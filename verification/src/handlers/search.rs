//! Searching for artists, albums and songs.

use crate::handlers::{is_missing, limit, limited, missing, Failure};
use crate::lists::{page, paged};
use crate::models::album::{Album, AlbumId3};
use crate::models::artist::{Artist, ArtistId3};
use crate::models::search::{SearchResult2, SearchResult3};
use crate::models::song::Child;
use crate::params::QueryParams;
use crate::text;
use crate::text::trimmed;
use vstd::prelude::*;
use vstd::std_specs::convert::FromSpec;

verus! {

/// What a request searches for; a blank one finds nothing, and is not asked.
pub fn search_parts(q: &QueryParams) -> (r: Result<Option<String>, Failure>)
    ensures
        match q.query {
            Some(s) => r matches Ok(found) && (match found {
                Some(t) => trimmed(s@).len() > 0 && t == s,
                None => trimmed(s@).len() == 0,
            }),
            None => r matches Err(f) && is_missing(f),
        },
        q.query is Some ==> r is Ok,
        q.query is Some && (exists|i: int|
            0 <= i < q.query->0@.len() && !text::is_space(#[trigger] q.query->0@[i])) ==> r->Ok_0
            == q.query,
        q.query is Some && (forall|i: int|
            0 <= i < q.query->0@.len() ==> text::is_space(#[trigger] q.query->0@[i])) ==> r->Ok_0
            is None,
{
    proof {
        if q.query is Some {
            text::law_only_blank_texts_trim_to_nothing(q.query->0@);
        }
    }
    match &q.query {
        Some(s) => if text::trim(s.as_str()).unicode_len() > 0 {
            Ok(Some(s.clone()))
        } else {
            Ok(None)
        },
        None => Err(missing()),
    }
}

/// The page of one kind of result that a request is for: twenty from the start, unless it says
/// otherwise.
pub fn section<T>(found: Vec<T>, count: Option<u32>, offset: Option<u32>) -> (r: Vec<T>)
    ensures
        r@ == paged(
            found@,
            limited(offset, 0, u32::MAX) as int,
            limited(count, 20, u32::MAX) as int,
        ),
        r@ == paged(
            found@,
            match offset {
                Some(n) => n as int,
                None => 0,
            },
            match count {
                Some(n) => n as int,
                None => 20,
            },
        ),
{
    page(found, limit(offset, 0, u32::MAX), limit(count, 20, u32::MAX))
}

/// The result of a search.
pub fn search3(artist: Vec<ArtistId3>, album: Vec<AlbumId3>, song: Vec<Child>) -> (r: SearchResult3)
    ensures
        r.artist == artist,
        r.album == album,
        r.song == song,
{
    SearchResult3 { artist, album, song }
}

/// The result of a search in the older shapes.
pub fn search2(artist: Vec<ArtistId3>, album: Vec<AlbumId3>, song: Vec<Child>) -> (r: SearchResult2)
    ensures
        r.artist@ == artist@.map_values(|a: ArtistId3| <Artist as FromSpec<ArtistId3>>::from_spec(a)),
        r.album@ == album@.map_values(|a: AlbumId3| <Album as FromSpec<AlbumId3>>::from_spec(a)),
        r.song == song,
        r.artist@.len() == artist@.len(),
        forall|i: int|
            0 <= i < artist@.len() ==> (#[trigger] r.artist@[i]).id == artist@[i].id && r.artist@[i].name
                == artist@[i].name && r.artist@[i].cover_art == artist@[i].cover_art
                && r.artist@[i].album_count == artist@[i].album_count,
        r.album@.len() == album@.len(),
        forall|i: int|
            0 <= i < album@.len() ==> (#[trigger] r.album@[i]).id == album@[i].id && r.album@[i].name
                == album@[i].name && r.album@[i].artist == album@[i].artist && r.album@[i].artist_id
                == album@[i].artist_id && r.album@[i].cover_art == album@[i].cover_art
                && r.album@[i].song_count == album@[i].song_count && r.album@[i].duration
                == album@[i].duration && r.album@[i].play_count == album@[i].play_count
                && r.album@[i].created == album@[i].created && r.album@[i].year == album@[i].year
                && r.album@[i].genre == album@[i].genre && r.album@[i].genres == album@[i].genres,
{
    let ghost all = artist@;
    let mut out: Vec<Artist> = Vec::new();
    for a in it: artist
        invariant
            it.seq() == all,
            out@ =~= all.take(it.index() as int).map_values(
                |a: ArtistId3| <Artist as FromSpec<ArtistId3>>::from_spec(a),
            ),
    {
        assert(all.take(it.index() + 1) =~= all.take(it.index() as int).push(a));
        out.push(Artist::from(a));
    }
    assert(all.take(all.len() as int) =~= all);
    SearchResult2 { artist: out, album: crate::handlers::album::legacy_albums(album), song }
}

} // verus!
