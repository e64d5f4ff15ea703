//! Favourites: the lists of them, and making and unmaking them.

use crate::handlers::{numbered, read_number, Failure};
use crate::ids;
use crate::ids::{decoded, IdKind};
use crate::json;
use crate::json::{field, string, Json};
use crate::models::album::AlbumId3;
use crate::models::artist::ArtistId3;
use crate::models::favorites::{Starred, Starred2, Starred2Album, Starred2Artist, StarredAlbum,
    StarredArtist};
use crate::models::song::Child;
use crate::params::QueryParams;
use crate::text::{opt_text, texts};
use vstd::prelude::*;

verus! {

/// The time that an entry of the favourites was made.
pub open spec fn created_in(entry: Json) -> Option<Seq<char>> {
    string(field(entry, "created"@))
}

/// Reads the time that an entry of the favourites was made.
fn read_created(entry: &Json) -> (r: Option<String>)
    ensures
        opt_text(r) == created_in(*entry),
        r is Some ==> string(field(*entry, "created"@)) == Some(r->0@),
        r is None <==> string(field(*entry, "created"@)) is None,
{
    match json::as_str(entry.get("created")) {
        Some(s) => Some(s.to_owned()),
        None => None,
    }
}

/// A song among the favourites, with the time that it became one.
pub open spec fn is_favorite(r: Child, song: Child, created: Option<Seq<char>>) -> bool {
    &&& r == (Child { created: r.created, starred: r.starred, starred_at: r.starred_at, ..song })
    &&& r.created@ == (match created {
        Some(t) => t,
        None => Seq::empty(),
    })
    &&& opt_text(r.starred) == created
    &&& opt_text(r.starred_at) == created
}

/// The songs of the favourites, each with the time that it became one; `songs` are the songs of
/// the entries, none for an entry that is no song.
pub fn favorite_track_songs(entries: &Vec<Json>, songs: Vec<Option<Child>>) -> (r: Vec<Child>)
    requires
        entries@.len() == songs@.len(),
    ensures
        is_favorites(r@, entries@, songs@),
{
    let ghost all = songs@;
    let len: usize = entries.len();
    let mut out: Vec<Child> = Vec::new();
    let mut i: usize = 0;
    assert(all.take(0) =~= Seq::empty());
    for s in it: songs
        invariant
            it.seq() == all,
            i == it.index(),
            all.len() == entries@.len(),
            all.len() == len,
            is_favorites(out@, entries@, all.take(i as int)),
    {
        assert(all.take(i + 1).drop_last() =~= all.take(i as int));
        assert(all.take(i + 1).last() == s);
        let ghost before = out@;
        if let Some(song) = s {
            let mut f = song;
            f.created = match read_created(&entries[i]) {
                Some(t) => t,
                None => String::new(),
            };
            f.starred = read_created(&entries[i]);
            f.starred_at = read_created(&entries[i]);
            assert(is_favorite(f, song, created_in(entries@[i as int])));
            out.push(f);
            assert(out@.drop_last() =~= before);
        }
        i += 1;
    }
    assert(all.take(all.len() as int) =~= all);
    out
}

/// The songs of these entries, each with the time that it became a favourite.
pub open spec fn is_favorites(r: Seq<Child>, entries: Seq<Json>, songs: Seq<Option<Child>>) -> bool
    decreases songs.len(),
{
    if songs.len() == 0 {
        r.len() == 0
    } else {
        match songs.last() {
            Some(s) => {
                &&& r.len() > 0
                &&& is_favorite(r.last(), s, created_in(entries[songs.len() - 1]))
                &&& is_favorites(r.drop_last(), entries, songs.drop_last())
            },
            None => is_favorites(r, entries, songs.drop_last()),
        }
    }
}

/// An album among the favourites in the older shape: a directory in that of its artist.
pub fn starred_album(a: AlbumId3) -> (r: StarredAlbum)
    ensures
        r.album == a,
        r.parent == a.artist_id,
        r.is_dir,
{
    StarredAlbum { parent: a.artist_id.clone(), is_dir: true, album: a }
}

/// An artist among the favourites, with the time of becoming one, and with the cover as picture.
pub open spec fn is_starred_artist(r: Starred2Artist, a: ArtistId3, entry: Json) -> bool {
    &&& r.artist == (ArtistId3 {
        starred: r.artist.starred,
        starred_at: r.artist.starred_at,
        artist_image_url: a.cover_art,
        ..a
    })
    &&& opt_text(r.artist.starred) == created_in(entry)
    &&& opt_text(r.artist.starred_at) == created_in(entry)
}

/// An artist among the favourites, with the time of becoming one, and with the cover as picture.
pub fn starred2_artist(a: ArtistId3, entry: &Json) -> (r: Starred2Artist)
    ensures
        is_starred_artist(r, a, *entry),
        r.artist.id == a.id,
        r.artist.name == a.name,
        r.artist.cover_art == a.cover_art,
        r.artist.album_count == a.album_count,
        r.artist.artist_image_url == a.cover_art,
        string(field(*entry, "created"@)) is Some ==> r.artist.starred is Some && r.artist.starred->0@
            == string(field(*entry, "created"@))->0 && r.artist.starred_at is Some
            && r.artist.starred_at->0@ == string(field(*entry, "created"@))->0,
        string(field(*entry, "created"@)) is None ==> r.artist.starred is None && r.artist.starred_at
            is None,
{
    let mut artist = a;
    artist.starred = read_created(entry);
    artist.starred_at = read_created(entry);
    artist.artist_image_url = match &artist.cover_art {
        Some(c) => Some(c.clone()),
        None => None,
    };
    Starred2Artist { artist }
}

/// The artists of these entries, each with the time of becoming a favourite.
pub open spec fn is_starred_artists(
    r: Seq<Starred2Artist>,
    entries: Seq<Json>,
    artists: Seq<Option<ArtistId3>>,
) -> bool
    decreases artists.len(),
{
    if artists.len() == 0 {
        r.len() == 0
    } else {
        match artists.last() {
            Some(a) => {
                &&& r.len() > 0
                &&& is_starred_artist(r.last(), a, entries[artists.len() - 1])
                &&& is_starred_artists(r.drop_last(), entries, artists.drop_last())
            },
            None => is_starred_artists(r, entries, artists.drop_last()),
        }
    }
}

/// Puts together the favourite artists.
fn starred2_artists(entries: &Vec<Json>, artists: Vec<Option<ArtistId3>>) -> (r: Vec<Starred2Artist>)
    requires
        entries@.len() == artists@.len(),
    ensures
        is_starred_artists(r@, entries@, artists@),
{
    let ghost all = artists@;
    let len: usize = entries.len();
    let mut out: Vec<Starred2Artist> = Vec::new();
    let mut i: usize = 0;
    assert(all.take(0) =~= Seq::empty());
    for a in it: artists
        invariant
            it.seq() == all,
            i == it.index(),
            all.len() == entries@.len(),
            all.len() == len,
            is_starred_artists(out@, entries@, all.take(i as int)),
    {
        assert(all.take(i + 1).drop_last() =~= all.take(i as int));
        assert(all.take(i + 1).last() == a);
        let ghost before = out@;
        if let Some(artist) = a {
            out.push(starred2_artist(artist, &entries[i]));
            assert(out@.drop_last() =~= before);
        }
        i += 1;
    }
    assert(all.take(all.len() as int) =~= all);
    out
}

/// The favourites in the older shape.
pub fn get_starred(artist: Vec<StarredArtist>, albums: Vec<AlbumId3>, song: Vec<Child>) -> (r: Starred)
    ensures
        r.artist == artist,
        r.song == song,
        r.album@.len() == albums@.len(),
        forall|i: int|
            0 <= i < albums@.len() ==> #[trigger] r.album@[i] == (StarredAlbum {
                parent: albums@[i].artist_id,
                is_dir: true,
                album: albums@[i],
            }),
{
    let ghost all = albums@;
    let mut album: Vec<StarredAlbum> = Vec::new();
    for a in it: albums
        invariant
            it.seq() == all,
            album@.len() == it.index(),
            forall|i: int|
                0 <= i < album@.len() ==> #[trigger] album@[i] == (StarredAlbum {
                    parent: all[i].artist_id,
                    is_dir: true,
                    album: all[i],
                }),
    {
        album.push(starred_album(a));
    }
    Starred { artist, album, song }
}

/// The favourites in the newer shape; `artists` are the artists of the entries, none for an
/// entry that is no artist.
pub fn get_starred2(
    entries: &Vec<Json>,
    artists: Vec<Option<ArtistId3>>,
    albums: Vec<AlbumId3>,
    song: Vec<Child>,
) -> (r: Starred2)
    requires
        entries@.len() == artists@.len(),
    ensures
        is_starred_artists(r.artist@, entries@, artists@),
        r.album@ == albums@.map_values(|a: AlbumId3| Starred2Album { album: a }),
        r.song == song,
        r.album@.len() == albums@.len(),
        forall|i: int| 0 <= i < albums@.len() ==> (#[trigger] r.album@[i]).album == albums@[i],
{
    let ghost all = albums@;
    let mut album: Vec<Starred2Album> = Vec::new();
    for a in it: albums
        invariant
            it.seq() == all,
            album@.len() == it.index(),
            forall|i: int| 0 <= i < album@.len() ==> (#[trigger] album@[i]).album == all[i],
    {
        album.push(Starred2Album { album: a });
    }
    assert(album@ =~= all.map_values(|a: AlbumId3| Starred2Album { album: a }));
    Starred2 { artist: starred2_artists(entries, artists), album, song }
}

/// The tracks, the albums and the artists that a request names.
pub type IdPartition = (Vec<u64>, Vec<u64>, Vec<u64>);

/// What an identifier of any kind names; a bare number is that of a track.
pub open spec fn named(id: Seq<char>) -> Option<(IdKind, nat)> {
    match numbered(IdKind::Track, id) {
        Some(n) => Some((IdKind::Track, n)),
        None => match decoded(IdKind::Album, id) {
            Some(n) => Some((IdKind::Album, n)),
            None => match decoded(IdKind::Artist, id) {
                Some(n) => Some((IdKind::Artist, n)),
                None => None,
            },
        },
    }
}

/// The things of one kind that these identifiers name.
pub open spec fn named_of(v: Seq<Seq<char>>, kind: IdKind) -> Seq<u64>
    decreases v.len(),
{
    if v.len() == 0 {
        Seq::empty()
    } else {
        match named(v.last()) {
            Some((k, n)) => if k == kind {
                named_of(v.drop_last(), kind).push(n as u64)
            } else {
                named_of(v.drop_last(), kind)
            },
            None => named_of(v.drop_last(), kind),
        }
    }
}

/// Every identifier names something.
pub open spec fn all_named(v: Seq<Seq<char>>) -> bool {
    forall|i: int| 0 <= i < v.len() ==> named(#[trigger] v[i]) is Some
}

/// Every identifier names something of this kind.
pub open spec fn all_numbered(v: Seq<Seq<char>>, kind: IdKind) -> bool {
    forall|i: int| 0 <= i < v.len() ==> numbered(kind, #[trigger] v[i]) is Some
}

/// The things of a kind that these identifiers name.
pub open spec fn numbers_of(v: Seq<Seq<char>>, kind: IdKind) -> Seq<u64> {
    v.map_values(|s: Seq<char>| numbered(kind, s)->0 as u64)
}

/// Reads identifiers of one kind, up to the first that names nothing.
fn read_all(v: &Vec<String>, kind: IdKind) -> (r: Option<Vec<u64>>)
    ensures
        match r {
            Some(n) => all_numbered(texts(v@), kind) && n@ == numbers_of(texts(v@), kind),
            None => !all_numbered(texts(v@), kind),
        },
        r is Some ==> r->0@.len() == v@.len() && forall|i: int|
            0 <= i < v@.len() ==> numbered(kind, v@[i]@) == Some(#[trigger] r->0@[i] as nat),
{
    let ghost all = texts(v@);
    let mut out: Vec<u64> = Vec::new();
    let mut i: usize = 0;
    while i < v.len()
        invariant
            i <= v@.len(),
            all == texts(v@),
            forall|j: int| 0 <= j < i ==> numbered(kind, #[trigger] all[j]) is Some,
            out@ =~= numbers_of(all.take(i as int), kind),
        decreases v@.len() - i,
    {
        assert(all[i as int] == v@[i as int]@);
        assert(all.take(i + 1) =~= all.take(i as int).push(all[i as int]));
        match read_number(kind, v[i].as_str()) {
            Some(n) => out.push(n),
            None => {
                return None;
            },
        }
        i += 1;
    }
    assert(all.take(all.len() as int) =~= all);
    proof {
        assert forall|j: int| 0 <= j < v@.len() implies numbered(kind, v@[j]@) == Some(
            #[trigger] out@[j] as nat,
        ) by {
            assert(numbered(kind, all[j]) is Some);
            assert(all[j] == v@[j]@);
        }
    }
    Some(out)
}

/// Parts the identifiers of a request into tracks, albums and artists. A bare number is that of
/// a track, or of an album or an artist where the parameter is one for them. The first
/// identifier that names nothing is refused.
pub fn partition_ids(q: &QueryParams) -> (r: Result<IdPartition, &'static str>)
    ensures
        ({
            let ids = texts(q.id.0@);
            let album_ids = texts(q.album_id.0@);
            let artist_ids = texts(q.artist_id.0@);
            match r {
                Ok((tracks, albums, artists)) => {
                    &&& all_named(ids)
                    &&& all_numbered(album_ids, IdKind::Album)
                    &&& all_numbered(artist_ids, IdKind::Artist)
                    &&& tracks@ == named_of(ids, IdKind::Track)
                    &&& albums@ == named_of(ids, IdKind::Album) + numbers_of(
                        album_ids,
                        IdKind::Album,
                    )
                    &&& artists@ == named_of(ids, IdKind::Artist) + numbers_of(
                        artist_ids,
                        IdKind::Artist,
                    )
                },
                Err(m) => if !all_named(ids) {
                    m@ == "Not found"@
                } else if !all_numbered(album_ids, IdKind::Album) {
                    m@ == "Album not found"@
                } else {
                    !all_numbered(artist_ids, IdKind::Artist) && m@ == "Artist not found"@
                },
            }
        }),
        r is Ok ==> {
            let (tracks, albums, artists) = r->Ok_0;
            &&& tracks@.len() + albums@.len() + artists@.len() == q.id.0@.len() + q.album_id.0@.len()
                + q.artist_id.0@.len()
            &&& forall|i: int|
                0 <= i < q.album_id.0@.len() ==> numbered(IdKind::Album, q.album_id.0@[i]@) == Some(
                    #[trigger] albums@[albums@.len() - q.album_id.0@.len() + i] as nat,
                )
            &&& forall|i: int|
                0 <= i < q.artist_id.0@.len() ==> numbered(IdKind::Artist, q.artist_id.0@[i]@) == Some(
                    #[trigger] artists@[artists@.len() - q.artist_id.0@.len() + i] as nat,
                )
        },
{
    let mut tracks: Vec<u64> = Vec::new();
    let mut albums: Vec<u64> = Vec::new();
    let mut artists: Vec<u64> = Vec::new();
    let ghost all = texts(q.id.0@);
    let mut i: usize = 0;
    assert(all.take(0) =~= Seq::empty());
    while i < q.id.0.len()
        invariant
            i <= q.id.0@.len(),
            all == texts(q.id.0@),
            forall|j: int| 0 <= j < i ==> named(#[trigger] all[j]) is Some,
            tracks@ == named_of(all.take(i as int), IdKind::Track),
            albums@ == named_of(all.take(i as int), IdKind::Album),
            artists@ == named_of(all.take(i as int), IdKind::Artist),
            tracks@.len() + albums@.len() + artists@.len() == i,
        decreases q.id.0@.len() - i,
    {
        let id = q.id.0[i].as_str();
        assert(all.take(i + 1).drop_last() =~= all.take(i as int));
        assert(all.take(i + 1).last() == id@);
        assert(all[i as int] == id@);
        if let Some(n) = read_number(IdKind::Track, id) {
            tracks.push(n);
        } else if let Some(n) = ids::decode(IdKind::Album, id) {
            albums.push(n);
        } else if let Some(n) = ids::decode(IdKind::Artist, id) {
            artists.push(n);
        } else {
            assert(named(all[i as int]) is None);
            return Err("Not found");
        }
        i += 1;
    }
    assert(all.take(all.len() as int) =~= all);
    match read_all(&q.album_id.0, IdKind::Album) {
        Some(mut more) => {
            albums.append(&mut more);
        },
        None => {
            return Err("Album not found");
        },
    }
    match read_all(&q.artist_id.0, IdKind::Artist) {
        Some(mut more) => {
            artists.append(&mut more);
        },
        None => {
            return Err("Artist not found");
        },
    }
    Ok((tracks, albums, artists))
}

/// Things of one kind, each with its kind.
pub open spec fn of_kind(kind: IdKind, v: Seq<u64>) -> Seq<(IdKind, u64)> {
    v.map_values(|n: u64| (kind, n))
}

/// Adds things of one kind to a list.
fn push_kind(out: &mut Vec<(IdKind, u64)>, kind: IdKind, v: &Vec<u64>)
    ensures
        final(out)@ == old(out)@ + of_kind(kind, v@),
{
    let ghost before = out@;
    let mut i: usize = 0;
    assert(of_kind(kind, v@.take(0)) =~= Seq::empty());
    while i < v.len()
        invariant
            i <= v@.len(),
            out@ == before + of_kind(kind, v@.take(i as int)),
        decreases v@.len() - i,
    {
        out.push((kind, v[i]));
        assert(out@ =~= before + of_kind(kind, v@.take(i + 1)));
        i += 1;
    }
    assert(v@.take(v@.len() as int) =~= v@);
}

/// What a request makes or unmakes a favourite, in the order in which it is done: the tracks, the
/// albums, the artists. The first that fails ends it.
pub fn set_starred(q: &QueryParams) -> (r: Result<Vec<(IdKind, u64)>, Failure>)
    ensures
        ({
            let ids = texts(q.id.0@);
            let album_ids = texts(q.album_id.0@);
            let artist_ids = texts(q.artist_id.0@);
            if !all_named(ids) {
                r matches Err(f) && f.is(70, "Not found"@)
            } else if !all_numbered(album_ids, IdKind::Album) {
                r matches Err(f) && f.is(70, "Album not found"@)
            } else if !all_numbered(artist_ids, IdKind::Artist) {
                r matches Err(f) && f.is(70, "Artist not found"@)
            } else {
                r matches Ok(v) && v@ == of_kind(
                    IdKind::Track,
                    named_of(ids, IdKind::Track),
                ) + of_kind(
                    IdKind::Album,
                    named_of(ids, IdKind::Album) + numbers_of(album_ids, IdKind::Album),
                ) + of_kind(
                    IdKind::Artist,
                    named_of(ids, IdKind::Artist) + numbers_of(artist_ids, IdKind::Artist),
                )
            }
        }),
        q.id.0@.len() == 0 && q.artist_id.0@.len() == 0 && r is Ok ==> r->Ok_0@.len()
            == q.album_id.0@.len() && forall|i: int|
            0 <= i < r->Ok_0@.len() ==> (#[trigger] r->Ok_0@[i]).0 == IdKind::Album,
        q.id.0@.len() == 0 && q.album_id.0@.len() == 0 && r is Ok ==> r->Ok_0@.len()
            == q.artist_id.0@.len() && forall|i: int|
            0 <= i < r->Ok_0@.len() ==> (#[trigger] r->Ok_0@[i]).0 == IdKind::Artist,
        r is Ok ==> r->Ok_0@.len() == q.id.0@.len() + q.album_id.0@.len() + q.artist_id.0@.len(),
        r is Ok ==> forall|i: int, j: int|
            0 <= i < j < r->Ok_0@.len() ==> (#[trigger] r->Ok_0@[i]).0 == (#[trigger] r->Ok_0@[j]).0
                || r->Ok_0@[i].0 == IdKind::Track || (r->Ok_0@[i].0 == IdKind::Album && r->Ok_0@[j].0
                == IdKind::Artist),
{
    let (tracks, albums, artists) = match partition_ids(q) {
        Ok(p) => p,
        Err(message) => {
            return Err(Failure { code: 70, message });
        },
    };
    let mut out: Vec<(IdKind, u64)> = Vec::new();
    push_kind(&mut out, IdKind::Track, &tracks);
    assert(out@ =~= of_kind(IdKind::Track, tracks@));
    push_kind(&mut out, IdKind::Album, &albums);
    push_kind(&mut out, IdKind::Artist, &artists);
    Ok(out)
}

/// What is answered where a favourite could not be made or unmade.
pub fn toggle_failed(starred: bool) -> (r: Failure)
    ensures
        r.is(
            0,
            if starred {
                "Star failed"@
            } else {
                "Unstar failed"@
            },
        ),
        r.code == 0,
        starred ==> r.message@ == "Star failed"@,
        !starred ==> r.message@ == "Unstar failed"@,
{
    Failure {
        code: 0,
        message: if starred {
            "Star failed"
        } else {
            "Unstar failed"
        },
    }
}

/// A favourite song is the song with the time that it became one, as the time it was made and as
/// both forms of the time it was marked; everything else stays.
pub proof fn law_a_favorite_is_the_song_with_its_time(r: Child, song: Child, created: Option<Seq<char>>)
    requires
        is_favorite(r, song, created),
    ensures
        r.id == song.id,
        r.parent == song.parent,
        r.is_dir == song.is_dir,
        r.is_video == song.is_video,
        r.title == song.title,
        r.album == song.album,
        r.artist == song.artist,
        r.track == song.track,
        r.year == song.year,
        r.genre == song.genre,
        r.genres == song.genres,
        r.cover_art == song.cover_art,
        r.duration == song.duration,
        r.bit_rate == song.bit_rate,
        r.bit_depth == song.bit_depth,
        r.sampling_rate == song.sampling_rate,
        r.channel_count == song.channel_count,
        r.disc_number == song.disc_number,
        r.album_id == song.album_id,
        r.artist_id == song.artist_id,
        r.artists == song.artists,
        r.isrc == song.isrc,
        r.kind == song.kind,
        r.content_type == song.content_type,
        r.suffix == song.suffix,
        r.size == song.size,
        r.path == song.path,
        r.explicit_status == song.explicit_status,
        r.replay_gain == song.replay_gain,
        created is Some ==> r.created@ == created->0 && r.starred is Some && r.starred->0@ == created->0
            && r.starred_at is Some && r.starred_at->0@ == created->0,
        created is None ==> r.created@.len() == 0 && r.starred is None && r.starred_at is None,
{
}

/// The songs of the favourites are those of the entries, in their order, each with the time of its
/// own entry; an entry without a song gives none.
pub proof fn law_favorites_follow_their_entries(
    r: Seq<Child>,
    entries: Seq<Json>,
    songs: Seq<Option<Child>>,
    f: Child,
    s: Child,
)
    requires
        songs.len() < entries.len(),
    ensures
        is_favorites(Seq::empty(), entries, Seq::empty()),
        is_favorites(r, entries, songs.push(None)) <==> is_favorites(r, entries, songs),
        is_favorites(r.push(f), entries, songs.push(Some(s))) <==> is_favorites(r, entries, songs)
            && is_favorite(f, s, string(field(entries[songs.len() as int], "created"@))),
{
    assert(songs.push(None).drop_last() =~= songs);
    assert(songs.push(Some(s)).drop_last() =~= songs);
    assert(r.push(f).drop_last() =~= r);
}

/// The artists of the favourites are those of the entries, in their order, each with the time of
/// its own entry and with the cover as picture; an entry without an artist gives none.
pub proof fn law_favorite_artists_follow_their_entries(
    r: Seq<Starred2Artist>,
    entries: Seq<Json>,
    artists: Seq<Option<ArtistId3>>,
    f: Starred2Artist,
    a: ArtistId3,
)
    requires
        artists.len() < entries.len(),
    ensures
        is_starred_artists(Seq::empty(), entries, Seq::empty()),
        is_starred_artists(r, entries, artists.push(None)) <==> is_starred_artists(
            r,
            entries,
            artists,
        ),
        is_starred_artists(r.push(f), entries, artists.push(Some(a))) ==> {
            let created = string(field(entries[artists.len() as int], "created"@));
            &&& is_starred_artists(r, entries, artists)
            &&& f.artist.id == a.id
            &&& f.artist.name == a.name
            &&& f.artist.cover_art == a.cover_art
            &&& f.artist.album_count == a.album_count
            &&& f.artist.artist_image_url == a.cover_art
            &&& created is Some ==> f.artist.starred is Some && f.artist.starred->0@ == created->0
                && f.artist.starred_at is Some && f.artist.starred_at->0@ == created->0
            &&& created is None ==> f.artist.starred is None && f.artist.starred_at is None
        },
{
    assert(artists.push(None).drop_last() =~= artists);
    assert(artists.push(Some(a)).drop_last() =~= artists);
    assert(r.push(f).drop_last() =~= r);
}

/// An identifier names the thing that it was written for, and a bare number a track.
pub proof fn law_identifiers_name_their_things(n: u64)
    ensures
        named(ids::encoded(IdKind::Track, n as nat)) == Some((IdKind::Track, n as nat)),
        named(ids::encoded(IdKind::Album, n as nat)) == Some((IdKind::Album, n as nat)),
        named(ids::encoded(IdKind::Artist, n as nat)) == Some((IdKind::Artist, n as nat)),
        named(ids::encoded(IdKind::Playlist, n as nat)) is None,
        named(crate::text::decimal(n as nat)) == Some((IdKind::Track, n as nat)),
{
    crate::handlers::law_things_are_found_by_identifier_and_by_number(
        IdKind::Track,
        n,
        IdKind::Album,
    );
    crate::handlers::law_things_are_found_by_identifier_and_by_number(
        IdKind::Track,
        n,
        IdKind::Artist,
    );
    crate::handlers::law_things_are_found_by_identifier_and_by_number(
        IdKind::Track,
        n,
        IdKind::Playlist,
    );
    ids::law_decode_undoes_encode(IdKind::Album, n, IdKind::Artist);
    ids::law_decode_undoes_encode(IdKind::Artist, n, IdKind::Album);
    ids::law_decode_undoes_encode(IdKind::Playlist, n, IdKind::Album);
    ids::law_decode_undoes_encode(IdKind::Playlist, n, IdKind::Artist);
}

/// The things of a kind that identifiers name are those of each part in a row: one that names a
/// thing of the kind gives its number, any other gives nothing.
pub proof fn law_each_name_counts_for_its_kind(
    a: Seq<Seq<char>>,
    b: Seq<Seq<char>>,
    id: Seq<char>,
    kind: IdKind,
)
    ensures
        named_of(a + b, kind) == named_of(a, kind) + named_of(b, kind),
        named_of(Seq::empty(), kind).len() == 0,
        (named(id) matches Some((k, n)) && k == kind) ==> ({
            let (k, n) = named(id)->0;
            named_of(seq![id], kind) == seq![n as u64]
        }),
        !(named(id) matches Some((k, n)) && k == kind) ==> named_of(seq![id], kind).len() == 0,
    decreases b.len(),
{
    assert(seq![id].drop_last() =~= Seq::<Seq<char>>::empty());
    assert(named_of(Seq::<Seq<char>>::empty(), kind) =~= Seq::empty());
    if named(id) matches Some((k, n)) && k == kind {
        let (k, n) = named(id)->0;
        assert(named_of(seq![id], kind) =~= seq![n as u64]);
    }
    if b.len() == 0 {
        assert(a + b =~= a);
        assert(named_of(a, kind) + named_of(b, kind) =~= named_of(a, kind));
    } else {
        law_each_name_counts_for_its_kind(a, b.drop_last(), id, kind);
        assert((a + b).drop_last() =~= a + b.drop_last());
        assert((a + b).last() == b.last());
        assert(named_of(a + b, kind) =~= named_of(a, kind) + named_of(b, kind));
    }
}

} // verus!
