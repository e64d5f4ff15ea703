//! Playlists, the mixes among them, and genres.

use crate::handlers::{first_id, first_id_of, is_missing, missing, not_found, Failure};
use crate::ids;
use crate::ids::{track_of, IdKind};
use crate::json;
use crate::json::{field, field2, number, string, Json};
use crate::lists::{found, somes};
use crate::models::playlist::{Playlist, PlaylistWithSongs, Playlists};
use crate::models::song::Child;
use crate::models::system::Genre;
use crate::params::{number32, IdList, QueryParams};
use crate::settings::Settings;
use crate::text;
use crate::text::{after_prefix, begins, decimal, opt_text, opt_view, texts};
use crate::tidal::Error;
use vstd::prelude::*;

verus! {

/// Whether the mixes are shown among the playlists; without settings they are.
pub fn show_mixes(settings: Option<&Settings>) -> (r: bool)
    ensures
        r == (match settings {
            Some(s) => s.show_mixes,
            None => true,
        }),
{
    match settings {
        Some(s) => s.show_mixes,
        None => true,
    }
}

/// The playlist with the number of its songs, where that is known.
pub open spec fn counted(p: Playlist, count: Option<u32>) -> Playlist {
    Playlist {
        song_count: if count is Some {
            count
        } else {
            p.song_count
        },
        ..p
    }
}

/// The name of the mix that an identifier stands for.
pub fn mix_name<'a>(id: &'a str) -> (r: Option<&'a str>)
    ensures
        opt_view(r) == after_prefix(id@, "mx"@),
{
    text::strip_prefix(id, "mx")
}

/// Gives the mixes the numbers of their songs, where they are known.
pub fn fill_mix_counts(mixes: Vec<Playlist>, counts: &Vec<Option<u32>>) -> (r: Vec<Playlist>)
    requires
        mixes@.len() == counts@.len(),
    ensures
        r@.len() == mixes@.len(),
        forall|i: int| 0 <= i < r@.len() ==> #[trigger] r@[i] == counted(mixes@[i], counts@[i]),
        forall|i: int|
            0 <= i < r@.len() && counts@[i] is Some ==> (#[trigger] r@[i]).song_count == counts@[i],
        forall|i: int|
            0 <= i < r@.len() && counts@[i] is None ==> (#[trigger] r@[i]).song_count
                == mixes@[i].song_count,
        forall|i: int|
            0 <= i < r@.len() ==> (#[trigger] r@[i]).id == mixes@[i].id && r@[i].name == mixes@[i].name
                && r@[i].comment == mixes@[i].comment && r@[i].owner == mixes@[i].owner && r@[i].public
                == mixes@[i].public && r@[i].duration == mixes@[i].duration && r@[i].created
                == mixes@[i].created && r@[i].changed == mixes@[i].changed && r@[i].cover_art
                == mixes@[i].cover_art,
{
    let ghost all = mixes@;
    let len: usize = counts.len();
    let mut out: Vec<Playlist> = Vec::new();
    let mut i: usize = 0;
    for p in it: mixes
        invariant
            it.seq() == all,
            i == it.index(),
            all.len() == counts@.len(),
            all.len() == len,
            out@.len() == i,
            forall|j: int|
                0 <= j < i ==> #[trigger] out@[j] == counted(all[j], counts@[j]),
    {
        let mut mix = p;
        if let Some(n) = counts[i] {
            mix.song_count = Some(n);
        }
        out.push(mix);
        i += 1;
    }
    out
}

/// The playlists of the user, then the mixes, where they are shown and are there: that they
/// could not be fetched takes nothing from the rest.
pub fn get_playlists(
    playlists: Option<Vec<Option<Playlist>>>,
    show: bool,
    mixes: Option<Vec<Playlist>>,
) -> (r: Result<Playlists, Failure>)
    ensures
        match playlists {
            Some(v) => r matches Ok(p) && p.playlist@ == somes(v@) + (if show && mixes is Some {
                mixes->0@
            } else {
                Seq::empty()
            }),
            None => r matches Err(f) && f.is(0, "Playlists unavailable"@),
        },
{
    let mut playlist = match playlists {
        Some(v) => found(v),
        None => {
            return Err(Failure { code: 0, message: "Playlists unavailable" });
        },
    };
    if show {
        if let Some(m) = mixes {
            let mut more = m;
            playlist.append(&mut more);
        }
    }
    Ok(Playlists { playlist })
}

/// The first of the mixes with this name.
pub open spec fn mix_named(mixes: Seq<Json>, name: Seq<char>) -> Option<Json>
    decreases mixes.len(),
{
    if mixes.len() == 0 {
        None
    } else if string(field(mixes[0], "id"@)) == Some(name) {
        Some(mixes[0])
    } else {
        mix_named(mixes.drop_first(), name)
    }
}

/// Looks for a mix.
pub fn get_mix_playlist<'a>(mixes: &'a Vec<Json>, name: &str) -> (r: Result<&'a Json, Failure>)
    ensures
        match mix_named(mixes@, name@) {
            Some(m) => r matches Ok(j) && *j == m,
            None => r matches Err(f) && f.is(70, "Mix not found"@),
        },
        r is Ok <==> exists|i: int|
            0 <= i < mixes@.len() && string(field(#[trigger] mixes@[i], "id"@)) == Some(name@),
        r is Ok ==> exists|i: int|
            0 <= i < mixes@.len() && *r->Ok_0 == #[trigger] mixes@[i] && string(field(mixes@[i], "id"@))
                == Some(name@) && forall|j: int|
                0 <= j < i ==> string(field(#[trigger] mixes@[j], "id"@)) != Some(name@),
{
    let mut i: usize = 0;
    assert(mixes@.subrange(0, mixes@.len() as int) =~= mixes@);
    while i < mixes.len()
        invariant
            i <= mixes@.len(),
            forall|j: int| 0 <= j < i ==> string(field(#[trigger] mixes@[j], "id"@)) != Some(name@),
            mix_named(mixes@, name@) == mix_named(
                mixes@.subrange(i as int, mixes@.len() as int),
                name@,
            ),
        decreases mixes@.len() - i,
    {
        let ghost rest = mixes@.subrange(i as int, mixes@.len() as int);
        assert(rest[0] == mixes@[i as int]);
        if let Some(id) = json::as_str(mixes[i].get("id")) {
            if text::same(id, name) {
                return Ok(&mixes[i]);
            }
        }
        assert(rest.drop_first() =~= mixes@.subrange(i + 1, mixes@.len() as int));
        i += 1;
    }
    Err(Failure { code: 70, message: "Mix not found" })
}

/// What a request for a playlist is for.
#[derive(Debug)]
pub enum PlaylistRef {
    Mix(String),
    Playlist(String),
}

/// Decides which playlist a request is for.
pub fn get_playlist(q: &QueryParams) -> (r: Result<PlaylistRef, Failure>)
    ensures
        match first_id_of(*q) {
            Some(id) => match after_prefix(id, "mx"@) {
                Some(mix) => r matches Ok(PlaylistRef::Mix(m)) && m@ == mix,
                None => r matches Ok(PlaylistRef::Playlist(p)) && p@ == id,
            },
            None => r matches Err(f) && is_missing(f),
        },
        q.id.0@.len() > 0 ==> r is Ok,
        q.id.0@.len() > 0 && "mx"@.is_prefix_of(q.id.0@[0]@) ==> r->Ok_0 is Mix && q.id.0@[0]@ == "mx"@
            + (match r->Ok_0 {
            PlaylistRef::Mix(m) => m@,
            PlaylistRef::Playlist(p) => p@,
        }),
        q.id.0@.len() > 0 && !"mx"@.is_prefix_of(q.id.0@[0]@) ==> r->Ok_0 is Playlist && q.id.0@[0]@ == (
        match r->Ok_0 {
            PlaylistRef::Mix(m) => m@,
            PlaylistRef::Playlist(p) => p@,
        }),
{
    proof {
        if q.id.0@.len() > 0 {
            let s = q.id.0@[0]@;
            reveal_strlit("mx");
            assert(s.len() >= 2 ==> ("mx"@.is_prefix_of(s) <==> s.subrange(0, 2) =~= "mx"@));
            text::law_a_prefix_leaves_the_rest("mx"@, s, s);
        }
    }
    match first_id(q) {
        Some(id) => match text::strip_prefix(id, "mx") {
            Some(m) => Ok(PlaylistRef::Mix(m.to_owned())),
            None => Ok(PlaylistRef::Playlist(id.to_owned())),
        },
        None => Err(missing()),
    }
}

/// What is answered where a playlist could not be had.
pub fn playlist_error(e: &Error) -> (r: Failure)
    ensures
        if e matches Error::Tidal(404, _) {
            r.is(70, "Playlist not found"@)
        } else {
            r.is(0, "Playlist unavailable"@)
        },
        (e matches Error::Tidal(404, _)) ==> r.code == 70 && r.message@ == "Playlist not found"@,
        !(e matches Error::Tidal(404, _)) ==> r.code == 0 && r.message@ == "Playlist unavailable"@,
{
    match e {
        Error::Tidal(404, _) => not_found(IdKind::Playlist),
        _ => Failure { code: 0, message: "Playlist unavailable" },
    }
}

/// Whether the entries of a playlist from the older interface can be used: where there are any,
/// the first holds an item.
pub fn entries_usable(entries: &Vec<Json>) -> (r: bool)
    ensures
        r == (entries@.len() == 0 || (field(entries@[0], "item"@) matches Some(Json::Object(_)))),
{
    if entries.len() == 0 {
        return true;
    }
    match entries[0].get("item") {
        Some(Json::Object(_)) => true,
        _ => false,
    }
}

/// The first ten thousand entries.
pub open spec fn first_entries<T>(v: Seq<T>) -> Seq<T> {
    if v.len() <= 10_000 {
        v
    } else {
        v.take(10_000)
    }
}

/// The songs of a playlist: of the first ten thousand entries, those that are songs.
pub fn playlist_entries(songs: Vec<Option<Child>>) -> (r: Vec<Child>)
    ensures
        r@ == somes(first_entries(songs@)),
        songs@.len() <= 10_000 ==> r@ == somes(songs@),
        songs@.len() > 10_000 ==> r@ == somes(songs@.subrange(0, 10_000)),
{
    let mut v = songs;
    v.truncate(10_000);
    assert(v@ =~= first_entries(songs@));
    found(v)
}

/// A playlist with its songs, where its description could be read and its entries were fetched.
pub fn playlist_response(playlist: Option<Playlist>, entries: Option<Vec<Option<Child>>>) -> (r: Result<
    PlaylistWithSongs,
    Failure,
>)
    ensures
        match (playlist, entries) {
            (None, _) => r matches Err(f) && f.is(70, "Playlist not found"@),
            (Some(_), None) => r matches Err(f) && f.is(0, "Playlist unavailable"@),
            (Some(p), Some(v)) => r matches Ok(w) && w.playlist == p && w.entry@ == somes(
                first_entries(v@),
            ),
        },
        playlist is Some && entries is Some && entries->0@.len() <= 10_000 ==> r is Ok
            && r->Ok_0.playlist == playlist->0 && r->Ok_0.entry@ == somes(entries->0@),
        playlist is Some && entries is Some && entries->0@.len() > 10_000 ==> r is Ok
            && r->Ok_0.playlist == playlist->0 && r->Ok_0.entry@ == somes(
            entries->0@.subrange(0, 10_000),
        ),
{
    match (playlist, entries) {
        (None, _) => Err(Failure { code: 70, message: "Playlist not found" }),
        (Some(_), None) => Err(Failure { code: 0, message: "Playlist unavailable" }),
        (Some(p), Some(v)) => Ok(PlaylistWithSongs { playlist: p, entry: playlist_entries(v) }),
    }
}

/// Every identifier names a track.
pub open spec fn all_tracks(v: Seq<Seq<char>>) -> bool {
    forall|i: int| 0 <= i < v.len() ==> track_of(#[trigger] v[i]) is Some
}

/// The tracks that the identifiers name.
pub open spec fn tracks_of(v: Seq<Seq<char>>) -> Seq<u64> {
    v.map_values(|s: Seq<char>| track_of(s)->0 as u64)
}

/// Reads the tracks that identifiers name; one that names no track is refused.
pub fn parse_song_ids(list: &IdList) -> (r: Result<Vec<u64>, &'static str>)
    ensures
        match r {
            Ok(v) => all_tracks(texts(list.0@)) && v@ == tracks_of(texts(list.0@)),
            Err(m) => !all_tracks(texts(list.0@)) && m@ == "Song not found"@,
        },
        r is Ok <==> forall|i: int|
            0 <= i < list.0@.len() ==> track_of((#[trigger] list.0@[i])@) is Some,
        r is Ok ==> r->Ok_0@.len() == list.0@.len(),
        r is Ok ==> forall|i: int|
            0 <= i < list.0@.len() ==> track_of(list.0@[i]@) == Some(#[trigger] r->Ok_0@[i] as nat),
{
    let ghost all = texts(list.0@);
    let mut out: Vec<u64> = Vec::new();
    let mut i: usize = 0;
    while i < list.0.len()
        invariant
            i <= list.0@.len(),
            all == texts(list.0@),
            forall|j: int| 0 <= j < i ==> track_of(#[trigger] all[j]) is Some,
            out@ =~= tracks_of(all.take(i as int)),
        decreases list.0@.len() - i,
    {
        assert(all[i as int] == list.0@[i as int]@);
        assert(all.take(i + 1) =~= all.take(i as int).push(all[i as int]));
        match ids::parse_track_id(list.0[i].as_str()) {
            Some(n) => out.push(n),
            None => {
                assert(track_of(list.0@[i as int]@) is None);
                return Err("Song not found");
            },
        }
        i += 1;
    }
    assert(all.take(all.len() as int) =~= all);
    proof {
        assert forall|j: int| 0 <= j < list.0@.len() implies track_of(
            (#[trigger] list.0@[j])@,
        ) is Some by {
            assert(track_of(all[j]) is Some);
        }
        assert forall|j: int| 0 <= j < list.0@.len() implies track_of(list.0@[j]@) == Some(
            #[trigger] out@[j] as nat,
        ) by {
            assert(track_of(all[j]) is Some);
            ids::lemma_track_fits(all[j]);
        }
    }
    Ok(out)
}

/// An optional text, where it is not empty.
pub open spec fn non_empty(o: Option<String>) -> Option<Seq<char>> {
    match o {
        Some(s) => if s@.len() > 0 {
            Some(s@)
        } else {
            None
        },
        None => None,
    }
}

/// An optional text, where it is not empty.
fn filled(o: &Option<String>) -> (r: Option<String>)
    ensures
        opt_text(r) == non_empty(*o),
        o is None || o->0@.len() == 0 ==> r is None,
        o is Some && o->0@.len() > 0 ==> r is Some && r->0@ == o->0@,
{
    match o {
        Some(s) => if s.as_str().unicode_len() > 0 {
            Some(s.clone())
        } else {
            None
        },
        None => None,
    }
}

/// What a request to make or fill a playlist leads to.
#[derive(Debug)]
pub enum CreatePlan {
    /// A new playlist with this name and these songs.
    Create(String, Vec<u64>),
    /// The playlist, its new name where there is one, and the songs that replace its own where
    /// there are any.
    Replace(String, Option<String>, Vec<u64>),
}

/// Decides what a request to make or fill a playlist leads to. Mixes cannot be changed.
pub fn create_playlist(q: &QueryParams) -> (r: Result<CreatePlan, Failure>)
    ensures
        ({
            let songs = texts(q.song_id.0@);
            if non_empty(q.playlist_id) is Some && begins(non_empty(q.playlist_id)->0, "mx"@) {
                r matches Err(f) && f.is(0, "Mixes are read-only"@)
            } else if !all_tracks(songs) {
                r matches Err(f) && f.is(70, "Song not found"@)
            } else {
                match non_empty(q.playlist_id) {
                    Some(id) => r matches Ok(CreatePlan::Replace(p, name, v)) && p@ == id
                        && opt_text(name) == non_empty(q.name) && v@ == tracks_of(songs),
                    None => match non_empty(q.name) {
                        Some(n) => r matches Ok(CreatePlan::Create(name, v)) && name@ == n && v@
                            == tracks_of(songs),
                        None => r matches Err(f) && is_missing(f),
                    },
                }
            }
        }),
        q.playlist_id is Some && "mx"@.is_prefix_of(q.playlist_id->0@) ==> r is Err && r->Err_0.code == 0
            && r->Err_0.message@ == "Mixes are read-only"@,
        r is Ok && q.playlist_id is Some && q.playlist_id->0@.len() > 0 ==> (
        r->Ok_0 matches CreatePlan::Replace(p, name, v) && p@ == q.playlist_id->0@ && (name is Some <==>
            q.name is Some && q.name->0@.len() > 0) && (name is Some ==> name->0@ == q.name->0@) && v@.len()
            == q.song_id.0@.len() && forall|i: int|
            0 <= i < v@.len() ==> track_of(q.song_id.0@[i]@) == Some(#[trigger] v@[i] as nat)),
        r is Ok && (q.playlist_id is None || q.playlist_id->0@.len() == 0) ==> (
        r->Ok_0 matches CreatePlan::Create(name, v) && q.name is Some && name@ == q.name->0@ && name@.len()
            > 0 && v@.len() == q.song_id.0@.len() && forall|i: int|
            0 <= i < v@.len() ==> track_of(q.song_id.0@[i]@) == Some(#[trigger] v@[i] as nat)),
        r is Ok <==> !(q.playlist_id is Some && "mx"@.is_prefix_of(q.playlist_id->0@)) && (forall|i: int|
            0 <= i < q.song_id.0@.len() ==> track_of((#[trigger] q.song_id.0@[i])@) is Some) && ((
        q.playlist_id is Some && q.playlist_id->0@.len() > 0) || (q.name is Some && q.name->0@.len() > 0)),
{
    proof {
        if q.playlist_id is Some {
            let s = q.playlist_id->0@;
            reveal_strlit("mx");
            assert("mx"@.len() == 2);
            assert(s.len() >= 2 ==> ("mx"@.is_prefix_of(s) <==> s.subrange(0, 2) =~= "mx"@));
        }
    }
    let playlist_id = filled(&q.playlist_id);
    if let Some(id) = &playlist_id {
        if text::starts_with(id.as_str(), "mx") {
            return Err(Failure { code: 0, message: "Mixes are read-only" });
        }
    }
    let songs = match parse_song_ids(&q.song_id) {
        Ok(v) => v,
        Err(m) => {
            return Err(Failure { code: 70, message: m });
        },
    };
    match playlist_id {
        Some(id) => Ok(CreatePlan::Replace(id, filled(&q.name), songs)),
        None => match filled(&q.name) {
            Some(n) => Ok(CreatePlan::Create(n, songs)),
            None => Err(missing()),
        },
    }
}

/// The name that a new playlist was given.
pub fn created_id(reply: &Json) -> (r: Result<String, Failure>)
    ensures
        match string(field(*reply, "uuid"@)) {
            Some(u) => r matches Ok(s) && s@ == u,
            None => r matches Err(f) && f.is(0, "Playlist creation failed"@),
        },
{
    match json::as_str(reply.get("uuid")) {
        Some(u) => Ok(u.to_owned()),
        None => Err(Failure { code: 0, message: "Playlist creation failed" }),
    }
}

/// What a request to change a playlist leads to, in this order: new words, songs taken out at
/// these places, and songs added.
#[derive(Debug)]
pub struct UpdatePlan {
    pub id: String,
    pub name: Option<String>,
    pub comment: Option<String>,
    /// The places of the songs to take out, ascending, each once.
    pub indices: Vec<u32>,
    /// The songs to add; none where one of them is no song.
    pub adds: Option<Vec<u64>>,
}

/// The place is named by one of these texts.
pub open spec fn names_place(v: Seq<Seq<char>>, n: u32) -> bool {
    exists|i: int| 0 <= i < v.len() && number32(#[trigger] v[i]) == Some(n)
}

/// `r` holds the places that these texts name, ascending, each once.
pub open spec fn is_places(r: Seq<u32>, v: Seq<Seq<char>>) -> bool {
    &&& forall|i: int, j: int| 0 <= i < j < r.len() ==> r[i] < r[j]
    &&& forall|n: u32| r.contains(n) <==> #[trigger] names_place(v, n)
}

/// Adds a place to an ascending list, where it is not in it.
fn insert_place(v: &mut Vec<u32>, n: u32)
    requires
        forall|i: int, j: int| 0 <= i < j < old(v)@.len() ==> old(v)@[i] < old(v)@[j],
    ensures
        forall|i: int, j: int| 0 <= i < j < final(v)@.len() ==> final(v)@[i] < final(v)@[j],
        forall|m: u32| #[trigger] final(v)@.contains(m) <==> old(v)@.contains(m) || m == n,
{
    let ghost before = v@;
    let mut p: usize = 0;
    while p < v.len() && v[p] < n
        invariant
            p <= v@.len(),
            v@ == before,
            forall|i: int| 0 <= i < p ==> v@[i] < n,
        decreases v@.len() - p,
    {
        p += 1;
    }
    if p < v.len() && v[p] == n {
        assert(v@.contains(n));
        return ;
    }
    v.insert(p, n);
    proof {
        let after = v@;
        assert forall|m: u32| #[trigger] after.contains(m) <==> before.contains(m) || m == n by {
            if after.contains(m) {
                let i = choose|i: int| 0 <= i < after.len() && after[i] == m;
                if i < p {
                    assert(before[i] == m);
                } else if i > p {
                    assert(before[i - 1] == m);
                }
            }
            if before.contains(m) {
                let i = choose|i: int| 0 <= i < before.len() && before[i] == m;
                if i < p {
                    assert(after[i] == m);
                } else {
                    assert(after[i + 1] == m);
                }
            }
            if m == n {
                assert(after[p as int] == m);
            }
        }
    }
}

/// Reads the places that texts name; a text that is no number names none.
fn read_places(v: &Vec<String>) -> (r: Vec<u32>)
    ensures
        is_places(r@, texts(v@)),
        forall|i: int, j: int| 0 <= i < j < r@.len() ==> r@[i] < r@[j],
        forall|i: int|
            0 <= i < v@.len() && number32((#[trigger] v@[i])@) is Some ==> r@.contains(
                number32(v@[i]@)->0,
            ),
        forall|n: u32| #[trigger]
            r@.contains(n) ==> exists|i: int|
                0 <= i < v@.len() && number32((#[trigger] v@[i])@) == Some(n),
{
    let ghost all = texts(v@);
    let mut out: Vec<u32> = Vec::new();
    let mut i: usize = 0;
    while i < v.len()
        invariant
            i <= v@.len(),
            all == texts(v@),
            is_places(out@, all.take(i as int)),
        decreases v@.len() - i,
    {
        let ghost before = out@;
        assert(all[i as int] == v@[i as int]@);
        let here: Option<u32> = text::parse_u32(v[i].as_str());
        if let Some(n) = here {
            insert_place(&mut out, n);
        }
        proof {
            let a = all.take(i as int);
            let b = all.take(i + 1);
            assert forall|n: u32| out@.contains(n) <==> #[trigger] names_place(b, n) by {
                assert(before.contains(n) <==> names_place(a, n));
                if names_place(a, n) {
                    let k = choose|k: int| 0 <= k < a.len() && number32(#[trigger] a[k]) == Some(n);
                    assert(b[k] == a[k]);
                }
                if names_place(b, n) {
                    let k = choose|k: int| 0 <= k < b.len() && number32(#[trigger] b[k]) == Some(n);
                    if k < i {
                        assert(a[k] == b[k]);
                    } else {
                        assert(b[k] == all[i as int]);
                    }
                }
                if here == Some(n) {
                    assert(b[i as int] == all[i as int]);
                    assert(number32(b[i as int]) == Some(n));
                }
            }
        }
        i += 1;
    }
    assert(all.take(all.len() as int) =~= all);
    proof {
        assert forall|j: int|
            0 <= j < v@.len() && number32((#[trigger] v@[j])@) is Some implies out@.contains(
            number32(v@[j]@)->0,
        ) by {
            assert(all[j] == v@[j]@);
            assert(names_place(all, number32(v@[j]@)->0));
        }
        assert forall|n: u32| #[trigger] out@.contains(n) implies exists|j: int|
            0 <= j < v@.len() && number32((#[trigger] v@[j])@) == Some(n) by {
            assert(names_place(all, n));
            let j = choose|j: int| 0 <= j < all.len() && number32(#[trigger] all[j]) == Some(n);
            assert(all[j] == v@[j]@);
        }
    }
    out
}

/// Decides what a request to change a playlist leads to. Mixes cannot be changed.
pub fn update_playlist(q: &QueryParams) -> (r: Result<UpdatePlan, Failure>)
    ensures
        match non_empty(q.playlist_id) {
            Some(id) => if begins(id, "mx"@) {
                r matches Err(f) && f.is(0, "Mixes are read-only"@)
            } else {
                r matches Ok(p) && p.id@ == id && opt_text(p.name) == non_empty(q.name) && opt_text(
                    p.comment,
                ) == non_empty(q.comment) && is_places(
                    p.indices@,
                    texts(q.song_index_to_remove.0@),
                ) && (match p.adds {
                    Some(v) => all_tracks(texts(q.song_id_to_add.0@)) && v@ == tracks_of(
                        texts(q.song_id_to_add.0@),
                    ),
                    None => !all_tracks(texts(q.song_id_to_add.0@)),
                })
            },
            None => r matches Err(f) && is_missing(f),
        },
        q.playlist_id is None || q.playlist_id->0@.len() == 0 ==> r is Err && r->Err_0.code == 10,
        q.playlist_id is Some && "mx"@.is_prefix_of(q.playlist_id->0@) ==> r is Err && r->Err_0.code == 0
            && r->Err_0.message@ == "Mixes are read-only"@,
        q.playlist_id is Some && q.playlist_id->0@.len() > 0 && !"mx"@.is_prefix_of(q.playlist_id->0@)
            ==> r is Ok,
        r is Ok ==> {
            let p = r->Ok_0;
            &&& p.id@ == q.playlist_id->0@
            &&& p.name is Some <==> q.name is Some && q.name->0@.len() > 0
            &&& p.name is Some ==> p.name->0@ == q.name->0@
            &&& p.comment is Some <==> q.comment is Some && q.comment->0@.len() > 0
            &&& p.comment is Some ==> p.comment->0@ == q.comment->0@
            &&& forall|i: int, j: int| 0 <= i < j < p.indices@.len() ==> p.indices@[i] < p.indices@[j]
            &&& forall|i: int|
                0 <= i < q.song_index_to_remove.0@.len() && number32(
                    (#[trigger] q.song_index_to_remove.0@[i])@,
                ) is Some ==> p.indices@.contains(number32(q.song_index_to_remove.0@[i]@)->0)
            &&& forall|n: u32| #[trigger]
                p.indices@.contains(n) ==> exists|i: int|
                    0 <= i < q.song_index_to_remove.0@.len() && number32(
                        (#[trigger] q.song_index_to_remove.0@[i])@,
                    ) == Some(n)
            &&& p.adds is Some <==> forall|i: int|
                0 <= i < q.song_id_to_add.0@.len() ==> track_of((#[trigger] q.song_id_to_add.0@[i])@)
                    is Some
            &&& p.adds is Some ==> p.adds->0@.len() == q.song_id_to_add.0@.len() && forall|i: int|
                0 <= i < p.adds->0@.len() ==> track_of(q.song_id_to_add.0@[i]@) == Some(
                    #[trigger] p.adds->0@[i] as nat,
                )
        },
{
    proof {
        if q.playlist_id is Some {
            let s = q.playlist_id->0@;
            reveal_strlit("mx");
            assert("mx"@.len() == 2);
            assert(s.len() >= 2 ==> ("mx"@.is_prefix_of(s) <==> s.subrange(0, 2) =~= "mx"@));
        }
    }
    let id = match filled(&q.playlist_id) {
        Some(s) => s,
        None => {
            return Err(missing());
        },
    };
    if text::starts_with(id.as_str(), "mx") {
        return Err(Failure { code: 0, message: "Mixes are read-only" });
    }
    Ok(
        UpdatePlan {
            id,
            name: filled(&q.name),
            comment: filled(&q.comment),
            indices: read_places(&q.song_index_to_remove.0),
            adds: match parse_song_ids(&q.song_id_to_add) {
                Ok(v) => Some(v),
                Err(_) => None,
            },
        },
    )
}

/// One step of the change of a playlist.
#[derive(Debug, Clone, Copy, PartialEq, Eq, Structural)]
pub enum UpdateStep {
    /// Give it its name and its comment.
    Describe,
    /// Take out the songs at the places.
    Remove,
    /// Put the songs at the end.
    Append,
    /// Answer that a song to add was not found.
    Refuse,
}

/// The steps of the change of a playlist. The places are those that the client sees, so songs
/// are taken out before others are put in; songs that are not found are refused only then.
pub open spec fn steps_of(p: UpdatePlan) -> Seq<UpdateStep> {
    (if p.name is Some || p.comment is Some {
        seq![UpdateStep::Describe]
    } else {
        Seq::empty()
    }) + (if p.indices@.len() > 0 {
        seq![UpdateStep::Remove]
    } else {
        Seq::empty()
    }) + (match p.adds {
        Some(v) => if v@.len() > 0 {
            seq![UpdateStep::Append]
        } else {
            Seq::empty()
        },
        None => seq![UpdateStep::Refuse],
    })
}

/// The steps of the change of a playlist, in their order.
pub fn update_steps(p: &UpdatePlan) -> (r: Vec<UpdateStep>)
    ensures
        r@ == steps_of(*p),
        r@.contains(UpdateStep::Describe) <==> p.name is Some || p.comment is Some,
        r@.contains(UpdateStep::Remove) <==> p.indices@.len() > 0,
        r@.contains(UpdateStep::Append) <==> p.adds is Some && p.adds->0@.len() > 0,
        r@.contains(UpdateStep::Refuse) <==> p.adds is None,
        forall|i: int, j: int|
            0 <= i < j < r@.len() ==> (#[trigger] r@[i] == UpdateStep::Describe || (r@[i]
                == UpdateStep::Remove && r@[j] != UpdateStep::Describe)) && r@[i] != #[trigger] r@[j],
{
    let mut v: Vec<UpdateStep> = Vec::new();
    if p.name.is_some() || p.comment.is_some() {
        v.push(UpdateStep::Describe);
    }
    if p.indices.len() > 0 {
        v.push(UpdateStep::Remove);
    }
    match &p.adds {
        Some(a) => if a.len() > 0 {
            v.push(UpdateStep::Append);
        },
        None => {
            v.push(UpdateStep::Refuse);
        },
    }
    assert(v@ =~= steps_of(*p));
    proof {
        let s = v@;
        if p.name is Some || p.comment is Some {
            assert(s[0] == UpdateStep::Describe);
        }
        if p.indices@.len() > 0 {
            assert(s[0] == UpdateStep::Remove || s[1] == UpdateStep::Remove);
        }
        if p.adds is None || p.adds->0@.len() > 0 {
            assert(s.len() > 0 && s[s.len() - 1] == s.last());
        }
    }
    v
}

/// Where an entry of a playlist is: what it is, its number, and the name of the entry.
pub type ItemAddr = (String, String, String);

/// The number of the thing in an entry, as text.
pub open spec fn entry_number(e: Json) -> Option<Seq<char>> {
    let id = field2(e, "item"@, "id"@);
    match string(id) {
        Some(s) => Some(s),
        None => match number(id) {
            Some(n) => Some(decimal(n as nat)),
            None => None,
        },
    }
}

/// Reads the number of the thing in an entry.
pub fn entry_id(e: &Json) -> (r: Option<String>)
    ensures
        opt_text(r) == entry_number(*e),
        r is Some ==> (string(field2(*e, "item"@, "id"@)) == Some(r->0@) || (string(
            field2(*e, "item"@, "id"@),
        ) is None && number(field2(*e, "item"@, "id"@)) is Some && r->0@ == decimal(
            number(field2(*e, "item"@, "id"@))->0 as nat,
        ))),
        r is None <==> string(field2(*e, "item"@, "id"@)) is None && number(field2(*e, "item"@, "id"@))
            is None,
{
    let id = e.get2("item", "id");
    match json::as_str(id) {
        Some(s) => Some(s.to_owned()),
        None => match json::as_u64(id) {
            Some(n) => Some(text::decimal_text(n)),
            None => None,
        },
    }
}

/// Where an entry is, where it has a number and a name. An entry that does not say what it is
/// is a track.
pub open spec fn address_of(e: Json) -> Option<(Seq<char>, Seq<char>, Seq<char>)> {
    match (entry_number(e), string(field2(e, "meta"@, "itemId"@))) {
        (Some(n), Some(item)) => Some(
            (
                match string(field(e, "type"@)) {
                    Some(t) => t,
                    None => "tracks"@,
                },
                n,
                item,
            ),
        ),
        _ => None,
    }
}

/// Addresses as values.
pub open spec fn address_view(v: Seq<ItemAddr>) -> Seq<(Seq<char>, Seq<char>, Seq<char>)> {
    v.map_values(|a: ItemAddr| (a.0@, a.1@, a.2@))
}

/// Reads where an entry is.
fn read_address(e: &Json) -> (r: Option<ItemAddr>)
    ensures
        match r {
            Some(a) => address_of(*e) == Some((a.0@, a.1@, a.2@)),
            None => address_of(*e) is None,
        },
{
    match (entry_id(e), json::as_str(e.get2("meta", "itemId"))) {
        (Some(n), Some(item)) => {
            let kind = match json::as_str(e.get("type")) {
                Some(t) => t.to_owned(),
                None => "tracks".to_owned(),
            };
            Some((kind, n, item.to_owned()))
        },
        _ => None,
    }
}

/// The addresses of all entries that have one.
pub open spec fn addresses(v: Seq<Json>) -> Seq<(Seq<char>, Seq<char>, Seq<char>)>
    decreases v.len(),
{
    if v.len() == 0 {
        Seq::empty()
    } else {
        match address_of(v.last()) {
            Some(a) => addresses(v.drop_last()).push(a),
            None => addresses(v.drop_last()),
        }
    }
}

/// The addresses of all entries, to be taken out before others take their place.
pub fn replace_songs(entries: &Vec<Json>) -> (r: Vec<ItemAddr>)
    ensures
        address_view(r@) == addresses(entries@),
{
    let mut out: Vec<ItemAddr> = Vec::new();
    let mut i: usize = 0;
    assert(entries@.take(0) =~= Seq::empty());
    assert(address_view(out@) =~= Seq::empty());
    while i < entries.len()
        invariant
            i <= entries@.len(),
            address_view(out@) == addresses(entries@.take(i as int)),
        decreases entries@.len() - i,
    {
        assert(entries@.take(i + 1).drop_last() =~= entries@.take(i as int));
        let ghost before = address_view(out@);
        if let Some(a) = read_address(&entries[i]) {
            out.push(a);
            assert(address_view(out@) =~= before.push((a.0@, a.1@, a.2@)));
        }
        i += 1;
    }
    assert(entries@.take(entries@.len() as int) =~= entries@);
    out
}

/// The entry is a track.
pub open spec fn is_track_entry(e: Json) -> bool {
    string(field(e, "type"@)) == Some("tracks"@)
}

/// How many of these entries are tracks.
pub open spec fn track_count(v: Seq<Json>) -> nat
    decreases v.len(),
{
    if v.len() == 0 {
        0
    } else {
        track_count(v.drop_last()) + if is_track_entry(v.last()) {
            1nat
        } else {
            0nat
        }
    }
}

/// The addresses of the tracks at these places, counted among the tracks.
pub open spec fn addresses_at(v: Seq<Json>, places: Seq<u32>) -> Seq<
    (Seq<char>, Seq<char>, Seq<char>),
>
    decreases v.len(),
{
    if v.len() == 0 {
        Seq::empty()
    } else {
        let before = addresses_at(v.drop_last(), places);
        let e = v.last();
        let n = track_count(v.drop_last());
        if is_track_entry(e) && n <= u32::MAX && places.contains(n as u32) && address_of(e) is Some {
            before.push(address_of(e)->0)
        } else {
            before
        }
    }
}

/// Whether a place is in a list.
fn has_place(v: &Vec<u32>, n: u64) -> (r: bool)
    ensures
        r == (n <= u32::MAX && v@.contains(n as u32)),
{
    let mut i: usize = 0;
    while i < v.len()
        invariant
            i <= v@.len(),
            forall|j: int| 0 <= j < i ==> v@[j] != n,
        decreases v@.len() - i,
    {
        if v[i] as u64 == n {
            assert(v@[i as int] == n as u32);
            return true;
        }
        i += 1;
    }
    proof {
        if n <= u32::MAX && v@.contains(n as u32) {
            let j = choose|j: int| 0 <= j < v@.len() && v@[j] == n as u32;
            assert(v@[j] == n);
        }
    }
    false
}

/// The addresses of the tracks at these places, as a client counts them: entries that are no
/// tracks do not count.
pub fn removal_addresses(entries: &Vec<Json>, indices: &Vec<u32>) -> (r: Vec<ItemAddr>)
    ensures
        address_view(r@) == addresses_at(entries@, indices@),
{
    let mut out: Vec<ItemAddr> = Vec::new();
    let mut seen: u64 = 0;
    let mut i: usize = 0;
    assert(entries@.take(0) =~= Seq::empty());
    assert(address_view(out@) =~= Seq::empty());
    while i < entries.len()
        invariant
            i <= entries@.len(),
            seen <= i,
            seen == track_count(entries@.take(i as int)),
            address_view(out@) == addresses_at(entries@.take(i as int), indices@),
        decreases entries@.len() - i,
    {
        assert(entries@.take(i + 1).drop_last() =~= entries@.take(i as int));
        let ghost before = address_view(out@);
        let track = match json::as_str(entries[i].get("type")) {
            Some(t) => text::same(t, "tracks"),
            None => false,
        };
        assert(track == is_track_entry(entries@[i as int]));
        if track {
            if has_place(indices, seen) {
                if let Some(a) = read_address(&entries[i]) {
                    out.push(a);
                    assert(address_view(out@) =~= before.push((a.0@, a.1@, a.2@)));
                }
            }
            seen += 1;
        }
        i += 1;
    }
    assert(entries@.take(entries@.len() as int) =~= entries@);
    out
}

/// A playlist that someone else owns, or that there is not.
pub open spec fn is_no_playlist(e: Error) -> bool {
    e matches Error::Tidal(s, _) && (s == 404 || s == 403)
}

/// What is answered where a playlist could not be changed.
pub fn mutation_error(e: &Error, message: &'static str) -> (r: Failure)
    ensures
        if is_no_playlist(*e) {
            r.is(70, "Playlist not found"@)
        } else {
            r.is(0, message@)
        },
        (e matches Error::Tidal(404, _)) || (e matches Error::Tidal(403, _)) ==> r.code == 70 && r.message@
            == "Playlist not found"@,
        !(e matches Error::Tidal(404, _)) && !(e matches Error::Tidal(403, _)) ==> r.code == 0
            && r.message@ == message@,
{
    match e {
        Error::Tidal(s, _) => if *s == 404 || *s == 403 {
            not_found(IdKind::Playlist)
        } else {
            Failure { code: 0, message }
        },
        _ => Failure { code: 0, message },
    }
}

/// The playlist that a request is to remove. Mixes cannot be removed.
pub fn delete_playlist(q: &QueryParams) -> (r: Result<String, Failure>)
    ensures
        match first_id_of(*q) {
            Some(id) => if id.len() == 0 {
                r matches Err(f) && is_missing(f)
            } else if begins(id, "mx"@) {
                r matches Err(f) && f.is(0, "Mixes are read-only"@)
            } else {
                r matches Ok(p) && p@ == id
            },
            None => r matches Err(f) && is_missing(f),
        },
        r is Ok <==> q.id.0@.len() > 0 && q.id.0@[0]@.len() > 0 && !"mx"@.is_prefix_of(q.id.0@[0]@),
        r is Ok ==> r->Ok_0@ == q.id.0@[0]@,
        r is Err && q.id.0@.len() > 0 && q.id.0@[0]@.len() > 0 ==> r->Err_0.code == 0 && r->Err_0.message@
            == "Mixes are read-only"@,
{
    proof {
        if q.id.0@.len() > 0 {
            let s = q.id.0@[0]@;
            reveal_strlit("mx");
            assert("mx"@.len() == 2);
            assert(s.len() >= 2 ==> ("mx"@.is_prefix_of(s) <==> s.subrange(0, 2) =~= "mx"@));
        }
    }
    match first_id(q) {
        Some(id) => if id.unicode_len() == 0 {
            Err(missing())
        } else if text::starts_with(id, "mx") {
            Err(Failure { code: 0, message: "Mixes are read-only" })
        } else {
            Ok(id.to_owned())
        },
        None => Err(missing()),
    }
}

/// A genre with how many songs and albums it has.
pub open spec fn is_genre(g: Genre, row: Json) -> bool {
    &&& g.name@ == (match string(field(row, "name"@)) {
        Some(s) => s,
        None => Seq::empty(),
    })
    &&& g.song_count == Some(count_in(row, "songCount"@))
    &&& g.album_count == Some(count_in(row, "albumCount"@))
}

/// The count under a name, zero where there is none.
pub open spec fn count_in(row: Json, name: Seq<char>) -> u32 {
    match number(field(row, name)) {
        Some(n) => (n as int % 0x1_0000_0000) as u32,
        None => 0,
    }
}

/// Reads the count under a name.
fn read_count(row: &Json, name: &str) -> (r: u32)
    ensures
        r == count_in(*row, name@),
        number(field(*row, name@)) is None ==> r == 0,
        number(field(*row, name@)) is Some && number(field(*row, name@))->0 <= u32::MAX ==> r == number(
            field(*row, name@),
        )->0,
{
    match json::as_u64(row.get(name)) {
        Some(n) => (n % 0x1_0000_0000) as u32,
        None => 0,
    }
}

/// The genres of the catalogue; none where they could not be had.
pub fn get_genres(rows: Option<&Vec<Json>>) -> (r: Vec<Genre>)
    ensures
        match rows {
            Some(v) => r@.len() == v@.len() && forall|i: int|
                0 <= i < v@.len() ==> is_genre(#[trigger] r@[i], v@[i]),
            None => r@.len() == 0,
        },
        rows is Some ==> forall|i: int|
            0 <= i < r@.len() ==> {
                let row = rows->0@[i];
                &&& string(field(row, "name"@)) is Some ==> (#[trigger] r@[i]).name@ == string(
                    field(row, "name"@),
                )->0
                &&& string(field(row, "name"@)) is None ==> r@[i].name@.len() == 0
                &&& r@[i].song_count is Some && r@[i].album_count is Some
                &&& number(field(row, "songCount"@)) is Some && number(field(row, "songCount"@))->0
                    <= u32::MAX ==> r@[i].song_count->0 == number(field(row, "songCount"@))->0
                &&& number(field(row, "albumCount"@)) is Some && number(field(row, "albumCount"@))->0
                    <= u32::MAX ==> r@[i].album_count->0 == number(field(row, "albumCount"@))->0
                &&& number(field(row, "songCount"@)) is None ==> r@[i].song_count->0 == 0
                &&& number(field(row, "albumCount"@)) is None ==> r@[i].album_count->0 == 0
            },
{
    let mut out: Vec<Genre> = Vec::new();
    if let Some(v) = rows {
        let mut i: usize = 0;
        while i < v.len()
            invariant
                i <= v@.len(),
                out@.len() == i,
                forall|j: int| 0 <= j < i ==> is_genre(#[trigger] out@[j], v@[j]),
            decreases v@.len() - i,
        {
            let name = match json::as_str(v[i].get("name")) {
                Some(s) => s.to_owned(),
                None => String::new(),
            };
            let song_count: u32 = read_count(&v[i], "songCount");
            let album_count: u32 = read_count(&v[i], "albumCount");
            out.push(
                Genre { name, song_count: Some(song_count), album_count: Some(album_count) },
            );
            i += 1;
        }
    }
    out
}

/// An entry is addressed by what it is, by the number of the thing in it, and by its own name; one
/// without a number or a name has no address.
pub proof fn law_an_entry_is_addressed_by_three_words(e: Json, kind: Seq<char>, n: Seq<char>, item: Seq<char>)
    requires
        string(field2(e, "meta"@, "itemId"@)) == Some(item),
        string(field2(e, "item"@, "id"@)) == Some(n) || (string(field2(e, "item"@, "id"@)) is None
            && number(field2(e, "item"@, "id"@)) is Some && n == decimal(
            number(field2(e, "item"@, "id"@))->0 as nat,
        )),
    ensures
        string(field(e, "type"@)) == Some(kind) ==> address_of(e) == Some((kind, n, item)),
        string(field(e, "type"@)) is None ==> address_of(e) == Some(("tracks"@, n, item)),
{
}

/// Where an entry lacks its number or its name, it has no address.
pub proof fn law_an_entry_without_words_has_no_address(e: Json)
    ensures
        string(field2(e, "meta"@, "itemId"@)) is None ==> address_of(e) is None,
        string(field2(e, "item"@, "id"@)) is None && number(field2(e, "item"@, "id"@)) is None
            ==> address_of(e) is None,
{
}

/// The addresses of a list are those of its entries, in their order; an entry without one is
/// passed over.
pub proof fn law_every_entry_gives_its_address(a: Seq<Json>, b: Seq<Json>, e: Json)
    ensures
        addresses(a + b) == addresses(a) + addresses(b),
        addresses(Seq::empty()).len() == 0,
        address_of(e) is Some ==> addresses(seq![e]) == seq![address_of(e)->0],
        address_of(e) is None ==> addresses(seq![e]).len() == 0,
    decreases b.len(),
{
    assert(seq![e].drop_last() =~= Seq::<Json>::empty());
    assert(addresses(Seq::<Json>::empty()) =~= Seq::empty());
    if address_of(e) is Some {
        assert(addresses(seq![e]) =~= seq![address_of(e)->0]);
    }
    if b.len() == 0 {
        assert(a + b =~= a);
        assert(addresses(a) + addresses(b) =~= addresses(a));
    } else {
        law_every_entry_gives_its_address(a, b.drop_last(), e);
        assert((a + b).drop_last() =~= a + b.drop_last());
        assert((a + b).last() == b.last());
        assert(addresses(a + b) =~= addresses(a) + addresses(b));
    }
}

/// Places are counted among the tracks: a track has the place that is the number of tracks before
/// it, and is taken out where that place is asked for. What is no track counts for nothing and
/// stays.
pub proof fn law_places_count_tracks_only(v: Seq<Json>, e: Json, places: Seq<u32>)
    ensures
        track_count(Seq::empty()) == 0,
        addresses_at(Seq::empty(), places).len() == 0,
        string(field(e, "type"@)) == Some("tracks"@) ==> track_count(v.push(e)) == track_count(v) + 1,
        string(field(e, "type"@)) != Some("tracks"@) ==> track_count(v.push(e)) == track_count(v)
            && addresses_at(v.push(e), places) == addresses_at(v, places),
        string(field(e, "type"@)) == Some("tracks"@) && address_of(e) is Some && (exists|i: int|
            0 <= i < places.len() && #[trigger] places[i] == track_count(v)) ==> addresses_at(
            v.push(e),
            places,
        ) == addresses_at(v, places).push(address_of(e)->0),
        (address_of(e) is None || !exists|i: int|
            0 <= i < places.len() && #[trigger] places[i] == track_count(v)) ==> addresses_at(
            v.push(e),
            places,
        ) == addresses_at(v, places),
{
    assert(v.push(e).drop_last() =~= v);
    let n = track_count(v);
    if exists|i: int| 0 <= i < places.len() && #[trigger] places[i] == n {
        let i = choose|i: int| 0 <= i < places.len() && #[trigger] places[i] == n;
        assert(places[i] == n as u32);
        assert(places.contains(n as u32));
    } else if n <= u32::MAX && places.contains(n as u32) {
        let i = choose|i: int| 0 <= i < places.len() && places[i] == n as u32;
        assert(places[i] == n);
    }
}

/// The words of an address are what it holds, one for one.
pub proof fn law_addresses_are_what_is_held(v: Seq<ItemAddr>)
    ensures
        address_view(v).len() == v.len(),
        forall|i: int|
            0 <= i < v.len() ==> #[trigger] address_view(v)[i] == (v[i].0@, v[i].1@, v[i].2@),
{
}

} // verus!
