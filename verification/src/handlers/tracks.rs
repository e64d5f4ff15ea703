//! Songs: one, some at random, those of a genre, and those that are similar.

use crate::handlers::jukebox::tracks_in;
use crate::handlers::{first_id_of, is_missing, is_requested, limit, limited, missing, numbered,
    requested, Failure};
use crate::ids;
use crate::ids::IdKind;
use crate::json;
use crate::json::{field, items, number, Json};
use crate::lists::{keep, lemma_kept_is_filter, page, paged};
use crate::models::song::Child;
use crate::params::QueryParams;
use crate::text;
use crate::text::opt_text;
use vstd::prelude::*;

verus! {

/// The track that a request is for.
pub fn get_song(q: &QueryParams) -> (r: Result<u64, Failure>)
    ensures
        is_requested(r, *q, IdKind::Track),
        q.id.0@.len() == 0 ==> r is Err && r->Err_0.code == 10,
        q.id.0@.len() > 0 ==> (r is Ok <==> numbered(IdKind::Track, q.id.0@[0]@) is Some),
        r is Ok ==> numbered(IdKind::Track, q.id.0@[0]@) == Some(r->Ok_0 as nat),
        q.id.0@.len() > 0 && r is Err ==> r->Err_0.code == 70 && r->Err_0.message@ == "Song not found"@,
{
    requested(q, IdKind::Track)
}

/// A song with the year of its album, where it has none itself and the album was found.
pub fn fill_year(song: Child, album_year: Option<Option<u32>>) -> (r: Child)
    ensures
        r == (Child {
            year: match (song.year, album_year) {
                (None, Some(y)) => y,
                _ => song.year,
            },
            ..song
        }),
        song.year is Some ==> r == song,
        song.year is None && album_year is Some ==> r.year == album_year->0,
        song.year is None && album_year is None ==> r == song,
        r.id == song.id,
        r.parent == song.parent,
        r.is_dir == song.is_dir,
        r.is_video == song.is_video,
        r.title == song.title,
        r.album == song.album,
        r.artist == song.artist,
        r.track == song.track,
        r.genre == song.genre,
        r.genres == song.genres,
        r.cover_art == song.cover_art,
        r.duration == song.duration,
        r.bit_rate == song.bit_rate,
        r.bit_depth == song.bit_depth,
        r.sampling_rate == song.sampling_rate,
        r.channel_count == song.channel_count,
        r.disc_number == song.disc_number,
        r.album_id == song.album_id,
        r.artist_id == song.artist_id,
        r.artists == song.artists,
        r.isrc == song.isrc,
        r.kind == song.kind,
        r.content_type == song.content_type,
        r.suffix == song.suffix,
        r.size == song.size,
        r.path == song.path,
        r.created == song.created,
        r.starred == song.starred,
        r.starred_at == song.starred_at,
        r.explicit_status == song.explicit_status,
        r.replay_gain == song.replay_gain,
{
    let mut out = song;
    if out.year.is_none() {
        if let Some(y) = album_year {
            out.year = y;
        }
    }
    out
}

/// The song has the genre and lies in the years asked for. A song without a year lies in all.
pub open spec fn fits(
    s: Child,
    genre: Option<Seq<char>>,
    from_year: Option<u32>,
    to_year: Option<u32>,
) -> bool {
    &&& genre is Some ==> opt_text(s.genre) == genre
    &&& from_year is Some && s.year is Some ==> s.year->0 >= from_year->0
    &&& to_year is Some && s.year is Some ==> s.year->0 <= to_year->0
}

/// Whether a song has this genre.
fn has_genre(s: &Child, genre: &str) -> (r: bool)
    ensures
        r == (opt_text(s.genre) == Some(genre@)),
{
    match &s.genre {
        Some(g) => text::same(g.as_str(), genre),
        None => false,
    }
}

/// Whether a song fits.
fn check_fits(s: &Child, genre: Option<&str>, from_year: Option<u32>, to_year: Option<u32>) -> (r:
    bool)
    ensures
        r == fits(*s, text::opt_view(genre), from_year, to_year),
{
    if let Some(g) = genre {
        if !has_genre(s, g) {
            return false;
        }
    }
    match s.year {
        Some(y) => (match from_year {
            Some(f) => y >= f,
            None => true,
        }) && (match to_year {
            Some(t) => y <= t,
            None => true,
        }),
        None => true,
    }
}

/// `rand::seq::SliceRandom::shuffle` puts the items of a list in a random order: it holds the
/// same items as before, each as often. Which order comes out is chance.
#[verifier::external_body]
fn random_order(v: &mut Vec<Child>)
    ensures
        final(v)@.to_multiset() == old(v)@.to_multiset(),
{
    rand::seq::SliceRandom::shuffle(v.as_mut_slice(), &mut rand::rng())
}

/// `r` is some of these items, each at most as often as among them, and as many as there may be.
pub open spec fn is_pick(r: Seq<Child>, v: Seq<Child>, size: int) -> bool {
    &&& r.to_multiset().subset_of(v.to_multiset())
    &&& r.len() == (if size <= v.len() {
        size
    } else {
        v.len() as int
    })
}

proof fn lemma_take_subset(v: Seq<Child>, n: int)
    requires
        0 <= n <= v.len(),
    ensures
        v.take(n).to_multiset().subset_of(v.to_multiset()),
    decreases v.len() - n,
{
    broadcast use vstd::seq_lib::group_to_multiset_ensures;
    broadcast use vstd::multiset::group_multiset_axioms;

    if n == v.len() {
        assert(v.take(n) =~= v);
    } else {
        lemma_take_subset(v, n + 1);
        assert(v.take(n + 1) =~= v.take(n).push(v[n]));
    }
}

/// The first so many of these songs in whatever order they are.
pub fn cut(songs: Vec<Child>, size: usize) -> (r: Vec<Child>)
    ensures
        r@ == songs@.take(
            if size <= songs@.len() {
                size as int
            } else {
                songs@.len() as int
            },
        ),
{
    let mut out = songs;
    out.truncate(size);
    assert(out@ =~= songs@.take(
        if size <= songs@.len() {
            size as int
        } else {
            songs@.len() as int
        },
    ));
    out
}

/// So many songs in a random order.
fn pick(songs: Vec<Child>, size: usize) -> (r: Vec<Child>)
    ensures
        is_pick(r@, songs@, size as int),
        songs@.len() <= size ==> r@.len() == songs@.len(),
        songs@.len() > size ==> r@.len() == size,
{
    let mut out = songs;
    random_order(&mut out);
    let ghost mixed = out@;
    proof {
        vstd::seq_lib::to_multiset_len(mixed);
        vstd::seq_lib::to_multiset_len(songs@);
        lemma_take_subset(
            mixed,
            if size <= mixed.len() {
                size as int
            } else {
                mixed.len() as int
            },
        );
    }
    cut(out, size)
}

/// The songs that fit, in the order they have.
pub fn fitting(
    songs: Vec<Child>,
    genre: Option<&str>,
    from_year: Option<u32>,
    to_year: Option<u32>,
) -> (r: Vec<Child>)
    ensures
        r@ == songs@.filter(|s: Child| fits(s, text::opt_view(genre), from_year, to_year)),
        forall|i: int|
            0 <= i < r@.len() ==> (genre is Some ==> (#[trigger] r@[i]).genre is Some
                && r@[i].genre->0@ == genre->0@) && (r@[i].year is Some ==> (from_year is Some
                ==> r@[i].year->0 >= from_year->0) && (to_year is Some ==> r@[i].year->0 <= to_year->0)),
        forall|i: int|
            0 <= i < songs@.len() && fits(#[trigger] songs@[i], text::opt_view(genre), from_year, to_year)
                ==> r@.contains(songs@[i]),
{
    let mut flags: Vec<bool> = Vec::new();
    let mut i: usize = 0;
    let ghost test = |s: Child| fits(s, text::opt_view(genre), from_year, to_year);
    while i < songs.len()
        invariant
            i <= songs@.len(),
            flags@.len() == i,
            test == (|s: Child| fits(s, text::opt_view(genre), from_year, to_year)),
            forall|j: int| 0 <= j < i ==> #[trigger] flags@[j] == test(songs@[j]),
        decreases songs@.len() - i,
    {
        flags.push(check_fits(&songs[i], genre, from_year, to_year));
        i += 1;
    }
    proof {
        lemma_kept_is_filter(songs@, flags@, test);
        let kept = songs@.filter(test);
        assert forall|k: int| 0 <= k < kept.len() implies test(#[trigger] kept[k]) by {
            songs@.lemma_filter_pred(test, k);
        }
        assert forall|k: int|
            0 <= k < songs@.len() && fits(
                #[trigger] songs@[k],
                text::opt_view(genre),
                from_year,
                to_year,
            ) implies kept.contains(songs@[k]) by {
            assert(test(songs@[k]));
            songs@.lemma_filter_contains(test, k);
        }
    }
    keep(songs, &flags)
}

/// So many of the songs that fit, in a random order.
pub fn pick_random(
    songs: Vec<Child>,
    size: usize,
    genre: Option<&str>,
    from_year: Option<u32>,
    to_year: Option<u32>,
) -> (r: Vec<Child>)
    ensures
        is_pick(
            r@,
            songs@.filter(|s: Child| fits(s, text::opt_view(genre), from_year, to_year)),
            size as int,
        ),
        forall|i: int|
            0 <= i < r@.len() ==> (genre is Some ==> (#[trigger] r@[i]).genre is Some
                && r@[i].genre->0@ == genre->0@) && (r@[i].year is Some ==> (from_year is Some
                ==> r@[i].year->0 >= from_year->0) && (to_year is Some ==> r@[i].year->0 <= to_year->0)),
        r@.len() <= size,
{
    let found = fitting(songs, genre, from_year, to_year);
    let ghost all = found@;
    let r = pick(found, size);
    proof {
        assert forall|i: int| 0 <= i < r@.len() implies all.contains(#[trigger] r@[i]) by {
            law_a_pick_is_of_the_list(r@, all, size as int, i);
        }
    }
    r
}

/// The songs at random that a request is for, out of the favourites.
pub fn get_random_songs(q: &QueryParams, favorites: Vec<Child>) -> (r: Vec<Child>)
    ensures
        is_pick(
            r@,
            favorites@.filter(|s: Child| fits(s, opt_text(q.genre), q.from_year, q.to_year)),
            limited(q.size, 10, 500) as int,
        ),
        forall|i: int|
            0 <= i < r@.len() ==> (q.genre is Some ==> (#[trigger] r@[i]).genre is Some
                && r@[i].genre->0@ == q.genre->0@) && (r@[i].year is Some ==> (q.from_year is Some
                ==> r@[i].year->0 >= q.from_year->0) && (q.to_year is Some ==> r@[i].year->0 <= q.to_year->0)),
        q.size is None ==> r@.len() <= 10,
        q.size is Some ==> r@.len() <= q.size->0,
        r@.len() <= 500,
{
    let size: u32 = limit(q.size, 10, 500);
    let genre = match &q.genre {
        Some(g) => Some(g.as_str()),
        None => None,
    };
    assert(text::opt_view(genre) == opt_text(q.genre));
    pick_random(favorites, size as usize, genre, q.from_year, q.to_year)
}

/// The favourites of a genre that a request is for, by pages.
pub fn get_songs_by_genre(q: &QueryParams, favorites: Vec<Child>) -> (r: Result<Vec<Child>, Failure>)
    ensures
        match q.genre {
            Some(g) => r matches Ok(v) && v@ == paged(
                favorites@.filter(|s: Child| fits(s, Some(g@), None, None)),
                limited(q.offset, 0, u32::MAX) as int,
                limited(q.count, 10, 500) as int,
            ),
            None => r matches Err(f) && is_missing(f),
        },
        q.genre is Some ==> r is Ok && r->Ok_0@ == paged(
            favorites@.filter(|s: Child| fits(s, Some(q.genre->0@), None, None)),
            match q.offset {
                Some(n) => n as int,
                None => 0,
            },
            match q.count {
                Some(n) => if n <= 500 {
                    n as int
                } else {
                    500
                },
                None => 10,
            },
        ),
{
    match &q.genre {
        Some(g) => {
            let found = fitting(favorites, Some(g.as_str()), None, None);
            Ok(page(found, limit(q.offset, 0, u32::MAX), limit(q.count, 10, 500)))
        },
        None => Err(missing()),
    }
}

/// A search for songs similar to those of an artist.
///
/// The feed of similar songs comes first. Where it is too short, the best songs of the artist
/// and of similar artists are added, but for those that the feed had.
#[derive(Debug)]
pub struct SimilarSearch {
    pub artist_id: u64,
    /// How many songs are asked for.
    pub count: usize,
    pub songs: Vec<Child>,
    /// The tracks that the feed had.
    pub known: Vec<u64>,
    /// The artists to ask for their best songs, the one searched for first.
    pub artists: Vec<u64>,
    /// How many of the artists were asked.
    pub asked: usize,
}

/// The tracks that these songs are.
pub open spec fn song_tracks(v: Seq<Child>) -> Seq<u64> {
    tracks_in(v.map_values(|s: Child| s.id@))
}

/// The song is not one of these tracks, as far as its identifier tells.
pub open spec fn is_new(s: Child, known: Seq<u64>) -> bool {
    match ids::track_of(s.id@) {
        Some(n) => !known.contains(n as u64),
        None => true,
    }
}

/// The numbers of the things in a reply that have one.
pub open spec fn numbers_in(v: Seq<Json>) -> Seq<u64>
    decreases v.len(),
{
    if v.len() == 0 {
        Seq::empty()
    } else {
        match number(field(v.last(), "id"@)) {
            Some(n) => numbers_in(v.drop_last()).push(n),
            None => numbers_in(v.drop_last()),
        }
    }
}

/// Reads the numbers of the things in a list that have one.
fn read_numbers(v: &Vec<Json>) -> (r: Vec<u64>)
    ensures
        r@ == numbers_in(v@),
{
    let mut out: Vec<u64> = Vec::new();
    let mut i: usize = 0;
    assert(v@.take(0) =~= Seq::empty());
    while i < v.len()
        invariant
            i <= v@.len(),
            out@ == numbers_in(v@.take(i as int)),
        decreases v@.len() - i,
    {
        assert(v@.take(i + 1).drop_last() =~= v@.take(i as int));
        if let Some(n) = json::as_u64(v[i].get("id")) {
            out.push(n);
        }
        i += 1;
    }
    assert(v@.take(v@.len() as int) =~= v@);
    out
}

/// The first track of a reply, from which the feed of similar songs is asked for.
pub fn similar_seed(top: &Json) -> (r: Option<u64>)
    ensures
        r == (if items(field(*top, "items"@)).len() > 0 {
            number(field(items(field(*top, "items"@))[0], "id"@))
        } else {
            None
        }),
{
    match top.get("items") {
        Some(Json::Array(v)) => if v.len() > 0 {
            json::as_u64(v[0].get("id"))
        } else {
            None
        },
        _ => None,
    }
}

/// Starts a search, where the request names an artist.
pub fn similar_songs_core(q: &QueryParams) -> (r: Result<SimilarSearch, Failure>)
    ensures
        match first_id_of(*q) {
            Some(id) => match numbered(IdKind::Artist, id) {
                Some(n) => r matches Ok(s) && s.artist_id == n && s.count == limited(
                    q.count,
                    50,
                    500,
                ) && s.songs@.len() == 0 && s.known@.len() == 0 && s.artists@.len() == 0 && s.asked
                    == 0,
                None => r matches Err(f) && f.is(70, "Artist not found"@),
            },
            None => r matches Err(f) && is_missing(f),
        },
        r is Ok && q.count is None ==> r->Ok_0.count == 50,
        r is Ok && q.count is Some && q.count->0 <= 500 ==> r->Ok_0.count == q.count->0,
        r is Ok && q.count is Some && q.count->0 > 500 ==> r->Ok_0.count == 500,
{
    let artist_id: u64 = match requested(q, IdKind::Artist) {
        Ok(n) => n,
        Err(f) => {
            return Err(f);
        },
    };
    let count: u32 = limit(q.count, 50, 500);
    Ok(
        SimilarSearch {
            artist_id,
            count: count as usize,
            songs: Vec::new(),
            known: Vec::new(),
            artists: Vec::new(),
            asked: 0,
        },
    )
}

impl SimilarSearch {
    /// Only the songs and what is known of them are other than before.
    pub open spec fn same_search(self, other: SimilarSearch) -> bool {
        self.artist_id == other.artist_id && self.count == other.count
    }

    /// Takes the feed, which is empty where it could not be had, and says whether more songs are
    /// needed.
    pub fn feed_arrived(&mut self, feed: Vec<Child>) -> (r: bool)
        ensures
            final(self).same_search(*old(self)),
            final(self).songs == feed,
            final(self).known@ == song_tracks(feed@),
            final(self).artists == old(self).artists,
            final(self).asked == old(self).asked,
            r == (feed@.len() < old(self).count),
    {
        let mut known: Vec<u64> = Vec::new();
        let ghost names = feed@.map_values(|s: Child| s.id@);
        let mut i: usize = 0;
        assert(names.take(0) =~= Seq::empty());
        while i < feed.len()
            invariant
                i <= feed@.len(),
                names == feed@.map_values(|s: Child| s.id@),
                known@ == tracks_in(names.take(i as int)),
            decreases feed@.len() - i,
        {
            assert(names.take(i + 1).drop_last() =~= names.take(i as int));
            assert(names.take(i + 1).last() == feed@[i as int].id@);
            if let Some(n) = ids::parse_track_id(feed[i].id.as_str()) {
                known.push(n);
            }
            i += 1;
        }
        assert(names.take(names.len() as int) =~= names);
        let more = feed.len() < self.count;
        self.songs = feed;
        self.known = known;
        more
    }

    /// Takes the similar artists, and says how many songs to ask each artist for: so many that
    /// all together fill what is missing, and at least one. Where the similar artists could not
    /// be had the request fails.
    pub fn artists_arrived(&mut self, similar: Option<&Json>) -> (r: Result<u32, Failure>)
        requires
            old(self).songs@.len() < old(self).count <= 500,
        ensures
            final(self).same_search(*old(self)),
            final(self).songs == old(self).songs,
            final(self).known == old(self).known,
            match similar {
                Some(j) => {
                    let list = seq![old(self).artist_id] + numbers_in(items(field(*j, "items"@)));
                    let share = (old(self).count - old(self).songs@.len()) / list.len() as int;
                    &&& final(self).artists@ == list
                    &&& final(self).asked == 0
                    &&& r matches Ok(n) && n == (if share >= 1 {
                        share
                    } else {
                        1
                    })
                },
                None => {
                    &&& r matches Err(f) && f.is(0, "Similar songs unavailable"@)
                    &&& final(self).artists == old(self).artists
                    &&& final(self).asked == old(self).asked
                },
            },
    {
        match similar {
            Some(j) => {
                let mut list: Vec<u64> = Vec::new();
                list.push(self.artist_id);
                let mut more = match j.get("items") {
                    Some(Json::Array(v)) => read_numbers(v),
                    _ => Vec::new(),
                };
                assert(more@ =~= numbers_in(items(field(*j, "items"@))));
                list.append(&mut more);
                assert(list@ =~= seq![self.artist_id] + numbers_in(items(field(*j, "items"@))));
                let share: usize = (self.count - self.songs.len()) / list.len();
                self.artists = list;
                self.asked = 0;
                proof {
                    let a = (self.count - self.songs@.len()) as int;
                    let b = self.artists@.len() as int;
                    assert(0 <= a / b <= a) by (nonlinear_arith)
                        requires
                            a >= 0,
                            b >= 1,
                    ;
                }
                Ok(
                    if share >= 1 {
                        share as u32
                    } else {
                        1
                    },
                )
            },
            None => Err(Failure { code: 0, message: "Similar songs unavailable" }),
        }
    }

    /// The artist to ask next.
    pub fn next_artist(&self) -> (r: Option<u64>)
        ensures
            r == (if self.asked < self.artists@.len() {
                Some(self.artists@[self.asked as int])
            } else {
                None
            }),
    {
        if self.asked < self.artists.len() {
            Some(self.artists[self.asked])
        } else {
            None
        }
    }

    /// Takes the best songs of the artist that was asked, but for those that the feed had. Where
    /// they could not be had nothing is added, and for the artist searched for the request fails.
    pub fn tracks_arrived(&mut self, found: Option<Vec<Child>>) -> (r: Result<(), Failure>)
        requires
            old(self).asked < old(self).artists@.len(),
        ensures
            final(self).same_search(*old(self)),
            final(self).known == old(self).known,
            final(self).artists == old(self).artists,
            final(self).asked == old(self).asked + 1,
            match found {
                Some(v) => r is Ok && final(self).songs@ == old(self).songs@ + v@.filter(
                    |s: Child| is_new(s, old(self).known@),
                ),
                None => final(self).songs == old(self).songs && (match r {
                    Ok(_) => old(self).asked > 0,
                    Err(f) => old(self).asked == 0 && f.is(0, "Similar songs unavailable"@),
                }),
            },
            found is Some ==> forall|i: int|
                0 <= i < found->0@.len() && is_new(#[trigger] found->0@[i], old(self).known@) ==> final(self).songs@.contains(found->0@[i]),
            forall|i: int|
                0 <= i < old(self).songs@.len() ==> final(self).songs@[i] == #[trigger] old(self).songs@[i],
    {
        let first = self.asked == 0;
        let total: usize = self.artists.len();
        assert(self.asked < total);
        self.asked = self.asked + 1;
        match found {
            Some(v) => {
                let ghost known = self.known@;
                let ghost test = |s: Child| is_new(s, known);
                let mut flags: Vec<bool> = Vec::new();
                let mut i: usize = 0;
                while i < v.len()
                    invariant
                        i <= v@.len(),
                        flags@.len() == i,
                        known == self.known@,
                        test == (|s: Child| is_new(s, known)),
                        forall|j: int| 0 <= j < i ==> #[trigger] flags@[j] == test(v@[j]),
                    decreases v@.len() - i,
                {
                    let fresh = match ids::parse_track_id(v[i].id.as_str()) {
                        Some(n) => !contains(&self.known, n),
                        None => true,
                    };
                    flags.push(fresh);
                    i += 1;
                }
                proof {
                    lemma_kept_is_filter(v@, flags@, test);
                }
                let ghost all = v@;
                let ghost before = self.songs@;
                let mut more = keep(v, &flags);
                self.songs.append(&mut more);
                proof {
                    let kept = all.filter(test);
                    assert forall|k: int|
                        0 <= k < all.len() && is_new(
                            #[trigger] all[k],
                            known,
                        ) implies self.songs@.contains(all[k]) by {
                        assert(test(all[k]));
                        all.lemma_filter_contains(test, k);
                        let p = choose|p: int| 0 <= p < kept.len() && kept[p] == all[k];
                        assert(self.songs@[before.len() + p] == all[k]);
                    }
                }
                Ok(())
            },
            None => if first {
                Err(Failure { code: 0, message: "Similar songs unavailable" })
            } else {
                Ok(())
            },
        }
    }

    /// Ends the search: so many of the songs as were asked for, in a random order.
    pub fn finish(self) -> (r: Vec<Child>)
        ensures
            is_pick(r@, self.songs@, self.count as int),
            self.songs@.len() <= self.count ==> r@.len() == self.songs@.len(),
            self.songs@.len() > self.count ==> r@.len() == self.count,
    {
        pick(self.songs, self.count)
    }
}

/// Whether a number is in a list.
fn contains(v: &Vec<u64>, n: u64) -> (r: bool)
    ensures
        r == v@.contains(n),
{
    let mut i: usize = 0;
    while i < v.len()
        invariant
            i <= v@.len(),
            forall|j: int| 0 <= j < i ==> v@[j] != n,
        decreases v@.len() - i,
    {
        if v[i] == n {
            assert(v@[i as int] == n);
            return true;
        }
        i += 1;
    }
    false
}

/// No song that is added to a feed is one that the feed had.
pub proof fn law_added_songs_are_new(feed: Seq<Child>, found: Seq<Child>, i: int)
    requires
        0 <= i < found.filter(|s: Child| is_new(s, song_tracks(feed))).len(),
    ensures
        is_new(
            found.filter(|s: Child| is_new(s, song_tracks(feed)))[i],
            song_tracks(feed),
        ),
{
    found.lemma_filter_pred(|s: Child| is_new(s, song_tracks(feed)), i);
}

/// Every song of a pick is one of the list that it was picked from.
pub proof fn law_a_pick_is_of_the_list(r: Seq<Child>, v: Seq<Child>, size: int, i: int)
    requires
        is_pick(r, v, size),
        0 <= i < r.len(),
    ensures
        v.contains(r[i]),
        r.to_multiset().count(r[i]) <= v.to_multiset().count(r[i]),
        size <= v.len() ==> r.len() == size,
        size > v.len() ==> r.len() == v.len(),
{
    broadcast use vstd::seq_lib::group_to_multiset_ensures;

    assert(r.contains(r[i]));
    assert(r.to_multiset().count(r[i]) > 0);
    assert(v.to_multiset().count(r[i]) > 0);
}

/// A song fits where it has the genre that is asked for, to the letter, and where its year is one
/// from the first to the last, both counted in. What is not asked for does not count, and neither
/// does the year of a song that has none.
pub proof fn law_what_fits(s: Child, genre: Seq<char>, first: u32, last: u32)
    ensures
        fits(s, None, None, None),
        fits(s, Some(genre), None, None) <==> s.genre is Some && s.genre->0@ == genre,
        s.year is None ==> fits(s, None, Some(first), Some(last)),
        s.year is Some ==> (fits(s, None, Some(first), Some(last)) <==> first <= s.year->0 <= last),
        s.year is Some ==> (fits(s, None, Some(first), None) <==> first <= s.year->0),
        s.year is Some ==> (fits(s, None, None, Some(last)) <==> s.year->0 <= last),
        fits(s, Some(genre), Some(first), Some(last)) <==> fits(s, Some(genre), None, None) && fits(
            s,
            None,
            Some(first),
            Some(last),
        ),
{
}

/// A song is known by the number of its track: it is new where that number is none of those that
/// were there, and so is one whose identifier names no track.
pub proof fn law_songs_are_known_by_their_number(s: Child, known: Seq<u64>, n: u64)
    ensures
        s.id@ == ids::encoded(IdKind::Track, n as nat) ==> (is_new(s, known) <==> !known.contains(n)),
        s.id@ == ids::encoded(IdKind::Album, n as nat) ==> is_new(s, known),
{
    ids::law_track_identifiers(n, IdKind::Track);
    ids::law_track_identifiers(n, IdKind::Album);
}

/// The numbers in a list are those of its parts in a row; what has a number gives it, and what has
/// none gives nothing.
pub proof fn law_numbers_are_read_in_order(a: Seq<Json>, b: Seq<Json>, e: Json)
    ensures
        numbers_in(a + b) == numbers_in(a) + numbers_in(b),
        numbers_in(Seq::empty()).len() == 0,
        number(field(e, "id"@)) is Some ==> numbers_in(seq![e]) == seq![number(field(e, "id"@))->0],
        number(field(e, "id"@)) is None ==> numbers_in(seq![e]).len() == 0,
    decreases b.len(),
{
    assert(seq![e].drop_last() =~= Seq::<Json>::empty());
    assert(numbers_in(Seq::<Json>::empty()) =~= Seq::empty());
    if number(field(e, "id"@)) is Some {
        assert(numbers_in(seq![e]) =~= seq![number(field(e, "id"@))->0]);
    }
    if b.len() == 0 {
        assert(a + b =~= a);
        assert(numbers_in(a) + numbers_in(b) =~= numbers_in(a));
    } else {
        law_numbers_are_read_in_order(a, b.drop_last(), e);
        assert((a + b).drop_last() =~= a + b.drop_last());
        assert((a + b).last() == b.last());
        assert(numbers_in(a + b) =~= numbers_in(a) + numbers_in(b));
    }
}

} // verus!
