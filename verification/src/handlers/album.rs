//! Albums: one with its songs, and the lists of albums.

use crate::auth::{lower_text, to_ascii_lowercase};
use crate::handlers::jukebox::{is_seed, law_shuffling_keeps_all, shuffle, shuffled};
use crate::handlers::{is_requested, limit, limited, requested, Failure};
use crate::ids::IdKind;
use crate::lists;
use crate::lists::{keep, law_sorting_keeps_all_and_their_order, lemma_kept_is_filter,
    lemma_sorted_by, page, paged, sorted_by};
use crate::models::album::{Album, AlbumId3, AlbumInfo, AlbumList, AlbumList2, AlbumList2Response,
    AlbumListResponse, AlbumWithSongs};
use crate::models::song::Child;
use crate::order::{text_at_most, Ranked};
use crate::params::QueryParams;
use crate::play_state;
use crate::play_state::{PlayRecord, PlayState};
use crate::text;
use crate::text::{lowercase, opt_text};
use vstd::prelude::*;
use vstd::std_specs::convert::FromSpec;

verus! {

/// The album that a request is for.
pub fn get_album(q: &QueryParams) -> (r: Result<u64, Failure>)
    ensures
        is_requested(r, *q, IdKind::Album),
{
    requested(q, IdKind::Album)
}

/// A song of an album from this year: one without a year has that of the album.
pub open spec fn of_year(s: Child, year: Option<u32>) -> Child {
    Child {
        year: if s.year is Some {
            s.year
        } else {
            year
        },
        ..s
    }
}

/// Gives the songs of an album its year, where they have none.
pub fn fill_years(songs: Vec<Child>, year: Option<u32>) -> (r: Vec<Child>)
    ensures
        r@ == songs@.map_values(|s: Child| of_year(s, year)),
        r@.len() == songs@.len(),
        forall|i: int|
            0 <= i < songs@.len() ==> #[trigger] r@[i] == (Child {
                year: if songs@[i].year is Some {
                    songs@[i].year
                } else {
                    year
                },
                ..songs@[i]
            }),
{
    let ghost all = songs@;
    let mut out: Vec<Child> = Vec::new();
    for s in it: songs
        invariant
            it.seq() == all,
            out@ =~= all.take(it.index() as int).map_values(|s: Child| of_year(s, year)),
    {
        let mut song = s;
        if song.year.is_none() {
            song.year = year;
        }
        assert(song == of_year(s, year));
        out.push(song);
        assert(all.take(it.index() + 1) =~= all.take(it.index() as int).push(s));
    }
    assert(all.take(all.len() as int) =~= all);
    out
}

/// An album with its songs, which have its year where they have none.
pub fn album_with_songs(album: AlbumId3, songs: Vec<Child>) -> (r: AlbumWithSongs)
    ensures
        r.album == album,
        r.song@ == songs@.map_values(|s: Child| of_year(s, album.year)),
        r.song@.len() == songs@.len(),
        forall|i: int|
            0 <= i < songs@.len() ==> #[trigger] r.song@[i] == (Child {
                year: if songs@[i].year is Some {
                    songs@[i].year
                } else {
                    album.year
                },
                ..songs@[i]
            }),
{
    let song = fill_years(songs, album.year);
    AlbumWithSongs { album, song }
}

/// The genres of an album are named the same, but for the case of the letters.
pub open spec fn same_genre(a: Seq<char>, b: Seq<char>) -> bool {
    lower_text(a) == lower_text(b)
}

/// The album is of a genre, by its one genre or by one of its genres.
pub open spec fn is_of_genre(a: AlbumId3, genre: Seq<char>) -> bool {
    ||| a.genre is Some && same_genre(a.genre->0@, genre)
    ||| a.genres is Some && exists|i: int|
        0 <= i < a.genres->0@.len() && same_genre((#[trigger] a.genres->0@[i]).name@, genre)
}

/// Whether two names of a genre are the same.
fn check_genre(a: &str, b: &str) -> (r: bool)
    ensures
        r == same_genre(a@, b@),
{
    text::same(to_ascii_lowercase(a).as_str(), to_ascii_lowercase(b).as_str())
}

/// Whether an album is of a genre.
pub fn has_genre(a: &AlbumId3, genre: &str) -> (r: bool)
    ensures
        r == is_of_genre(*a, genre@),
        r <==> (a.genre is Some && lower_text(a.genre->0@) == lower_text(genre@)) || (a.genres
            is Some && exists|i: int|
            0 <= i < a.genres->0@.len() && lower_text((#[trigger] a.genres->0@[i]).name@)
                == lower_text(genre@)),
{
    if let Some(g) = &a.genre {
        if check_genre(g.as_str(), genre) {
            return true;
        }
    }
    if let Some(gs) = &a.genres {
        let mut i: usize = 0;
        while i < gs.len()
            invariant
                i <= gs@.len(),
                forall|j: int| 0 <= j < i ==> !same_genre((#[trigger] gs@[j]).name@, genre@),
                a.genres == Some(*gs),
            decreases gs@.len() - i,
        {
            if check_genre(gs[i].name.as_str(), genre) {
                assert(same_genre(a.genres->0@[i as int].name@, genre@));
                assert(lower_text(a.genres->0@[i as int].name@) == lower_text(genre@));
                return true;
            }
            i += 1;
        }
    }
    false
}

/// Genres count as the same whatever the case of their letters, and as others where anything
/// else differs.
pub proof fn law_genres_match_but_for_case(a: AlbumId3, genre: Seq<char>, other: Seq<char>)
    requires
        a.genres is None,
    ensures
        a.genre is None ==> !is_of_genre(a, genre),
        a.genre is Some && a.genre->0@ == genre ==> is_of_genre(a, genre),
        a.genre is Some && is_of_genre(a, genre) && is_of_genre(a, other) ==> lower_text(genre)
            == lower_text(other),
{
}

/// Where the albums of a list come from, and how they are picked.
#[derive(Debug)]
pub enum AlbumSource {
    /// A page of the favourites, as the service has it.
    Starred(u32, u32),
    /// So many of all favourites, in a random order.
    Random(u32),
    /// The albums of these records of what was played.
    Played(Vec<PlayRecord>),
    /// A page of what is new.
    Newest(u32, u32),
    /// A page of the albums of a genre.
    ByGenre(String, u32, u32),
    /// A page of the favourites of the years from the first to the second, the newest first
    /// where that is asked for.
    ByYear(u32, u32, bool, u32, u32),
    /// A page of the favourites by their names.
    ByName(u32, u32),
    /// A page of the favourites by the names of their artists.
    ByArtist(u32, u32),
    Empty,
}

/// The kind of list that a request is for.
pub open spec fn list_type(q: QueryParams) -> Option<Seq<char>> {
    opt_text(q.type_)
}

/// The list that a request is for.
pub open spec fn is_album_list(r: Result<AlbumSource, &'static str>, q: QueryParams, state: PlayState) -> bool {
    let offset = limited(q.offset, 0, u32::MAX);
    let size = limited(q.size, 10, 500);
    match list_type(q) {
        Some(t) => if t == "starred"@ {
            r == Ok::<AlbumSource, &'static str>(AlbumSource::Starred(offset, size))
        } else if t == "random"@ {
            r == Ok::<AlbumSource, &'static str>(AlbumSource::Random(size))
        } else if t == "recent"@ {
            r matches Ok(AlbumSource::Played(v)) && exists|all: Seq<PlayRecord>|
                play_state::lists_records(state.history@, all) && (forall|i: int, j: int|
                    0 <= i < j < all.len() ==> play_state::more_recent(
                        #[trigger] all[i],
                        #[trigger] all[j],
                    )) && v@ == #[trigger] paged(all, offset as int, size as int)
        } else if t == "frequent"@ {
            r matches Ok(AlbumSource::Played(v)) && exists|all: Seq<PlayRecord>|
                play_state::lists_records(state.history@, all) && (forall|i: int, j: int|
                    0 <= i < j < all.len() ==> play_state::more_frequent(
                        #[trigger] all[i],
                        #[trigger] all[j],
                    )) && v@ == #[trigger] paged(all, offset as int, size as int)
        } else if t == "newest"@ {
            r == Ok::<AlbumSource, &'static str>(AlbumSource::Newest(offset, size))
        } else if t == "byGenre"@ {
            match q.genre {
                Some(g) => r matches Ok(AlbumSource::ByGenre(x, o, s)) && x == g && o == offset && s
                    == size,
                None => r matches Err(m) && m@ == "Required parameter missing: genre"@,
            }
        } else if t == "byYear"@ {
            match (q.from_year, q.to_year) {
                (Some(from), Some(to)) => r == Ok::<AlbumSource, &'static str>(
                    AlbumSource::ByYear(
                        if from <= to {
                            from
                        } else {
                            to
                        },
                        if from <= to {
                            to
                        } else {
                            from
                        },
                        from > to,
                        offset,
                        size,
                    ),
                ),
                _ => r matches Err(m) && m@ == "Required parameter missing: fromYear/toYear"@,
            }
        } else if t == "alphabeticalByName"@ {
            r == Ok::<AlbumSource, &'static str>(AlbumSource::ByName(offset, size))
        } else if t == "alphabeticalByArtist"@ {
            r == Ok::<AlbumSource, &'static str>(AlbumSource::ByArtist(offset, size))
        } else {
            r == Ok::<AlbumSource, &'static str>(AlbumSource::Empty)
        },
        None => r == Ok::<AlbumSource, &'static str>(AlbumSource::Empty),
    }
}

proof fn lemma_list_types()
    ensures
        "starred"@.len() == 7,
        "random"@.len() == 6,
        "random"@[1] == 'a',
        "recent"@.len() == 6,
        "recent"@[1] == 'e',
        "recent"@[0] == 'r',
        "frequent"@.len() == 8,
        "newest"@.len() == 6,
        "newest"@[0] == 'n',
        "random"@[0] == 'r',
        "byGenre"@.len() == 7,
        "byGenre"@[0] == 'b',
        "starred"@[0] == 's',
        "byYear"@.len() == 6,
        "byYear"@[0] == 'b',
        "alphabeticalByName"@.len() == 18,
        "alphabeticalByArtist"@.len() == 20,
{
    reveal_strlit("starred");
    reveal_strlit("random");
    reveal_strlit("recent");
    reveal_strlit("frequent");
    reveal_strlit("newest");
    reveal_strlit("byGenre");
    reveal_strlit("byYear");
    reveal_strlit("alphabeticalByName");
    reveal_strlit("alphabeticalByArtist");
}

/// Decides which list a request is for. A kind that there is not gives an empty list.
pub fn album_list_core(q: &QueryParams, state: &PlayState) -> (r: Result<AlbumSource, &'static str>)
    requires
        state.wf(),
    ensures
        is_album_list(r, *q, *state),
        ({
            let offset = if q.offset is Some {
                q.offset->0
            } else {
                0
            };
            let size = if q.size is None {
                10
            } else if q.size->0 > 500 {
                500
            } else {
                q.size->0
            };
            let t = opt_text(q.type_);
            &&& t == Some("starred"@) ==> r == Ok::<AlbumSource, &'static str>(
                AlbumSource::Starred(offset, size),
            )
            &&& t == Some("random"@) ==> r == Ok::<AlbumSource, &'static str>(
                AlbumSource::Random(size),
            )
            &&& t == Some("newest"@) ==> r == Ok::<AlbumSource, &'static str>(
                AlbumSource::Newest(offset, size),
            )
            &&& t == Some("alphabeticalByName"@) ==> r == Ok::<AlbumSource, &'static str>(
                AlbumSource::ByName(offset, size),
            )
            &&& t == Some("alphabeticalByArtist"@) ==> r == Ok::<AlbumSource, &'static str>(
                AlbumSource::ByArtist(offset, size),
            )
            &&& t == Some("byGenre"@) && q.genre is Some ==> (r matches Ok(
                AlbumSource::ByGenre(g, o, s),
            ) && g@ == q.genre->0@ && o == offset && s == size)
            &&& t == Some("byGenre"@) && q.genre is None ==> r is Err
            &&& t == Some("byYear"@) && q.from_year is Some && q.to_year is Some ==> (r matches Ok(
                AlbumSource::ByYear(lo, hi, newest, o, s),
            ) && lo <= hi && (lo == q.from_year->0 || lo == q.to_year->0) && (hi == q.from_year->0
                || hi == q.to_year->0) && lo + hi == q.from_year->0 + q.to_year->0 && newest == (
            q.from_year->0 > q.to_year->0) && o == offset && s == size)
            &&& t == Some("byYear"@) && (q.from_year is None || q.to_year is None) ==> r is Err
            &&& t == Some("recent"@) ==> (r matches Ok(AlbumSource::Played(v)) && v@.len() <= size
                && (forall|i: int|
                0 <= i < v@.len() ==> state.history@.contains_key((#[trigger] v@[i]).album_id)
                    && state.history@[v@[i].album_id] == v@[i]) && (forall|i: int, j: int|
                0 <= i < j < v@.len() ==> (#[trigger] v@[i]).last_played_ms >= (
                #[trigger] v@[j]).last_played_ms))
            &&& t == Some("frequent"@) ==> (r matches Ok(AlbumSource::Played(v)) && v@.len() <= size
                && (forall|i: int|
                0 <= i < v@.len() ==> state.history@.contains_key((#[trigger] v@[i]).album_id)
                    && state.history@[v@[i].album_id] == v@[i]) && (forall|i: int, j: int|
                0 <= i < j < v@.len() ==> (#[trigger] v@[i]).play_count >= (
                #[trigger] v@[j]).play_count))
        }),
{
    proof {
        lemma_list_types();
    }
    let offset: u32 = limit(q.offset, 0, u32::MAX);
    let size: u32 = limit(q.size, 10, 500);
    let kind = match &q.type_ {
        Some(t) => t.as_str(),
        None => {
            return Ok(AlbumSource::Empty);
        },
    };
    if text::same(kind, "starred") {
        Ok(AlbumSource::Starred(offset, size))
    } else if text::same(kind, "random") {
        Ok(AlbumSource::Random(size))
    } else if text::same(kind, "recent") {
        let all = play_state::recent_albums(state);
        let v = page(all, offset, size);
        assert(v@ == paged(all@, offset as int, size as int));
        Ok(AlbumSource::Played(v))
    } else if text::same(kind, "frequent") {
        let all = play_state::frequent_albums(state);
        let v = page(all, offset, size);
        assert(v@ == paged(all@, offset as int, size as int));
        Ok(AlbumSource::Played(v))
    } else if text::same(kind, "newest") {
        Ok(AlbumSource::Newest(offset, size))
    } else if text::same(kind, "byGenre") {
        match &q.genre {
            Some(g) => Ok(AlbumSource::ByGenre(g.clone(), offset, size)),
            None => Err("Required parameter missing: genre"),
        }
    } else if text::same(kind, "byYear") {
        match (q.from_year, q.to_year) {
            (Some(from), Some(to)) => if from <= to {
                Ok(AlbumSource::ByYear(from, to, false, offset, size))
            } else {
                Ok(AlbumSource::ByYear(to, from, true, offset, size))
            },
            _ => Err("Required parameter missing: fromYear/toYear"),
        }
    } else if text::same(kind, "alphabeticalByName") {
        Ok(AlbumSource::ByName(offset, size))
    } else if text::same(kind, "alphabeticalByArtist") {
        Ok(AlbumSource::ByArtist(offset, size))
    } else {
        Ok(AlbumSource::Empty)
    }
}

/// So many of these albums, in a random order.
pub fn random_albums(albums: Vec<AlbumId3>, size: u32) -> (r: Vec<AlbumId3>)
    requires
        albums@.len() <= u32::MAX,
    ensures
        exists|seed: u32|
            is_seed(seed) && r@ == paged(#[trigger] shuffled(albums@, seed), 0, size as int),
        r@.len() == (if size <= albums@.len() {
            size as int
        } else {
            albums@.len() as int
        }),
        r@.to_multiset().subset_of(albums@.to_multiset()),
{
    let mut out = albums;
    shuffle(&mut out);
    let ghost mixed = out@;
    let ghost seed = choose|seed: u32| is_seed(seed) && mixed == #[trigger] shuffled(albums@, seed);
    let r = page(out, 0, size);
    assert(r@ == paged(shuffled(albums@, seed), 0, size as int));
    proof {
        broadcast use vstd::seq_lib::group_to_multiset_ensures;

        law_shuffling_keeps_all(albums@, seed);
        let n = r@.len() as int;
        assert(mixed =~= r@ + mixed.skip(n));
        vstd::seq_lib::lemma_multiset_commutative(r@, mixed.skip(n));
    }
    r
}

/// A page of the albums of a genre.
pub fn albums_of_genre(albums: Vec<AlbumId3>, genre: &str, offset: u32, size: u32) -> (r: Vec<
    AlbumId3,
>)
    ensures
        r@ == paged(
            albums@.filter(|a: AlbumId3| is_of_genre(a, genre@)),
            offset as int,
            size as int,
        ),
        forall|i: int| 0 <= i < r@.len() ==> is_of_genre(#[trigger] r@[i], genre@),
{
    let ghost test = |a: AlbumId3| is_of_genre(a, genre@);
    let mut flags: Vec<bool> = Vec::new();
    let mut i: usize = 0;
    while i < albums.len()
        invariant
            i <= albums@.len(),
            flags@.len() == i,
            test == (|a: AlbumId3| is_of_genre(a, genre@)),
            forall|j: int| 0 <= j < i ==> #[trigger] flags@[j] == test(albums@[j]),
        decreases albums@.len() - i,
    {
        flags.push(has_genre(&albums[i], genre));
        i += 1;
    }
    proof {
        lemma_kept_is_filter(albums@, flags@, test);
        let found = albums@.filter(test);
        assert forall|i: int|
            0 <= i < paged(found, offset as int, size as int).len() implies is_of_genre(
            #[trigger] paged(found, offset as int, size as int)[i],
            genre@,
        ) by {
            albums@.lemma_filter_pred(test, offset + i);
        }
    }
    page(keep(albums, &flags), offset, size)
}

/// The album is of one of the years from `lo` to `hi`.
pub open spec fn is_of_years(a: AlbumId3, lo: u32, hi: u32) -> bool {
    a.year is Some && lo <= a.year->0 <= hi
}

/// The album is not newer than the other.
pub open spec fn not_newer(a: AlbumId3, b: AlbumId3) -> bool {
    a.year is Some && b.year is Some && a.year->0 <= b.year->0
}

/// `r` holds the albums of the years, the oldest first or the newest first.
pub open spec fn lists_years(
    r: Seq<AlbumId3>,
    v: Seq<AlbumId3>,
    lo: u32,
    hi: u32,
    newest_first: bool,
) -> bool {
    let found = v.filter(|a: AlbumId3| is_of_years(a, lo, hi));
    let le = |a: AlbumId3, b: AlbumId3| not_newer(a, b);
    sorted_by(
        if newest_first {
            r.reverse()
        } else {
            r
        },
        found,
        le,
    )
}

proof fn lemma_filtered<T>(v: Seq<T>, test: spec_fn(T) -> bool, x: T)
    ensures
        v.filter(test).contains(x) <==> v.contains(x) && test(x),
    decreases v.len(),
{
    reveal(Seq::filter);
    if v.len() > 0 {
        let w = v.drop_last();
        lemma_filtered(w, test, x);
        let f = v.filter(test);
        let g = w.filter(test);
        if v.contains(x) && test(x) {
            let i = choose|i: int| 0 <= i < v.len() && v[i] == x;
            if i < w.len() {
                assert(w[i] == x);
                let j = choose|j: int| 0 <= j < g.len() && g[j] == x;
                assert(f[j] == x);
            } else {
                assert(f[f.len() - 1] == x);
            }
        }
        if f.contains(x) {
            let j = choose|j: int| 0 <= j < f.len() && f[j] == x;
            if j < g.len() {
                assert(g[j] == x);
                let i = choose|i: int| 0 <= i < w.len() && w[i] == x;
                assert(v[i] == x);
            } else {
                assert(v[v.len() - 1] == x);
            }
        }
    }
}

/// In the list by year, exactly the albums from the first to the last of the years are listed,
/// and no album is newer than one behind it, or none is older where the newest come first.
pub proof fn law_albums_are_listed_by_year(
    all: Seq<AlbumId3>,
    v: Seq<AlbumId3>,
    lo: u32,
    hi: u32,
    newest_first: bool,
)
    requires
        lists_years(all, v, lo, hi, newest_first),
    ensures
        forall|a: AlbumId3| #[trigger]
            all.contains(a) <==> v.contains(a) && a.year is Some && lo <= a.year->0 && a.year->0
                <= hi,
        forall|i: int, j: int|
            0 <= i < j < all.len() ==> (if newest_first {
                (#[trigger] all[i]).year->0 >= (#[trigger] all[j]).year->0
            } else {
                all[i].year->0 <= all[j].year->0
            }),
{
    let test = |a: AlbumId3| is_of_years(a, lo, hi);
    let found = v.filter(test);
    let le = |a: AlbumId3, b: AlbumId3| not_newer(a, b);
    let sorted = if newest_first {
        all.reverse()
    } else {
        all
    };
    law_sorting_keeps_all_and_their_order(sorted, found, le);
    assert forall|a: AlbumId3| #[trigger]
        all.contains(a) <==> v.contains(a) && a.year is Some && lo <= a.year->0 && a.year->0
            <= hi by {
        lemma_filtered(v, test, a);
        if all.contains(a) {
            let i = choose|i: int| 0 <= i < all.len() && all[i] == a;
            if newest_first {
                assert(sorted[all.len() - 1 - i] == a);
            }
            assert(sorted.contains(a));
        }
        if sorted.contains(a) {
            let i = choose|i: int| 0 <= i < sorted.len() && sorted[i] == a;
            if newest_first {
                assert(all[all.len() - 1 - i] == a);
            }
            assert(all.contains(a));
        }
    }
    assert forall|i: int, j: int| 0 <= i < j < all.len() implies (if newest_first {
        (#[trigger] all[i]).year->0 >= (#[trigger] all[j]).year->0
    } else {
        all[i].year->0 <= all[j].year->0
    }) by {
        if newest_first {
            let n = all.len() as int;
            assert(le(sorted[n - 1 - j], sorted[n - 1 - i]));
            assert(sorted[n - 1 - j] == all[j] && sorted[n - 1 - i] == all[i]);
        } else {
            assert(le(sorted[i], sorted[j]));
        }
    }
}

/// A page of the albums of the years from `lo` to `hi`.
pub fn albums_of_years(
    albums: Vec<AlbumId3>,
    lo: u32,
    hi: u32,
    newest_first: bool,
    offset: u32,
    size: u32,
) -> (r: Vec<AlbumId3>)
    ensures
        exists|all: Seq<AlbumId3>| #[trigger]
            lists_years(all, albums@, lo, hi, newest_first) && r@ == paged(
                all,
                offset as int,
                size as int,
            ),
{
    let ghost input = albums@;
    let ghost test = |a: AlbumId3| is_of_years(a, lo, hi);
    let mut flags: Vec<bool> = Vec::new();
    let mut i: usize = 0;
    while i < albums.len()
        invariant
            i <= albums@.len(),
            flags@.len() == i,
            test == (|a: AlbumId3| is_of_years(a, lo, hi)),
            forall|j: int| 0 <= j < i ==> #[trigger] flags@[j] == test(albums@[j]),
        decreases albums@.len() - i,
    {
        let fits = match albums[i].year {
            Some(y) => lo <= y && y <= hi,
            None => false,
        };
        flags.push(fits);
        i += 1;
    }
    proof {
        lemma_kept_is_filter(albums@, flags@, test);
    }
    let found = keep(albums, &flags);
    let ghost list = found@;
    let mut keys: Vec<i128> = Vec::new();
    let mut k: usize = 0;
    proof {
        assert forall|j: int| 0 <= j < list.len() implies is_of_years(
            #[trigger] list[j],
            lo,
            hi,
        ) by {
            input.lemma_filter_pred(test, j);
        }
    }
    while k < found.len()
        invariant
            k <= found@.len(),
            keys@.len() == k,
            found@ == list,
            forall|j: int| 0 <= j < list.len() ==> is_of_years(#[trigger] list[j], lo, hi),
            forall|j: int| 0 <= j < k ==> #[trigger] keys@[j] == list[j].year->0,
        decreases found@.len() - k,
    {
        assert(is_of_years(list[k as int], lo, hi));
        let year: u32 = match found[k].year {
            Some(y) => y,
            None => 0,
        };
        keys.push(year as i128);
        k += 1;
    }
    let sorted = lists::sort_by_keys(found, &keys);
    let ghost le = |a: AlbumId3, b: AlbumId3| not_newer(a, b);
    proof {
        assert forall|a: int, b: int|
            #![trigger keys@[a], keys@[b]]
            0 <= a < list.len() && 0 <= b < list.len() implies keys@[a].at_most(&keys@[b]) == le(
            list[a],
            list[b],
        ) by {
            assert(is_of_years(list[a], lo, hi) && is_of_years(list[b], lo, hi));
        }
        lemma_sorted_by(sorted@, list, keys@, le);
    }
    let all = if newest_first {
        lists::reversed(sorted)
    } else {
        sorted
    };
    proof {
        if newest_first {
            assert(all@.reverse() =~= sorted@);
        }
        assert(lists_years(all@, input, lo, hi, newest_first));
    }
    page(all, offset, size)
}

/// The first name comes no later than the second; case does not matter.
pub open spec fn name_at_most(a: Seq<char>, b: Seq<char>) -> bool {
    text_at_most(lowercase(a), lowercase(b))
}

/// `r` holds the albums by their names, or by the names of their artists.
pub open spec fn lists_names(r: Seq<AlbumId3>, v: Seq<AlbumId3>, by_artist: bool) -> bool {
    let le = |a: AlbumId3, b: AlbumId3|
        if by_artist {
            name_at_most(a.artist@, b.artist@)
        } else {
            name_at_most(a.name@, b.name@)
        };
    sorted_by(r, v, le)
}

/// In the list by name, the whole name of an album in lower case is at or before that of each
/// album behind it, and in the list by artist the same holds of the names of the artists. So
/// albums that could stand either way round have the same name but for case. Every album is
/// listed, and no other.
pub proof fn law_albums_are_listed_by_whole_names(
    all: Seq<AlbumId3>,
    v: Seq<AlbumId3>,
    by_artist: bool,
    i: int,
    j: int,
)
    requires
        lists_names(all, v, by_artist),
        0 <= i < j < all.len(),
    ensures
        all.len() == v.len(),
        forall|a: AlbumId3| all.contains(a) <==> v.contains(a),
        !by_artist ==> text_at_most(lowercase(all[i].name@), lowercase(all[j].name@)),
        by_artist ==> text_at_most(lowercase(all[i].artist@), lowercase(all[j].artist@)),
{
    let le = |a: AlbumId3, b: AlbumId3|
        if by_artist {
            name_at_most(a.artist@, b.artist@)
        } else {
            name_at_most(a.name@, b.name@)
        };
    law_sorting_keeps_all_and_their_order(all, v, le);
    assert(le(all[i], all[j]));
}

/// A page of the albums by their names, or by the names of their artists.
pub fn albums_by_name(albums: Vec<AlbumId3>, by_artist: bool, offset: u32, size: u32) -> (r: Vec<
    AlbumId3,
>)
    ensures
        exists|all: Seq<AlbumId3>| #[trigger]
            lists_names(all, albums@, by_artist) && r@ == paged(all, offset as int, size as int),
        forall|i: int, j: int|
            0 <= i < j < r@.len() ==> text_at_most(
                lowercase(
                    if by_artist {
                        (#[trigger] r@[i]).artist@
                    } else {
                        r@[i].name@
                    },
                ),
                lowercase(
                    if by_artist {
                        (#[trigger] r@[j]).artist@
                    } else {
                        r@[j].name@
                    },
                ),
            ),
{
    let ghost list = albums@;
    let mut keys: Vec<Vec<char>> = Vec::new();
    let mut k: usize = 0;
    while k < albums.len()
        invariant
            k <= albums@.len(),
            keys@.len() == k,
            albums@ == list,
            forall|j: int|
                0 <= j < k ==> (#[trigger] keys@[j])@ == lowercase(
                    if by_artist {
                        list[j].artist@
                    } else {
                        list[j].name@
                    },
                ),
        decreases albums@.len() - k,
    {
        let lower = if by_artist {
            text::to_lowercase(albums[k].artist.as_str())
        } else {
            text::to_lowercase(albums[k].name.as_str())
        };
        keys.push(text::chars_of(lower.as_str()));
        k += 1;
    }
    let sorted = lists::sort_by_keys(albums, &keys);
    let ghost le = |a: AlbumId3, b: AlbumId3|
        if by_artist {
            name_at_most(a.artist@, b.artist@)
        } else {
            name_at_most(a.name@, b.name@)
        };
    proof {
        lemma_sorted_by(sorted@, list, keys@, le);
        assert(lists_names(sorted@, list, by_artist));
        let all = sorted@;
        assert forall|i: int, j: int|
            0 <= i < j < paged(all, offset as int, size as int).len() implies text_at_most(
            lowercase(
                if by_artist {
                    (#[trigger] paged(all, offset as int, size as int)[i]).artist@
                } else {
                    paged(all, offset as int, size as int)[i].name@
                },
            ),
            lowercase(
                if by_artist {
                    (#[trigger] paged(all, offset as int, size as int)[j]).artist@
                } else {
                    paged(all, offset as int, size as int)[j].name@
                },
            ),
        ) by {
            law_albums_are_listed_by_whole_names(all, list, by_artist, offset + i, offset + j);
        }
    }
    page(sorted, offset, size)
}

/// The sizes of the pictures of an album: small, medium and large.
pub const PICTURE_SIZES: [u32; 3] = [160, 320, 640];

/// The answer to a request for a list of albums.
pub fn get_album_list2(album: Vec<AlbumId3>) -> (r: AlbumList2Response)
    ensures
        r.album_list.album == album,
{
    AlbumList2Response { album_list: AlbumList2 { album } }
}

/// Albums in the older shape.
pub fn legacy_albums(albums: Vec<AlbumId3>) -> (r: Vec<Album>)
    ensures
        r@ == albums@.map_values(|a: AlbumId3| <Album as FromSpec<AlbumId3>>::from_spec(a)),
        r@.len() == albums@.len(),
        forall|i: int|
            0 <= i < albums@.len() ==> (#[trigger] r@[i]).id == albums@[i].id && r@[i].name
                == albums@[i].name && r@[i].artist == albums@[i].artist && r@[i].artist_id
                == albums@[i].artist_id && r@[i].cover_art == albums@[i].cover_art
                && r@[i].song_count == albums@[i].song_count && r@[i].duration
                == albums@[i].duration && r@[i].play_count == albums@[i].play_count
                && r@[i].created == albums@[i].created && r@[i].year == albums@[i].year
                && r@[i].genre == albums@[i].genre && r@[i].genres == albums@[i].genres,
{
    let ghost all = albums@;
    let mut out: Vec<Album> = Vec::new();
    for a in it: albums
        invariant
            it.seq() == all,
            out@ =~= all.take(it.index() as int).map_values(
                |a: AlbumId3| <Album as FromSpec<AlbumId3>>::from_spec(a),
            ),
    {
        assert(all.take(it.index() + 1) =~= all.take(it.index() as int).push(a));
        out.push(Album::from(a));
    }
    assert(all.take(all.len() as int) =~= all);
    out
}

/// The answer to a request for a list of albums in the older shape.
pub fn get_album_list(album: Vec<AlbumId3>) -> (r: AlbumListResponse)
    ensures
        r.album_list.album@ == album@.map_values(
            |a: AlbumId3| <Album as FromSpec<AlbumId3>>::from_spec(a),
        ),
{
    AlbumListResponse { album_list: AlbumList { album: legacy_albums(album) } }
}

/// What is known of an album beside itself: its pictures, small, medium and large.
pub fn album_info(images: Option<(String, String, String)>) -> (r: AlbumInfo)
    ensures
        r.notes@.len() == 0,
        r.music_brainz_id@.len() == 0,
        r.last_fm_url@.len() == 0,
        match images {
            Some((s, m, l)) => r.small_image_url == Some(s) && r.medium_image_url == Some(m)
                && r.large_image_url == Some(l),
            None => r.small_image_url is None && r.medium_image_url is None && r.large_image_url
                is None,
        },
{
    let (small, medium, large) = match images {
        Some((s, m, l)) => (Some(s), Some(m), Some(l)),
        None => (None, None, None),
    };
    AlbumInfo {
        notes: String::new(),
        music_brainz_id: String::new(),
        last_fm_url: String::new(),
        small_image_url: small,
        medium_image_url: medium,
        large_image_url: large,
    }
}

} // verus!
