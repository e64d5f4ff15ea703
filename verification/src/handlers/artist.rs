//! Artists: one with the albums, what is known of them, and their best songs.

use crate::handlers::lyrics::wrap32;
use crate::handlers::{first_id, first_id_of, is_missing, is_requested, limit, limited, missing,
    not_found, numbered, read_number, requested, Failure};
use crate::ids;
use crate::ids::IdKind;
use crate::json;
use crate::json::{field, items, number, string, Json};
use crate::models::album::AlbumId3;
use crate::models::artist::{ArtistId3, ArtistInfo2, ArtistWithAlbums};
use crate::params::QueryParams;
use crate::text;
use crate::text::{chars_of, find_char, find_text, next_char, next_text, trimmed, unsigned};
use vstd::prelude::*;

verus! {

/// The artist that a request is for.
pub fn get_artist(q: &QueryParams) -> (r: Result<u64, Failure>)
    ensures
        is_requested(r, *q, IdKind::Artist),
        q.id.0@.len() == 0 ==> r is Err && r->Err_0.code == 10,
        q.id.0@.len() > 0 ==> (r is Ok <==> numbered(IdKind::Artist, q.id.0@[0]@) is Some),
        r is Ok ==> numbered(IdKind::Artist, q.id.0@[0]@) == Some(r->Ok_0 as nat),
        q.id.0@.len() > 0 && r is Err ==> r->Err_0.code == 70 && r->Err_0.message@ == "Artist not found"@,
{
    requested(q, IdKind::Artist)
}

/// An artist with the albums, as many as are counted.
pub fn artist_with_albums(artist: ArtistId3, albums: Vec<AlbumId3>) -> (r: ArtistWithAlbums)
    ensures
        r.album == albums,
        r.artist == (ArtistId3 { album_count: Some(wrap32(albums@.len() as int)), ..artist }),
        r.artist.id == artist.id,
        r.artist.name == artist.name,
        r.artist.cover_art == artist.cover_art,
        r.artist.artist_image_url == artist.artist_image_url,
        r.artist.starred == artist.starred,
        r.artist.starred_at == artist.starred_at,
        r.artist.album_count is Some,
        albums@.len() <= u32::MAX ==> r.artist.album_count->0 == albums@.len(),
{
    let mut a = artist;
    a.album_count = Some((albums.len() as u64 % 0x1_0000_0000) as u32);
    ArtistWithAlbums { artist: a, album: albums }
}

/// Whose best songs a request is for.
#[derive(Debug)]
pub enum TopSongsOf {
    Artist(u64),
    /// The first artist that a search for this name finds.
    Named(String),
}

/// Decides whose best songs a request is for: an identifier counts before a name.
pub fn get_top_songs(q: &QueryParams) -> (r: Result<TopSongsOf, Failure>)
    ensures
        match first_id_of(*q) {
            Some(id) => match numbered(IdKind::Artist, id) {
                Some(n) => r matches Ok(TopSongsOf::Artist(m)) && m == n,
                None => r matches Err(f) && f.is(70, "Artist not found"@),
            },
            None => match q.artist {
                Some(a) => if trimmed(a@).len() > 0 {
                    r matches Ok(TopSongsOf::Named(s)) && s@ == trimmed(a@)
                } else {
                    r matches Err(f) && is_missing(f)
                },
                None => r matches Err(f) && is_missing(f),
            },
        },
        q.id.0@.len() > 0 ==> (r is Ok <==> numbered(IdKind::Artist, q.id.0@[0]@) is Some),
        q.id.0@.len() == 0 ==> (r is Ok <==> q.artist is Some && exists|i: int|
            0 <= i < q.artist->0@.len() && !text::is_space(#[trigger] q.artist->0@[i])),
        r is Ok && q.id.0@.len() > 0 ==> (r->Ok_0 matches TopSongsOf::Artist(n) && numbered(
            IdKind::Artist,
            q.id.0@[0]@,
        ) == Some(n as nat)),
{
    proof {
        if q.artist is Some {
            text::law_only_blank_texts_trim_to_nothing(q.artist->0@);
        }
    }
    match first_id(q) {
        Some(id) => match read_number(IdKind::Artist, id) {
            Some(n) => Ok(TopSongsOf::Artist(n)),
            None => Err(not_found(IdKind::Artist)),
        },
        None => match &q.artist {
            Some(a) => {
                let name = text::trim(a.as_str());
                if name.unicode_len() > 0 {
                    Ok(TopSongsOf::Named(name.to_owned()))
                } else {
                    Err(missing())
                }
            },
            None => Err(missing()),
        },
    }
}

/// How many of the best songs a request is for.
pub fn top_songs_count(q: &QueryParams) -> (r: u32)
    ensures
        r == limited(q.count, 50, 500),
        q.count is None ==> r == 50,
        q.count is Some && q.count->0 <= 500 ==> r == q.count->0,
        q.count is Some && q.count->0 > 500 ==> r == 500,
{
    limit(q.count, 50, 500)
}

/// The number of the first of these, as of the first artist that a search found.
pub open spec fn first_number(v: Seq<Json>) -> Option<u64> {
    if v.len() > 0 {
        number(field(v[0], "id"@))
    } else {
        None
    }
}

/// The first artist of a list.
pub fn first_artist(v: &Vec<Json>) -> (r: Result<u64, Failure>)
    ensures
        match first_number(v@) {
            Some(n) => r matches Ok(m) && m == n,
            None => r matches Err(f) && f.is(70, "Artist not found"@),
        },
        r is Ok <==> v@.len() > 0 && number(field(v@[0], "id"@)) is Some,
        r is Ok ==> number(field(v@[0], "id"@)) == Some(r->Ok_0),
        r is Err ==> r->Err_0.code == 70 && r->Err_0.message@ == "Artist not found"@,
{
    if v.len() > 0 {
        if let Some(n) = json::as_u64(v[0].get("id")) {
            return Ok(n);
        }
    }
    Err(not_found(IdKind::Artist))
}

/// The first artist of an album or of a track.
pub fn artist_of(detail: &Json) -> (r: Result<u64, Failure>)
    ensures
        match first_number(items(field(*detail, "artists"@))) {
            Some(n) => r matches Ok(m) && m == n,
            None => r matches Err(f) && f.is(70, "Artist not found"@),
        },
        r is Ok ==> (field(*detail, "artists"@) matches Some(Json::Array(v)) && v@.len() > 0 && number(
            field(v@[0], "id"@),
        ) == Some(r->Ok_0)),
        (field(*detail, "artists"@) matches Some(Json::Array(v)) && v@.len() > 0 && number(
            field(v@[0], "id"@),
        ) is Some) ==> r is Ok,
        r is Err ==> r->Err_0.code == 70 && r->Err_0.message@ == "Artist not found"@,
{
    match detail.get("artists") {
        Some(Json::Array(v)) => first_artist(v),
        _ => Err(not_found(IdKind::Artist)),
    }
}

/// Of whom a request asks what is known.
#[derive(Debug, Clone, Copy, PartialEq, Eq, Structural)]
pub enum ArtistRef {
    Artist(u64),
    /// The first artist of this album.
    OfAlbum(u64),
    /// The first artist of this track.
    OfTrack(u64),
}

/// The artist that an identifier leads to: that of an artist, of an album or of a track, or a
/// bare number.
pub open spec fn artist_ref(id: Seq<char>) -> Option<ArtistRef> {
    match ids::parsed(id) {
        Some((IdKind::Artist, n)) => Some(ArtistRef::Artist(n as u64)),
        Some((IdKind::Album, n)) => Some(ArtistRef::OfAlbum(n as u64)),
        Some((IdKind::Track, n)) => Some(ArtistRef::OfTrack(n as u64)),
        _ => match unsigned(id, u64::MAX as nat) {
            Some(n) => Some(ArtistRef::Artist(n as u64)),
            None => None,
        },
    }
}

/// Decides of whom a request asks what is known.
pub fn artist_info(q: &QueryParams) -> (r: Result<ArtistRef, Failure>)
    ensures
        match first_id_of(*q) {
            Some(id) => match artist_ref(id) {
                Some(a) => r == Ok::<ArtistRef, Failure>(a),
                None => r matches Err(f) && f.is(70, "Artist not found"@),
            },
            None => r matches Err(f) && is_missing(f),
        },
{
    let id = match first_id(q) {
        Some(s) => s,
        None => {
            return Err(missing());
        },
    };
    match ids::parse(id) {
        Some((IdKind::Artist, n)) => Ok(ArtistRef::Artist(n)),
        Some((IdKind::Album, n)) => Ok(ArtistRef::OfAlbum(n)),
        Some((IdKind::Track, n)) => Ok(ArtistRef::OfTrack(n)),
        _ => match text::parse_u64(id) {
            Some(n) => Ok(ArtistRef::Artist(n)),
            None => Err(not_found(IdKind::Artist)),
        },
    }
}

/// How many similar artists a request is for.
pub fn similar_count(q: &QueryParams) -> (r: u32)
    ensures
        r == limited(q.count, 20, 500),
        q.count is None ==> r == 20,
        q.count is Some && q.count->0 <= 500 ==> r == q.count->0,
        q.count is Some && q.count->0 > 500 ==> r == 500,
{
    limit(q.count, 20, 500)
}

/// The place behind the next closing bracket, or `i` where there is none.
pub open spec fn behind_bracket(s: Seq<char>, i: int) -> int {
    let e = next_char(s, ']', i);
    if e < s.len() {
        e + 1
    } else {
        i
    }
}

/// A text from `i` on without the tags of links. What a link encloses stays.
pub open spec fn stripped_from(s: Seq<char>, i: int) -> Seq<char>
    decreases s.len() - i,
{
    let open = next_text(s, "[wimpLink"@, i);
    let close = next_text(s, "[/wimpLink]"@, i);
    if i < 0 || i > s.len() {
        Seq::empty()
    } else {
        match (open, close) {
            (Some(o), Some(c)) => if o < c {
                if i <= o < s.len() && o < behind_bracket(s, o + 1) <= s.len() {
                    s.subrange(i, o) + stripped_from(s, behind_bracket(s, o + 1))
                } else {
                    Seq::empty()
                }
            } else {
                if i <= c && c + 11 <= s.len() {
                    s.subrange(i, c) + stripped_from(s, c + 11)
                } else {
                    Seq::empty()
                }
            },
            (Some(o), None) => if i <= o < s.len() && o < behind_bracket(s, o + 1) <= s.len() {
                s.subrange(i, o) + stripped_from(s, behind_bracket(s, o + 1))
            } else {
                Seq::empty()
            },
            (None, Some(c)) => if i <= c && c + 11 <= s.len() {
                s.subrange(i, c) + stripped_from(s, c + 11)
            } else {
                Seq::empty()
            },
            (None, None) => s.subrange(i, s.len() as int),
        }
    }
}

/// A text without the tags of links.
pub open spec fn stripped(s: Seq<char>) -> Seq<char> {
    stripped_from(s, 0)
}

/// Takes the tags of links out of a text.
pub fn strip_wimplinks(bio: &str) -> (r: String)
    ensures
        r@ == stripped(bio@),
{
    let v = chars_of(bio);
    let open_tag = chars_of("[wimpLink");
    let close_tag = chars_of("[/wimpLink]");
    proof {
        reveal_strlit("[wimpLink");
        reveal_strlit("[/wimpLink]");
    }
    let mut out = String::new();
    let mut i: usize = 0;
    assert(out@ + stripped_from(v@, 0) =~= stripped(bio@));
    loop
        invariant
            i <= v@.len(),
            v@ == bio@,
            open_tag@ == "[wimpLink"@,
            close_tag@ == "[/wimpLink]"@,
            open_tag@.len() == 9,
            close_tag@.len() == 11,
            stripped(bio@) == out@ + stripped_from(v@, i as int),
        decreases v@.len() - i,
    {
        let open = find_text(&v, &open_tag, i);
        let close = find_text(&v, &close_tag, i);
        let ghost before = out@;
        let len: usize = v.len();
        assert(open is Some ==> open->0 + 9 <= len);
        assert(close is Some ==> close->0 + 11 <= len);
        let opens: Option<usize> = match (open, close) {
            (Some(o), Some(c)) => if o < c {
                Some(o)
            } else {
                None
            },
            (Some(o), None) => Some(o),
            _ => None,
        };
        match opens {
            Some(o) => {
                out.append(text::text_of(&v, i, o).as_str());
                let e: usize = find_char(&v, ']', o + 1);
                let next: usize = if e < v.len() {
                    e + 1
                } else {
                    o + 1
                };
                assert(next == behind_bracket(v@, o + 1));
                assert(before + (v@.subrange(i as int, o as int) + stripped_from(v@, next as int))
                    =~= out@ + stripped_from(v@, next as int));
                i = next;
            },
            None => match close {
                Some(c) => {
                    out.append(text::text_of(&v, i, c).as_str());
                    assert(before + (v@.subrange(i as int, c as int) + stripped_from(v@, c + 11))
                        =~= out@ + stripped_from(v@, c + 11));
                    i = c + 11;
                },
                None => {
                    out.append(text::text_of(&v, i, v.len()).as_str());
                    return out;
                },
            },
        }
    }
}

/// A text without tags stays as it is.
pub proof fn law_plain_text_stays(s: Seq<char>)
    requires
        next_text(s, "[wimpLink"@, 0) is None,
        next_text(s, "[/wimpLink]"@, 0) is None,
    ensures
        stripped(s) == s,
{
    assert(s.subrange(0, s.len() as int) =~= s);
}

proof fn lemma_stripped_behind(a: Seq<char>, b: Seq<char>, i: int)
    requires
        0 <= i <= b.len(),
    ensures
        stripped_from(a + b, a.len() + i) == stripped_from(b, i),
    decreases b.len() - i,
{
    let s = a + b;
    let n = a.len() as int;
    reveal_strlit("[wimpLink");
    reveal_strlit("[/wimpLink]");
    let open_tag = "[wimpLink"@;
    let close_tag = "[/wimpLink]"@;
    assert(open_tag.len() == 9 && close_tag.len() == 11);
    text::lemma_next_text_shift(a, b, open_tag, i);
    text::lemma_next_text_shift(a, b, close_tag, i);
    let open = next_text(b, open_tag, i);
    let close = next_text(b, close_tag, i);
    if open is Some && (close is None || open->0 < close->0) {
        let o = open->0;
        text::lemma_next_char(b, ']', o + 1);
        text::lemma_next_char_behind(a, b, ']', o + 1);
        let next = behind_bracket(b, o + 1);
        assert(behind_bracket(s, n + o + 1) == n + next);
        lemma_stripped_behind(a, b, next);
        assert(s.subrange(n + i, n + o) =~= b.subrange(i, o));
    } else if close is Some {
        let c = close->0;
        lemma_stripped_behind(a, b, c + 11);
        assert(s.subrange(n + i, n + c) =~= b.subrange(i, c));
    } else {
        assert(s.subrange(n + i, s.len() as int) =~= b.subrange(i, b.len() as int));
    }
}

/// Of a link its text stays, and nothing of its tags: what comes before it, its text, and then
/// what comes after it with the tags taken out.
pub proof fn law_a_link_leaves_its_text(
    pre: Seq<char>,
    attributes: Seq<char>,
    inner: Seq<char>,
    rest: Seq<char>,
)
    requires
        !pre.contains('['),
        !attributes.contains('['),
        !attributes.contains(']'),
        !inner.contains('['),
    ensures
        stripped(
            pre + ("[wimpLink"@ + attributes + "]"@) + inner + "[/wimpLink]"@ + rest,
        ) == pre + inner + stripped(rest),
{
    reveal_strlit("[wimpLink");
    reveal_strlit("[/wimpLink]");
    reveal_strlit("]");
    let open_tag = "[wimpLink"@;
    let close_tag = "[/wimpLink]"@;
    let before = pre + (open_tag + attributes + "]"@) + inner + close_tag;
    let s = before + rest;
    let o = pre.len() as int;
    let t = o + 9 + attributes.len();
    let c = t + 1 + inner.len();
    assert(open_tag.len() == 9 && close_tag.len() == 11 && "]"@.len() == 1);
    assert(open_tag[0] == '[' && open_tag[1] == 'w' && close_tag[0] == '[' && close_tag[1] == '/');
    assert forall|j: int| 0 <= j < c && j != o implies s[j] != '[' by {
        if j < o {
            assert(s[j] == pre[j]);
        } else if j < o + 9 {
            assert(s[j] == open_tag[j - o]);
            assert(open_tag =~= seq!['[', 'w', 'i', 'm', 'p', 'L', 'i', 'n', 'k']);
        } else if j < t {
            assert(s[j] == attributes[j - o - 9]);
        } else if j == t {
            assert(s[j] == "]"@[0]);
        } else {
            assert(s[j] == inner[j - t - 1]);
        }
    }
    assert(s.subrange(o, o + 9) =~= open_tag);
    assert(s.subrange(c, c + 11) =~= close_tag);
    assert forall|j: int| 0 <= j < o implies !#[trigger] text::occurs(s, open_tag, j) by {
        if text::occurs(s, open_tag, j) {
            assert(s.subrange(j, j + 9)[0] == s[j]);
        }
    }
    assert forall|j: int| 0 <= j < c implies !#[trigger] text::occurs(s, close_tag, j) by {
        if text::occurs(s, close_tag, j) {
            assert(s.subrange(j, j + 11)[0] == s[j]);
            assert(s.subrange(j, j + 11)[1] == s[j + 1]);
            assert(s[o + 1] == open_tag[1]);
        }
    }
    assert forall|j: int| t + 1 <= j < s.len() && j < c implies !#[trigger] text::occurs(
        s,
        open_tag,
        j,
    ) by {
        if text::occurs(s, open_tag, j) {
            assert(s.subrange(j, j + 9)[0] == s[j]);
        }
    }
    text::lemma_next_text_is(s, open_tag, 0, o);
    text::lemma_next_text_is(s, close_tag, 0, c);
    text::lemma_next_text_is(s, close_tag, t + 1, c);
    assert forall|j: int| o + 1 <= j < t implies s[j] != ']' by {
        if j < o + 9 {
            assert(s[j] == open_tag[j - o]);
            assert(open_tag =~= seq!['[', 'w', 'i', 'm', 'p', 'L', 'i', 'n', 'k']);
        } else {
            assert(s[j] == attributes[j - o - 9]);
        }
    }
    assert(s[t] == "]"@[0]);
    text::lemma_next_char_is(s, ']', o + 1, t);
    assert(behind_bracket(s, o + 1) == t + 1);
    assert(stripped(s) == s.subrange(0, o) + stripped_from(s, t + 1));
    // The next opening tag, if there is one, comes after the closing tag.
    lemma_next_text_not_before(s, open_tag, t + 1, c);
    assert(stripped_from(s, t + 1) == s.subrange(t + 1, c) + stripped_from(s, c + 11));
    lemma_stripped_behind(before, rest, 0);
    assert(s.subrange(0, o) =~= pre);
    assert(s.subrange(t + 1, c) =~= inner);
    assert(pre + (inner + stripped(rest)) =~= pre + inner + stripped(rest));
}

proof fn lemma_next_text_not_before(s: Seq<char>, p: Seq<char>, from: int, c: int)
    requires
        0 <= from <= c < s.len(),
        forall|j: int| from <= j < s.len() && j < c ==> !#[trigger] text::occurs(s, p, j),
        p.len() > 1,
        p[1] != s[c + 1] || c + 1 >= s.len(),
    ensures
        match next_text(s, p, from) {
            Some(i) => i > c,
            None => true,
        },
    decreases c - from,
{
    if from < c {
        assert(!text::occurs(s, p, from));
        lemma_next_text_not_before(s, p, from + 1, c);
    } else {
        if text::occurs(s, p, c) {
            assert(s.subrange(c, c + p.len())[1] == s[c + 1]);
        }
        lemma_next_text_at_least(s, p, c + 1);
    }
}

proof fn lemma_next_text_at_least(s: Seq<char>, p: Seq<char>, from: int)
    ensures
        match next_text(s, p, from) {
            Some(i) => i >= from,
            None => true,
        },
    decreases s.len() + 1 - from,
{
    if 0 <= from && from + p.len() <= s.len() && !text::occurs(s, p, from) {
        lemma_next_text_at_least(s, p, from + 1);
    }
}

/// The sizes of the pictures of an artist: small, medium and large.
pub const PICTURE_SIZES: [u32; 3] = [160, 480, 750];

/// What is known of an artist: the story of the artist, the pictures, and similar artists. What
/// could not be had is empty.
pub fn make_artist_info(
    bio: Option<&Json>,
    images: Option<(String, String, String)>,
    similar: Vec<ArtistId3>,
) -> (r: ArtistInfo2)
    ensures
        r.biography@ == (match bio {
            Some(j) => match string(field(*j, "text"@)) {
                Some(s) => stripped(s),
                None => stripped(Seq::empty()),
            },
            None => stripped(Seq::empty()),
        }),
        r.music_brainz_id@.len() == 0,
        r.last_fm_url@.len() == 0,
        match images {
            Some((s, m, l)) => r.small_image_url == Some(s) && r.medium_image_url == Some(m)
                && r.large_image_url == Some(l),
            None => r.small_image_url is None && r.medium_image_url is None && r.large_image_url
                is None,
        },
        r.similar_artist == similar,
        bio is None || string(field(*bio->0, "text"@)) is None ==> r.biography@.len() == 0,
        bio is Some && string(field(*bio->0, "text"@)) is Some && next_text(
            string(field(*bio->0, "text"@))->0,
            "[wimpLink"@,
            0,
        ) is None && next_text(string(field(*bio->0, "text"@))->0, "[/wimpLink]"@, 0) is None
            ==> r.biography@ == string(field(*bio->0, "text"@))->0,
        images is Some ==> {
            let (s, m, l) = images->0;
            &&& r.small_image_url == Some(s)
            &&& r.medium_image_url == Some(m)
            &&& r.large_image_url == Some(l)
        },
{
    proof {
        law_no_text_leaves_nothing();
        if bio is Some && string(field(*bio->0, "text"@)) is Some && next_text(
            string(field(*bio->0, "text"@))->0,
            "[wimpLink"@,
            0,
        ) is None && next_text(string(field(*bio->0, "text"@))->0, "[/wimpLink]"@, 0) is None {
            law_plain_text_stays(string(field(*bio->0, "text"@))->0);
        }
    }
    proof {
        reveal_strlit("");
        assert(""@ =~= Seq::empty());
    }
    let story = match bio {
        Some(j) => match json::as_str(j.get("text")) {
            Some(s) => s,
            None => "",
        },
        None => "",
    };
    let (small, medium, large) = match images {
        Some((s, m, l)) => (Some(s), Some(m), Some(l)),
        None => (None, None, None),
    };
    ArtistInfo2 {
        biography: strip_wimplinks(story),
        music_brainz_id: String::new(),
        last_fm_url: String::new(),
        small_image_url: small,
        medium_image_url: medium,
        large_image_url: large,
        similar_artist: similar,
    }
}

/// Of an empty text nothing is left.
pub proof fn law_no_text_leaves_nothing()
    ensures
        stripped(Seq::empty()).len() == 0,
{
    reveal_strlit("[wimpLink");
    reveal_strlit("[/wimpLink]");
    let s = Seq::<char>::empty();
    assert("[wimpLink"@.len() == 9 && "[/wimpLink]"@.len() == 11);
    text::lemma_next_text_fits(s, "[wimpLink"@, 0);
    text::lemma_next_text_fits(s, "[/wimpLink]"@, 0);
    law_plain_text_stays(s);
}

/// An identifier leads to the artist of the thing that it was written for, and a bare number to the
/// artist with that number; that of a playlist leads to none.
pub proof fn law_identifiers_lead_to_an_artist(n: u64)
    ensures
        artist_ref(ids::encoded(IdKind::Artist, n as nat)) == Some(ArtistRef::Artist(n)),
        artist_ref(ids::encoded(IdKind::Album, n as nat)) == Some(ArtistRef::OfAlbum(n)),
        artist_ref(ids::encoded(IdKind::Track, n as nat)) == Some(ArtistRef::OfTrack(n)),
        artist_ref(ids::encoded(IdKind::Playlist, n as nat)) is None,
        artist_ref(text::decimal(n as nat)) == Some(ArtistRef::Artist(n)),
{
    ids::law_parse_undoes_encode(IdKind::Album, n);
    ids::law_parse_undoes_encode(IdKind::Artist, n);
    ids::law_parse_undoes_encode(IdKind::Track, n);
    ids::law_parse_undoes_encode(IdKind::Playlist, n);
    ids::law_letters_come_first(IdKind::Playlist, n as nat);
    ids::law_identifiers_are_letters_and_a_number(n);
    text::law_decimal_reads_back(n as nat, u64::MAX as nat);
}

} // verus!
