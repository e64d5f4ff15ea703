//! Pictures: covers and the avatar. Clients are sent to where the pictures are.

use crate::handlers::{first_id, first_id_of, is_missing, missing, pairs, put, Failure, HttpReply};
use crate::ids;
use crate::ids::IdKind;
use crate::json;
use crate::json::{field, field2, string, Json};
use crate::params::QueryParams;
use crate::text;
use crate::text::{after_prefix, begins, opt_view, unsigned};
use vstd::prelude::*;

verus! {

/// What the picture belongs to.
#[derive(Debug, Clone, Copy, PartialEq, Eq, Structural)]
pub enum PictureOf {
    Album,
    Artist,
    Track,
    Playlist,
}

/// What a request for a picture leads to.
#[derive(Debug)]
pub enum CoverStep {
    Fail(Failure),
    /// The picture, whether it shows an artist, and its size.
    Picture(String, bool, u32),
    /// The mix with this name is looked for among all mixes.
    Mix(String),
    /// The playlist with this name is fetched.
    Playlist(String),
    /// The thing of this kind with this number is fetched.
    Fetch(PictureOf, u64),
}

/// The size of a picture where none is asked for.
pub open spec fn size_of(q: QueryParams) -> u32 {
    match q.size {
        Some(s) => s,
        None => 640,
    }
}

/// What an identifier that is none of a mix leads to, where its picture is not known: a playlist
/// by a name with a dash, and otherwise by its kind. A bare number is that of an album.
pub open spec fn is_cover_lookup(r: CoverStep, id: Seq<char>) -> bool {
    if id.contains('-') {
        r matches CoverStep::Playlist(p) && p@ == id
    } else {
        match ids::parsed(id) {
            Some((IdKind::Album, n)) => r == CoverStep::Fetch(PictureOf::Album, n as u64),
            Some((IdKind::Artist, n)) => r == CoverStep::Fetch(PictureOf::Artist, n as u64),
            Some((IdKind::Track, n)) => r == CoverStep::Fetch(PictureOf::Track, n as u64),
            Some((IdKind::Playlist, _)) => r matches CoverStep::Fail(f) && f.is(
                70,
                "Cover art not found"@,
            ),
            None => match unsigned(id, u64::MAX as nat) {
                Some(n) => r == CoverStep::Fetch(PictureOf::Album, n as u64),
                None => r matches CoverStep::Fail(f) && f.is(70, "Cover art not found"@),
            },
        }
    }
}

/// What a request for a picture leads to, where `known` is the picture of its identifier as far
/// as it was seen before.
pub open spec fn is_cover_step(r: CoverStep, q: QueryParams, known: Option<String>) -> bool {
    match first_id_of(q) {
        Some(id) => match known {
            Some(p) => r == CoverStep::Picture(p, !begins(id, "mx"@) && begins(id, "ar"@), size_of(q)),
            None => match after_prefix(id, "mx"@) {
                Some(mix) => r matches CoverStep::Mix(m) && m@ == mix,
                None => is_cover_lookup(r, id),
            },
        },
        None => r matches CoverStep::Fail(f) && is_missing(f),
    }
}

/// Decides what a request for a picture leads to.
pub fn get_cover_art(q: &QueryParams, known: Option<String>) -> (r: CoverStep)
    ensures
        is_cover_step(r, *q, known),
        q.id.0@.len() > 0 && known is Some ==> (r matches CoverStep::Picture(p, artist, size) && p
            == known->0 && (q.size is Some ==> size == q.size->0) && (q.size is None ==> size == 640)
            && (artist <==> "ar"@.is_prefix_of(q.id.0@[0]@))),
        q.id.0@.len() > 0 && known is None && "mx"@.is_prefix_of(q.id.0@[0]@) ==> (
        r matches CoverStep::Mix(m) && q.id.0@[0]@ == "mx"@ + m@),
        q.id.0@.len() > 0 && known is None && !"mx"@.is_prefix_of(q.id.0@[0]@) && q.id.0@[0]@.contains('-')
            ==> (r matches CoverStep::Playlist(p) && p@ == q.id.0@[0]@),
{
    proof {
        if q.id.0@.len() > 0 {
            let s = q.id.0@[0]@;
            reveal_strlit("mx");
            reveal_strlit("ar");
            assert("mx"@.len() == 2 && "ar"@.len() == 2 && "mx"@[0] == 'm' && "ar"@[0] == 'a');
            assert(s.len() >= 2 ==> ("mx"@.is_prefix_of(s) <==> s.subrange(0, 2) =~= "mx"@));
            assert(s.len() >= 2 ==> ("ar"@.is_prefix_of(s) <==> s.subrange(0, 2) =~= "ar"@));
            assert("mx"@.is_prefix_of(s) ==> s[0] == 'm');
            assert("ar"@.is_prefix_of(s) ==> s[0] == 'a');
            text::law_a_prefix_leaves_the_rest("mx"@, s, s);
        }
    }
    let id = match first_id(q) {
        Some(s) => s,
        None => {
            return CoverStep::Fail(missing());
        },
    };
    let size: u32 = match q.size {
        Some(s) => s,
        None => 640,
    };
    let mix = text::strip_prefix(id, "mx");
    match known {
        Some(p) => {
            let artist = mix.is_none() && text::starts_with(id, "ar");
            return CoverStep::Picture(p, artist, size);
        },
        None => {},
    }
    if let Some(m) = mix {
        return CoverStep::Mix(m.to_owned());
    }
    if text::has_char(id, '-') {
        return CoverStep::Playlist(id.to_owned());
    }
    match ids::parse(id) {
        Some((IdKind::Album, n)) => CoverStep::Fetch(PictureOf::Album, n),
        Some((IdKind::Artist, n)) => CoverStep::Fetch(PictureOf::Artist, n),
        Some((IdKind::Track, n)) => CoverStep::Fetch(PictureOf::Track, n),
        Some((IdKind::Playlist, _)) => CoverStep::Fail(
            Failure { code: 70, message: "Cover art not found" },
        ),
        None => match text::parse_u64(id) {
            Some(n) => CoverStep::Fetch(PictureOf::Album, n),
            None => CoverStep::Fail(Failure { code: 70, message: "Cover art not found" }),
        },
    }
}

/// The picture that a reply of the catalogue holds.
pub open spec fn picture_in(of: PictureOf, detail: Json) -> Option<Seq<char>> {
    match of {
        PictureOf::Album => string(field(detail, "cover"@)),
        PictureOf::Artist => string(field(detail, "picture"@)),
        PictureOf::Track => string(field2(detail, "album"@, "cover"@)),
        PictureOf::Playlist => match string(field(detail, "squareImage"@)) {
            Some(s) => Some(s),
            None => string(field(detail, "image"@)),
        },
    }
}

/// Reads the picture in a reply of the catalogue.
pub fn find_picture<'a>(of: PictureOf, detail: &'a Json) -> (r: Option<&'a str>)
    ensures
        opt_view(r) == picture_in(of, *detail),
        of == PictureOf::Album ==> opt_view(r) == string(field(*detail, "cover"@)),
        of == PictureOf::Artist ==> opt_view(r) == string(field(*detail, "picture"@)),
        of == PictureOf::Track ==> opt_view(r) == string(field2(*detail, "album"@, "cover"@)),
        of == PictureOf::Playlist && string(field(*detail, "squareImage"@)) is Some ==> opt_view(r)
            == string(field(*detail, "squareImage"@)),
        of == PictureOf::Playlist && string(field(*detail, "squareImage"@)) is None ==> opt_view(r)
            == string(field(*detail, "image"@)),
{
    match of {
        PictureOf::Album => json::as_str(detail.get("cover")),
        PictureOf::Artist => json::as_str(detail.get("picture")),
        PictureOf::Track => json::as_str(detail.get2("album", "cover")),
        PictureOf::Playlist => match json::as_str(detail.get("squareImage")) {
            Some(s) => Some(s),
            None => json::as_str(detail.get("image")),
        },
    }
}

/// The address of a picture of a mix in this size.
pub open spec fn mix_image(mix: Json, size: Seq<char>) -> Option<Seq<char>> {
    match field2(mix, "images"@, size) {
        Some(i) => string(field(i, "url"@)),
        None => None,
    }
}

/// The picture of the first mix with this name: the medium one, or the small one.
pub open spec fn picture_of_mix(mixes: Seq<Json>, name: Seq<char>) -> Option<Seq<char>>
    decreases mixes.len(),
{
    if mixes.len() == 0 {
        None
    } else if string(field(mixes[0], "id"@)) == Some(name) {
        match mix_image(mixes[0], "MEDIUM"@) {
            Some(u) => Some(u),
            None => mix_image(mixes[0], "SMALL"@),
        }
    } else {
        picture_of_mix(mixes.drop_first(), name)
    }
}

/// Reads the address of a picture of a mix.
fn read_mix_image<'a>(mix: &'a Json, size: &str) -> (r: Option<&'a str>)
    ensures
        opt_view(r) == mix_image(*mix, size@),
{
    match mix.get2("images", size) {
        Some(i) => json::as_str(i.get("url")),
        None => None,
    }
}

/// Looks for the picture of a mix.
pub fn find_mix_picture<'a>(mixes: &'a Vec<Json>, name: &str) -> (r: Option<&'a str>)
    ensures
        opt_view(r) == picture_of_mix(mixes@, name@),
        (forall|i: int|
            0 <= i < mixes@.len() ==> string(field(#[trigger] mixes@[i], "id"@)) != Some(name@)) ==> r
            is None,
{
    let mut i: usize = 0;
    assert(mixes@.subrange(0, mixes@.len() as int) =~= mixes@);
    while i < mixes.len()
        invariant
            i <= mixes@.len(),
            forall|j: int| 0 <= j < i ==> string(field(#[trigger] mixes@[j], "id"@)) != Some(name@),
            picture_of_mix(mixes@, name@) == picture_of_mix(
                mixes@.subrange(i as int, mixes@.len() as int),
                name@,
            ),
        decreases mixes@.len() - i,
    {
        let ghost rest = mixes@.subrange(i as int, mixes@.len() as int);
        assert(rest[0] == mixes@[i as int]);
        if let Some(id) = json::as_str(mixes[i].get("id")) {
            if text::same(id, name) {
                return match read_mix_image(&mixes[i], "MEDIUM") {
                    Some(u) => Some(u),
                    None => read_mix_image(&mixes[i], "SMALL"),
                };
            }
        }
        assert(rest.drop_first() =~= mixes@.subrange(i + 1, mixes@.len() as int));
        i += 1;
    }
    None
}

/// What comes of a lookup: the picture, or that there is none.
pub fn cover_found(picture: Option<String>, artist: bool, size: u32) -> (r: CoverStep)
    ensures
        match picture {
            Some(p) => r == CoverStep::Picture(p, artist, size),
            None => r matches CoverStep::Fail(f) && f.is(70, "Cover art not found"@),
        },
{
    match picture {
        Some(p) => CoverStep::Picture(p, artist, size),
        None => CoverStep::Fail(Failure { code: 70, message: "Cover art not found" }),
    }
}

/// A picture of one transparent point, for a user without an avatar.
pub const PLACEHOLDER_PNG: [u8; 68] = [
    137, 80, 78, 71, 13, 10, 26, 10, 0, 0, 0, 13, 73, 72, 68, 82, 0, 0, 0, 1, 0, 0, 0, 1, 8, 6, 0,
    0, 0, 31, 21, 196, 137, 0, 0, 0, 11, 73, 68, 65, 84, 120, 156, 99, 96, 0, 2, 0, 0, 5, 0, 1, 122,
    94, 171, 63, 0, 0, 0, 0, 73, 69, 78, 68, 174, 66, 96, 130,
];

/// The picture of the user, with its size, where the profile names one.
pub fn get_avatar(q: &QueryParams, profile: Option<&Json>) -> (r: Option<(String, u32)>)
    ensures
        match r {
            Some((p, size)) => size == size_of(*q) && p@.len() > 0 && profile is Some && string(
                field(*profile->0, "picture"@),
            ) == Some(p@),
            None => match profile {
                Some(j) => match string(field(*j, "picture"@)) {
                    Some(s) => s.len() == 0,
                    None => true,
                },
                None => true,
            },
        },
        r is Some ==> {
            let (p, size) = r->0;
            &&& q.size is Some ==> size == q.size->0
            &&& q.size is None ==> size == 640
        },
{
    let size: u32 = match q.size {
        Some(s) => s,
        None => 640,
    };
    match profile {
        Some(j) => match json::as_str(j.get("picture")) {
            Some(s) => if s.unicode_len() > 0 {
                Some((s.to_owned(), size))
            } else {
                None
            },
            None => None,
        },
        None => None,
    }
}

/// The reply with the placeholder.
pub fn placeholder() -> (r: HttpReply)
    ensures
        r.status == 200,
        pairs(r.headers@) == seq![("Content-Type"@, "image/png"@)],
        r.body@ == PLACEHOLDER_PNG@,
{
    let mut headers: Vec<(String, String)> = Vec::new();
    put(&mut headers, "Content-Type", "image/png");
    assert(pairs(headers@) =~= seq![("Content-Type"@, "image/png"@)]);
    let mut body: Vec<u8> = Vec::new();
    crate::flac::append_bytes(&mut body, &PLACEHOLDER_PNG);
    assert(body@ =~= PLACEHOLDER_PNG@);
    HttpReply { status: 200, headers, body }
}

/// A thing whose picture is not known is looked up by its identifier; a bare number is that of an
/// album. Of a playlist with a number there is no picture.
pub proof fn law_pictures_are_looked_up_by_kind(r: CoverStep, n: u64)
    ensures
        is_cover_lookup(r, ids::encoded(IdKind::Album, n as nat)) <==> r == CoverStep::Fetch(
            PictureOf::Album,
            n,
        ),
        is_cover_lookup(r, ids::encoded(IdKind::Artist, n as nat)) <==> r == CoverStep::Fetch(
            PictureOf::Artist,
            n,
        ),
        is_cover_lookup(r, ids::encoded(IdKind::Track, n as nat)) <==> r == CoverStep::Fetch(
            PictureOf::Track,
            n,
        ),
        is_cover_lookup(r, ids::encoded(IdKind::Playlist, n as nat)) <==> (r matches CoverStep::Fail(
            f,
        ) && f.code == 70 && f.message@ == "Cover art not found"@),
        is_cover_lookup(r, text::decimal(n as nat)) <==> r == CoverStep::Fetch(PictureOf::Album, n),
{
    ids::law_parse_undoes_encode(IdKind::Album, n);
    ids::law_parse_undoes_encode(IdKind::Artist, n);
    ids::law_parse_undoes_encode(IdKind::Track, n);
    ids::law_parse_undoes_encode(IdKind::Playlist, n);
    ids::law_identifiers_are_letters_and_a_number(n);
    text::law_decimal_reads_back(n as nat, u64::MAX as nat);
    lemma_no_dash(IdKind::Album, n);
    lemma_no_dash(IdKind::Artist, n);
    lemma_no_dash(IdKind::Track, n);
    lemma_no_dash(IdKind::Playlist, n);
}

proof fn lemma_no_dash(kind: IdKind, n: u64)
    ensures
        !text::decimal(n as nat).contains('-'),
        !ids::encoded(kind, n as nat).contains('-'),
{
    let d = text::decimal(n as nat);
    let p = kind.letters();
    text::lemma_decimal(n as nat);
    reveal_strlit("t");
    reveal_strlit("al");
    reveal_strlit("ar");
    reveal_strlit("pl");
    assert forall|i: int| 0 <= i < d.len() implies d[i] != '-' by {
        assert(text::is_digit(d[i]));
    }
    let e = ids::encoded(kind, n as nat);
    assert forall|i: int| 0 <= i < e.len() implies e[i] != '-' by {
        if i < p.len() {
            assert(e[i] == p[i]);
        } else {
            assert(e[i] == d[i - p.len()]);
        }
    }
}

/// The picture of a mix is that of the first mix with the name: the medium one, and the small one
/// where there is no medium one.
pub proof fn law_the_first_mix_gives_the_picture(before: Seq<Json>, mix: Json, after: Seq<Json>, name: Seq<char>)
    requires
        forall|i: int|
            0 <= i < before.len() ==> string(field(#[trigger] before[i], "id"@)) != Some(name),
        string(field(mix, "id"@)) == Some(name),
    ensures
        ({
            let medium = field2(mix, "images"@, "MEDIUM"@);
            let small = field2(mix, "images"@, "SMALL"@);
            let found = picture_of_mix(before + seq![mix] + after, name);
            &&& medium is Some && string(field(medium->0, "url"@)) is Some ==> found == string(
                field(medium->0, "url"@),
            )
            &&& (medium is None || string(field(medium->0, "url"@)) is None) && small is Some
                ==> found == string(field(small->0, "url"@))
            &&& (medium is None || string(field(medium->0, "url"@)) is None) && small is None
                ==> found is None
        }),
    decreases before.len(),
{
    let v = before + seq![mix] + after;
    if before.len() == 0 {
        assert(v[0] == mix);
    } else {
        let b = before.drop_first();
        assert(v[0] == before[0]);
        assert(v.drop_first() =~= b + seq![mix] + after);
        assert forall|i: int| 0 <= i < b.len() implies string(field(#[trigger] b[i], "id"@)) != Some(
            name,
        ) by {
            assert(b[i] == before[i + 1]);
        }
        law_the_first_mix_gives_the_picture(b, mix, after, name);
    }
}

} // verus!
