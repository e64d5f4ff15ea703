//! Reports of what was played to Last.fm and ListenBrainz. A report that fails is logged, and
//! never fails the request of the client.

use crate::auth::{hex, md5, md5_hex};
use crate::json;
use crate::json::{field, field2, items, number, string, Json};
use crate::order::{text_at_most, Ranked};
use crate::settings::Settings;
use crate::text;
use crate::text::{decimal, opt_text, signed_decimal};
use vstd::prelude::*;
use vstd::utf8::encode_utf8;

verus! {

/// A track that was played: the first artist by name, and the album where it is known.
#[derive(Debug)]
pub struct ScrobbleSong {
    pub track_id: u64,
    pub title: String,
    pub artist: String,
    pub album: Option<String>,
    pub duration: u32,
}

pub const LASTFM_API_URL: &'static str = "https://ws.audioscrobbler.com/2.0/";

pub const LASTFM_AUTH_URL: &'static str = "https://www.last.fm/api/auth/";

pub const LISTENBRAINZ_API_BASE: &'static str = "https://api.listenbrainz.org";

/// The name of the first artist of a track.
pub open spec fn first_artist(track: Json) -> Seq<char> {
    let artists = items(field(track, "artists"@));
    if artists.len() > 0 {
        match string(field(artists[0], "name"@)) {
            Some(name) => name,
            None => "Unknown Artist"@,
        }
    } else {
        "Unknown Artist"@
    }
}

/// The report on a track of the catalogue, which needs a number and a title.
pub open spec fn is_report_of(song: ScrobbleSong, track: Json) -> bool {
    &&& Some(song.track_id) == number(field(track, "id"@))
    &&& Some(song.title@) == string(field(track, "title"@))
    &&& song.artist@ == first_artist(track)
    &&& opt_text(song.album) == string(field2(track, "album"@, "title"@))
    &&& song.duration == (match number(field(track, "duration"@)) {
        Some(n) => n as int % 0x1_0000_0000,
        None => 0,
    })
}

/// Makes the report on a track of the catalogue.
pub fn scrobble_song_from_track(v: &Json) -> (r: Option<ScrobbleSong>)
    ensures
        match r {
            Some(song) => is_report_of(song, *v),
            None => number(field(*v, "id"@)) is None || string(field(*v, "title"@)) is None,
        },
        r is Some ==> ({
            let song = r->0;
            let artists = items(field(*v, "artists"@));
            &&& number(field(*v, "id"@)) == Some(song.track_id)
            &&& string(field(*v, "title"@)) == Some(song.title@)
            &&& artists.len() > 0 && string(field(artists[0], "name"@)) is Some ==> Some(
                song.artist@,
            ) == string(field(artists[0], "name"@))
            &&& artists.len() == 0 || string(field(artists[0], "name"@)) is None ==> song.artist@
                == "Unknown Artist"@
            &&& opt_text(song.album) == string(field2(*v, "album"@, "title"@))
            &&& number(field(*v, "duration"@)) is Some && number(field(*v, "duration"@))->0
                <= u32::MAX ==> song.duration == number(field(*v, "duration"@))->0
            &&& number(field(*v, "duration"@)) is None ==> song.duration == 0
        }),
{
    let track_id: u64 = match json::as_u64(v.get("id")) {
        Some(n) => n,
        None => {
            return None;
        },
    };
    let title = match json::as_str(v.get("title")) {
        Some(t) => t.to_owned(),
        None => {
            return None;
        },
    };
    let artist = match v.get("artists") {
        Some(Json::Array(list)) => if list.len() > 0 {
            match json::as_str(list[0].get("name")) {
                Some(n) => n.to_owned(),
                None => "Unknown Artist".to_owned(),
            }
        } else {
            "Unknown Artist".to_owned()
        },
        _ => "Unknown Artist".to_owned(),
    };
    let album = match json::as_str(v.get2("album", "title")) {
        Some(t) => Some(t.to_owned()),
        None => None,
    };
    let duration: u32 = match json::as_u64(v.get("duration")) {
        Some(n) => (n % 0x1_0000_0000) as u32,
        None => 0,
    };
    Some(ScrobbleSong { track_id, title, artist, album, duration })
}

/// How long one notice of what is playing counts for a track.
pub const NP_COOLDOWN_MS: i64 = 120_000;

/// The last notice of what is playing.
#[derive(Debug, Clone, Copy, PartialEq, Eq, Structural)]
pub struct LastNowPlaying {
    pub track_id: u64,
    pub at_ms: i64,
}

/// A notice is due: there was none yet, or it was of another track, or it is long ago.
pub open spec fn notice_due(track_id: u64, now: int, last: Option<LastNowPlaying>) -> bool {
    match last {
        Some(l) => l.track_id != track_id || now - l.at_ms > NP_COOLDOWN_MS,
        None => true,
    }
}

/// Whether a notice is due.
pub fn np_due(track_id: u64, now: i64, last: &Option<LastNowPlaying>) -> (r: bool)
    ensures
        r == notice_due(track_id, now as int, *last),
        *last is None ==> r,
        *last is Some && last->0.track_id != track_id ==> r,
        *last is Some && last->0.track_id == track_id ==> (r <==> now - last->0.at_ms > 120_000),
{
    match last {
        Some(l) => l.track_id != track_id || now as i128 - l.at_ms as i128 > NP_COOLDOWN_MS as i128,
        None => true,
    }
}

/// Takes note of what is playing, and says whether to send a notice of it. The start of a track
/// is heard of in several ways, and one notice is sent for all of them.
pub fn report_now_playing(last: &mut Option<LastNowPlaying>, track_id: u64, now: i64) -> (r: bool)
    ensures
        r == notice_due(track_id, now as int, *old(last)),
        *final(last) == (if r {
            Some(LastNowPlaying { track_id, at_ms: now })
        } else {
            *old(last)
        }),
        *old(last) is Some && old(last)->0.track_id == track_id && now - old(last)->0.at_ms <= 120_000
            ==> !r && *final(last) == *old(last),
        *old(last) is None || old(last)->0.track_id != track_id || now - old(last)->0.at_ms > 120_000 ==> r
            && *final(last) is Some && final(last)->0.track_id == track_id && final(last)->0.at_ms == now,
{
    if !np_due(track_id, now, last) {
        return false;
    }
    *last = Some(LastNowPlaying { track_id, at_ms: now });
    true
}

/// However often a track is heard of, after a notice there is none for it until the time is over.
pub proof fn law_one_notice_per_start(track_id: u64, sent: i64, now: i64)
    requires
        sent <= now,
    ensures
        notice_due(track_id, now as int, Some(LastNowPlaying { track_id, at_ms: sent })) <==> now
            - sent > NP_COOLDOWN_MS,
{
}

/// The entries of a request, sorted by name, each name once.
#[derive(Debug)]
pub struct Form {
    pub entries: Vec<(String, String)>,
}

/// Names and values of entries.
pub open spec fn entry_pairs(v: Seq<(String, String)>) -> Seq<(Seq<char>, Seq<char>)> {
    crate::handlers::pairs(v)
}

/// The names come in their order, and none twice.
pub open spec fn strictly_sorted(v: Seq<(Seq<char>, Seq<char>)>) -> bool {
    forall|i: int, j: int|
        0 <= i < j < v.len() ==> text_at_most((#[trigger] v[i]).0, (#[trigger] v[j]).0) && v[i].0
            != v[j].0
}

/// The entries before the one with a name, or where it would be.
pub open spec fn place_of(v: Seq<(Seq<char>, Seq<char>)>, name: Seq<char>) -> int
    decreases v.len(),
{
    if v.len() == 0 || text_at_most(name, v[0].0) {
        0
    } else {
        1 + place_of(v.drop_first(), name)
    }
}

/// The entries with one more, which replaces one with the same name.
pub open spec fn with_entry(
    v: Seq<(Seq<char>, Seq<char>)>,
    name: Seq<char>,
    value: Seq<char>,
) -> Seq<(Seq<char>, Seq<char>)> {
    let i = place_of(v, name);
    if i < v.len() && v[i].0 == name {
        v.update(i, (name, value))
    } else {
        v.insert(i, (name, value))
    }
}

proof fn lemma_place_of(v: Seq<(Seq<char>, Seq<char>)>, name: Seq<char>)
    ensures
        0 <= place_of(v, name) <= v.len(),
        place_of(v, name) < v.len() ==> text_at_most(name, v[place_of(v, name)].0),
        forall|j: int| 0 <= j < place_of(v, name) ==> !text_at_most(name, (#[trigger] v[j]).0),
    decreases v.len(),
{
    if v.len() > 0 && !text_at_most(name, v[0].0) {
        let w = v.drop_first();
        lemma_place_of(w, name);
        assert forall|j: int| 0 <= j < place_of(v, name) implies !text_at_most(
            name,
            (#[trigger] v[j]).0,
        ) by {
            if j > 0 {
                assert(v[j] == w[j - 1]);
            }
        }
    }
}

proof fn lemma_with_entry_sorted(
    v: Seq<(Seq<char>, Seq<char>)>,
    name: Seq<char>,
    value: Seq<char>,
)
    requires
        strictly_sorted(v),
    ensures
        strictly_sorted(with_entry(v, name, value)),
{
    lemma_place_of(v, name);
    let p = place_of(v, name);
    let w = with_entry(v, name, value);
    assert forall|i: int, j: int| 0 <= i < j < w.len() implies text_at_most(
        (#[trigger] w[i]).0,
        (#[trigger] w[j]).0,
    ) && w[i].0 != w[j].0 by {
        if p < v.len() && v[p].0 == name {
            assert(text_at_most(v[i].0, v[j].0) && v[i].0 != v[j].0);
        } else {
            let i0 = if i < p {
                i
            } else {
                i - 1
            };
            let j0 = if j < p {
                j
            } else {
                j - 1
            };
            if i == p {
                assert(w[j] == v[j0]);
                if j0 > p {
                    assert(text_at_most(v[p].0, v[j0].0) && v[p].0 != v[j0].0);
                    crate::order::lemma_text_transitive(name, v[p].0, v[j0].0);
                    if v[j0].0 == name {
                        crate::order::lemma_text_total(name, v[p].0);
                    }
                }
            } else if j == p {
                assert(w[i] == v[i0]);
                crate::order::lemma_text_total(name, v[i0].0);
                if v[i0].0 == name {
                    crate::order::lemma_text_total(name, name);
                }
            } else {
                assert(w[i] == v[i0] && w[j] == v[j0]);
            }
        }
    }
}

/// What is signed of the entries: names and values in a row, without the format.
pub open spec fn signed_part(v: Seq<(Seq<char>, Seq<char>)>) -> Seq<char>
    decreases v.len(),
{
    if v.len() == 0 {
        Seq::empty()
    } else if v.last().0 == "format"@ {
        signed_part(v.drop_last())
    } else {
        signed_part(v.drop_last()) + v.last().0 + v.last().1
    }
}

/// The signature of a request: the digest of what is signed and of the secret.
pub open spec fn signature(v: Seq<(Seq<char>, Seq<char>)>, secret: Seq<char>) -> Seq<char> {
    hex(md5(encode_utf8(signed_part(v) + secret)))
}

/// The value of the entry with a name.
pub open spec fn value_under(v: Seq<(Seq<char>, Seq<char>)>, name: Seq<char>) -> Option<Seq<char>>
    decreases v.len(),
{
    if v.len() == 0 {
        None
    } else if v[0].0 == name {
        Some(v[0].1)
    } else {
        value_under(v.drop_first(), name)
    }
}

/// The value under a name is that of the first entry with the name.
proof fn lemma_value_under(v: Seq<(Seq<char>, Seq<char>)>, name: Seq<char>)
    ensures
        match value_under(v, name) {
            Some(x) => v.contains((name, x)),
            None => forall|i: int| 0 <= i < v.len() ==> (#[trigger] v[i]).0 != name,
        },
    decreases v.len(),
{
    if v.len() > 0 {
        let w = v.drop_first();
        if v[0].0 == name {
            assert(v[0] == (name, v[0].1));
        } else {
            lemma_value_under(w, name);
            match value_under(w, name) {
                Some(x) => {
                    let i = choose|i: int| 0 <= i < w.len() && w[i] == (name, x);
                    assert(v[i + 1] == (name, x));
                },
                None => {
                    assert forall|i: int| 0 <= i < v.len() implies (#[trigger] v[i]).0 != name by {
                        if i > 0 {
                            assert(v[i] == w[i - 1]);
                        }
                    }
                },
            }
        }
    }
}

/// Where each name comes once, an entry is what its name stands for.
proof fn lemma_value_at(v: Seq<(Seq<char>, Seq<char>)>, i: int)
    requires
        strictly_sorted(v),
        0 <= i < v.len(),
    ensures
        value_under(v, v[i].0) == Some(v[i].1),
{
    let name = v[i].0;
    lemma_value_under(v, name);
    let x = value_under(v, name)->0;
    let j = choose|j: int| 0 <= j < v.len() && v[j] == (name, x);
    if i < j {
        assert(v[i].0 != v[j].0);
    } else if j < i {
        assert(v[j].0 != v[i].0);
    }
}

/// An entry that was set is found under its name, and every other entry is as it was.
pub proof fn law_a_set_entry_is_found(
    v: Seq<(Seq<char>, Seq<char>)>,
    name: Seq<char>,
    value: Seq<char>,
    other: Seq<char>,
)
    requires
        strictly_sorted(v),
    ensures
        strictly_sorted(with_entry(v, name, value)),
        value_under(with_entry(v, name, value), name) == Some(value),
        other != name ==> value_under(with_entry(v, name, value), other) == value_under(v, other),
{
    lemma_with_entry_sorted(v, name, value);
    lemma_place_of(v, name);
    let w = with_entry(v, name, value);
    let p = place_of(v, name);
    assert(w[p] == (name, value));
    lemma_value_at(w, p);
    if other != name {
        lemma_value_under(v, other);
        lemma_value_under(w, other);
        let replaced = p < v.len() && v[p].0 == name;
        match value_under(v, other) {
            Some(x) => {
                let i = choose|i: int| 0 <= i < v.len() && v[i] == (other, x);
                let j = if replaced || i < p {
                    i
                } else {
                    i + 1
                };
                assert(w[j] == (other, x));
                lemma_value_at(w, j);
            },
            None => {
                if let Some(x) = value_under(w, other) {
                    let j = choose|j: int| 0 <= j < w.len() && w[j] == (other, x);
                    let i = if replaced || j < p {
                        j
                    } else {
                        j - 1
                    };
                    assert(v[i] == w[j]);
                }
            },
        }
    }
}

/// What is signed grows by the name and the value of each entry, the format aside.
pub proof fn law_each_entry_but_the_format_is_signed(
    v: Seq<(Seq<char>, Seq<char>)>,
    name: Seq<char>,
    value: Seq<char>,
)
    ensures
        signed_part(v.push((name, value))) == if name == "format"@ {
            signed_part(v)
        } else {
            signed_part(v) + name + value
        },
        signed_part(Seq::empty()).len() == 0,
{
    assert(v.push((name, value)).drop_last() =~= v);
}

impl Form {
    /// Names and values of the entries.
    pub open spec fn view(&self) -> Seq<(Seq<char>, Seq<char>)> {
        entry_pairs(self.entries@)
    }

    /// The names come in their order, and none twice.
    pub open spec fn wf(&self) -> bool {
        strictly_sorted(self.view())
    }

    /// No entries.
    pub fn new() -> (r: Form)
        ensures
            r.wf(),
            r.view() == Seq::<(Seq<char>, Seq<char>)>::empty(),
    {
        let r = Form { entries: Vec::new() };
        assert(r.view() =~= Seq::<(Seq<char>, Seq<char>)>::empty());
        r
    }

    /// Sets an entry.
    pub fn insert(&mut self, name: &str, value: String)
        requires
            old(self).wf(),
        ensures
            final(self).wf(),
            final(self).view() == with_entry(old(self).view(), name@, value@),
            value_under(final(self).view(), name@) == Some(value@),
            forall|other: Seq<char>|
                other != name@ ==> #[trigger] value_under(final(self).view(), other)
                    == value_under(old(self).view(), other),
    {
        let key = text::chars_of(name);
        let ghost all = self.view();
        let mut i: usize = 0;
        assert(all.subrange(0, all.len() as int) =~= all);
        while i < self.entries.len()
            invariant
                i <= self.entries@.len(),
                key@ == name@,
                *self == *old(self),
                all == self.view(),
                place_of(all, name@) == i + place_of(
                    all.subrange(i as int, all.len() as int),
                    name@,
                ),
            ensures
                i == place_of(all, name@),
                *self == *old(self),
                i <= self.entries@.len(),
            decreases self.entries@.len() - i,
        {
            let ghost rest = all.subrange(i as int, all.len() as int);
            assert(rest[0] == all[i as int]);
            let here = text::chars_of(self.entries[i].0.as_str());
            if key.is_at_most(&here) {
                break;
            }
            assert(rest.drop_first() =~= all.subrange(i + 1, all.len() as int));
            i += 1;
        }
        proof {
            lemma_with_entry_sorted(all, name@, value@);
            lemma_place_of(all, name@);
        }
        if i < self.entries.len() && text::same(self.entries[i].0.as_str(), name) {
            self.entries.set(i, (name.to_owned(), value));
        } else {
            self.entries.insert(i, (name.to_owned(), value));
        }
        assert(self.view() =~= with_entry(all, name@, value@));
        proof {
            law_a_set_entry_is_found(all, name@, value@, name@);
            assert forall|other: Seq<char>| other != name@ implies #[trigger] value_under(
                self.view(),
                other,
            ) == value_under(all, other) by {
                law_a_set_entry_is_found(all, name@, value@, other);
            }
        }
    }
}

/// The signature of a request. The format is left out of it.
pub fn sign_form(form: &Form, secret: &str) -> (r: String)
    ensures
        r@ == signature(form.view(), secret@),
{
    let mut input = String::new();
    let ghost all = form.view();
    let mut i: usize = 0;
    assert(all.take(0) =~= Seq::empty());
    assert(input@ =~= signed_part(all.take(0)));
    while i < form.entries.len()
        invariant
            i <= form.entries@.len(),
            all == form.view(),
            input@ == signed_part(all.take(i as int)),
        decreases form.entries@.len() - i,
    {
        proof {
            let t = all.take(i + 1);
            assert(t.drop_last() =~= all.take(i as int));
            assert(t.last() == (form.entries@[i as int].0@, form.entries@[i as int].1@));
        }
        if !text::same(form.entries[i].0.as_str(), "format") {
            input.append(form.entries[i].0.as_str());
            input.append(form.entries[i].1.as_str());
        }
        i += 1;
    }
    assert(all.take(all.len() as int) =~= all);
    input.append(secret);
    md5_hex(input.as_str().as_bytes())
}

/// Reports plays to Last.fm.
#[derive(Debug)]
pub struct LastFmReporter {
    pub api_key: String,
    pub api_secret: String,
    pub api_url: String,
}

/// The entries of a signed request: the signature and the format come after the others.
pub open spec fn signed_entries(
    v: Seq<(Seq<char>, Seq<char>)>,
    secret: Seq<char>,
) -> Seq<(Seq<char>, Seq<char>)> {
    with_entry(with_entry(v, "api_sig"@, signature(v, secret)), "format"@, "json"@)
}

/// Signs a request, and asks for the reply as a document.
pub fn lastfm_post(form: &mut Form, api_secret: &str)
    requires
        old(form).wf(),
    ensures
        final(form).wf(),
        final(form).view() == signed_entries(old(form).view(), api_secret@),
{
    let sig = sign_form(form, api_secret);
    form.insert("api_sig", sig);
    form.insert("format", "json".to_owned());
}

/// Milliseconds in whole seconds, toward zero.
pub open spec fn whole_seconds(ms: int) -> int {
    if ms >= 0 {
        ms / 1000
    } else {
        -((-ms) / 1000)
    }
}

/// Milliseconds in whole seconds, toward zero.
pub fn seconds_of(ms: i64) -> (r: i64)
    ensures
        r == whole_seconds(ms as int),
{
    if ms >= 0 {
        ms / 1000
    } else {
        (-((-(ms as i128)) / 1000)) as i64
    }
}

/// The entries of a report before it is signed.
pub open spec fn report_entries(
    api_key: Seq<char>,
    method: Seq<char>,
    song: ScrobbleSong,
    timestamp_ms: Option<i64>,
    session_key: Seq<char>,
) -> Seq<(Seq<char>, Seq<char>)> {
    let a = with_entry(Seq::empty(), "method"@, method);
    let b = with_entry(a, "api_key"@, api_key);
    let c = with_entry(b, "sk"@, session_key);
    let d = with_entry(c, "artist"@, song.artist@);
    let e = with_entry(d, "track"@, song.title@);
    let f = match timestamp_ms {
        Some(t) => with_entry(e, "timestamp"@, signed_decimal(whole_seconds(t as int))),
        None => e,
    };
    let g = with_entry(f, "duration"@, decimal(song.duration as nat));
    match song.album {
        Some(album) => with_entry(g, "album"@, album@),
        None => g,
    }
}

/// A request says nothing but what was put into it, its signature and its format.
pub proof fn law_signing_adds_two_entries(
    v: Seq<(Seq<char>, Seq<char>)>,
    secret: Seq<char>,
    other: Seq<char>,
)
    requires
        strictly_sorted(v),
    ensures
        strictly_sorted(signed_entries(v, secret)),
        value_under(signed_entries(v, secret), "api_sig"@) == Some(signature(v, secret)),
        value_under(signed_entries(v, secret), "format"@) == Some("json"@),
        other != "api_sig"@ && other != "format"@ ==> value_under(signed_entries(v, secret), other)
            == value_under(v, other),
{
    lemma_form_names();
    let a = with_entry(v, "api_sig"@, signature(v, secret));
    law_a_set_entry_is_found(v, "api_sig"@, signature(v, secret), other);
    law_a_set_entry_is_found(a, "format"@, "json"@, other);
    law_a_set_entry_is_found(a, "format"@, "json"@, "api_sig"@);
}

proof fn lemma_form_names()
    ensures
        "method"@.len() == 6,
        "api_key"@.len() == 7,
        "api_key"@[1] == 'p',
        "api_sig"@.len() == 7,
        "api_sig"@[4] == 's',
        "api_key"@[4] == 'k',
        "sk"@.len() == 2,
        "artist"@.len() == 6,
        "artist"@[0] == 'a',
        "method"@[0] == 'm',
        "format"@.len() == 6,
        "format"@[0] == 'f',
        "track"@.len() == 5,
        "track"@[0] == 't',
        "album"@.len() == 5,
        "album"@[0] == 'a',
        "token"@.len() == 5,
        "token"@[1] == 'o',
        "track"@[1] == 'r',
        "timestamp"@.len() == 9,
        "duration"@.len() == 8,
{
    reveal_strlit("method");
    reveal_strlit("api_key");
    reveal_strlit("api_sig");
    reveal_strlit("sk");
    reveal_strlit("artist");
    reveal_strlit("format");
    reveal_strlit("track");
    reveal_strlit("album");
    reveal_strlit("token");
    reveal_strlit("timestamp");
    reveal_strlit("duration");
}

/// A report says of its song what the song is: each fact is found under its own name, what is
/// not known is not said, and nothing else is.
#[verifier::rlimit(40)]
pub proof fn law_a_report_says_what_the_song_is(
    api_key: Seq<char>,
    method: Seq<char>,
    song: ScrobbleSong,
    timestamp_ms: Option<i64>,
    session_key: Seq<char>,
    other: Seq<char>,
)
    ensures
        ({
            let v = report_entries(api_key, method, song, timestamp_ms, session_key);
            &&& strictly_sorted(v)
            &&& value_under(v, "method"@) == Some(method)
            &&& value_under(v, "api_key"@) == Some(api_key)
            &&& value_under(v, "sk"@) == Some(session_key)
            &&& value_under(v, "artist"@) == Some(song.artist@)
            &&& value_under(v, "track"@) == Some(song.title@)
            &&& value_under(v, "duration"@) == Some(decimal(song.duration as nat))
            &&& value_under(v, "album"@) == opt_text(song.album)
            &&& value_under(v, "timestamp"@) == (match timestamp_ms {
                Some(t) => Some(signed_decimal(whole_seconds(t as int))),
                None => None,
            })
            &&& other != "method"@ && other != "api_key"@ && other != "sk"@ && other != "artist"@
                && other != "track"@ && other != "duration"@ && other != "album"@ && other
                != "timestamp"@ ==> value_under(v, other) is None
        }),
{
    lemma_form_names();
    lemma_report_value(api_key, method, song, timestamp_ms, session_key, "method"@);
    lemma_report_value(api_key, method, song, timestamp_ms, session_key, "api_key"@);
    lemma_report_value(api_key, method, song, timestamp_ms, session_key, "sk"@);
    lemma_report_value(api_key, method, song, timestamp_ms, session_key, "artist"@);
    lemma_report_value(api_key, method, song, timestamp_ms, session_key, "track"@);
    lemma_report_value(api_key, method, song, timestamp_ms, session_key, "duration"@);
    lemma_report_value(api_key, method, song, timestamp_ms, session_key, "album"@);
    lemma_report_value(api_key, method, song, timestamp_ms, session_key, "timestamp"@);
    lemma_report_value(api_key, method, song, timestamp_ms, session_key, other);
}

#[verifier::rlimit(40)]
proof fn lemma_report_value(
    api_key: Seq<char>,
    method: Seq<char>,
    song: ScrobbleSong,
    timestamp_ms: Option<i64>,
    session_key: Seq<char>,
    n: Seq<char>,
)
    ensures
        ({
            let v = report_entries(api_key, method, song, timestamp_ms, session_key);
            &&& strictly_sorted(v)
            &&& value_under(v, n) == (if n == "album"@ && song.album is Some {
                Some(song.album->0@)
            } else if n == "duration"@ {
                Some(decimal(song.duration as nat))
            } else if n == "timestamp"@ && timestamp_ms is Some {
                Some(signed_decimal(whole_seconds(timestamp_ms->0 as int)))
            } else if n == "track"@ {
                Some(song.title@)
            } else if n == "artist"@ {
                Some(song.artist@)
            } else if n == "sk"@ {
                Some(session_key)
            } else if n == "api_key"@ {
                Some(api_key)
            } else if n == "method"@ {
                Some(method)
            } else {
                None
            })
        }),
{
    lemma_form_names();
    let z = Seq::<(Seq<char>, Seq<char>)>::empty();
    let a = with_entry(z, "method"@, method);
    let b = with_entry(a, "api_key"@, api_key);
    let c = with_entry(b, "sk"@, session_key);
    let d = with_entry(c, "artist"@, song.artist@);
    let e = with_entry(d, "track"@, song.title@);
    law_a_set_entry_is_found(z, "method"@, method, n);
    law_a_set_entry_is_found(a, "api_key"@, api_key, n);
    law_a_set_entry_is_found(b, "sk"@, session_key, n);
    law_a_set_entry_is_found(c, "artist"@, song.artist@, n);
    law_a_set_entry_is_found(d, "track"@, song.title@, n);
    let f = match timestamp_ms {
        Some(t) => {
            let at = signed_decimal(whole_seconds(t as int));
            law_a_set_entry_is_found(e, "timestamp"@, at, n);
            with_entry(e, "timestamp"@, at)
        },
        None => e,
    };
    law_a_set_entry_is_found(f, "duration"@, decimal(song.duration as nat), n);
    let g = with_entry(f, "duration"@, decimal(song.duration as nat));
    if let Some(album) = song.album {
        law_a_set_entry_is_found(g, "album"@, album@, n);
    }
}

/// A second is a thousand milliseconds, and what is left of one is cut off.
pub proof fn law_whole_seconds(ms: int)
    ensures
        ms >= 0 ==> whole_seconds(ms) * 1000 <= ms < whole_seconds(ms) * 1000 + 1000,
        ms < 0 ==> whole_seconds(ms) * 1000 - 1000 < ms <= whole_seconds(ms) * 1000,
{
}

/// What a reply of Last.fm says of an error: its code and its message.
pub open spec fn api_error(reply: Json) -> Option<(int, Seq<char>)> {
    match number(field(reply, "error"@)) {
        Some(code) => Some(
            (
                code as int % 0x1_0000_0000,
                match string(field(reply, "message"@)) {
                    Some(m) => m,
                    None => "unknown error"@,
                },
            ),
        ),
        None => None,
    }
}

/// An error with its code and its message.
pub open spec fn error_view(e: (u32, String)) -> (int, Seq<char>) {
    (e.0 as int, e.1@)
}

/// Reads the error, where a reply of Last.fm has one.
pub fn read_api_error(reply: &Json) -> (r: Option<(u32, String)>)
    ensures
        match r {
            Some(e) => api_error(*reply) == Some(error_view(e)),
            None => api_error(*reply) is None,
        },
        r is Some <==> number(field(*reply, "error"@)) is Some,
        r is Some ==> ({
            let (code, message) = r->0;
            &&& number(field(*reply, "error"@))->0 <= u32::MAX ==> code == number(
                field(*reply, "error"@),
            )->0
            &&& string(field(*reply, "message"@)) is Some ==> Some(message@) == string(
                field(*reply, "message"@),
            )
            &&& string(field(*reply, "message"@)) is None ==> message@ == "unknown error"@
        }),
{
    match json::as_u64(reply.get("error")) {
        Some(code) => {
            let message = match json::as_str(reply.get("message")) {
                Some(m) => m.to_owned(),
                None => "unknown error".to_owned(),
            };
            Some(((code % 0x1_0000_0000) as u32, message))
        },
        None => None,
    }
}

/// What comes of a report that was sent.
#[derive(Debug)]
pub enum Submitted {
    Accepted,
    /// The key of the session is no longer valid: the user is asked again.
    Reauthorize,
    /// Logged, with its code and its message.
    Failed(u32, String),
}

impl LastFmReporter {
    /// Reports plays with these credentials of the application.
    pub fn new(api_key: String, api_secret: String, api_url: &str) -> (r: Self)
        ensures
            r.api_key == api_key,
            r.api_secret == api_secret,
            r.api_url@ == api_url@,
    {
        LastFmReporter { api_key, api_secret, api_url: api_url.to_owned() }
    }

    /// The signature of a request.
    pub fn sign(&self, params: &Form) -> (r: String)
        ensures
            r@ == signature(params.view(), self.api_secret@),
    {
        sign_form(params, self.api_secret.as_str())
    }

    /// What to send for a report, signed. Without a key of a session there is nothing to send.
    pub fn submit(
        &self,
        method: &str,
        song: &ScrobbleSong,
        timestamp_ms: Option<i64>,
        session_key: Option<&str>,
    ) -> (r: Option<Form>)
        ensures
            match r {
                Some(form) => session_key is Some && form.wf() && form.view() == signed_entries(
                    report_entries(
                        self.api_key@,
                        method@,
                        *song,
                        timestamp_ms,
                        session_key->0@,
                    ),
                    self.api_secret@,
                ),
                None => session_key is None,
            },
            session_key is Some ==> r is Some && ({
                let v = r->0.view();
                &&& value_under(v, "method"@) == Some(method@)
                &&& value_under(v, "api_key"@) == Some(self.api_key@)
                &&& value_under(v, "sk"@) == Some(session_key->0@)
                &&& value_under(v, "artist"@) == Some(song.artist@)
                &&& value_under(v, "track"@) == Some(song.title@)
                &&& value_under(v, "duration"@) == Some(decimal(song.duration as nat))
                &&& value_under(v, "album"@) == opt_text(song.album)
                &&& value_under(v, "timestamp"@) == (match timestamp_ms {
                    Some(t) => Some(signed_decimal(whole_seconds(t as int))),
                    None => None,
                })
                &&& value_under(v, "format"@) == Some("json"@)
                &&& value_under(v, "api_sig"@) is Some
            }),
    {
        let key = match session_key {
            Some(k) => k,
            None => {
                return None;
            },
        };
        let mut form = Form::new();
        form.insert("method", method.to_owned());
        form.insert("api_key", self.api_key.clone());
        form.insert("sk", key.to_owned());
        form.insert("artist", song.artist.clone());
        form.insert("track", song.title.clone());
        if let Some(t) = timestamp_ms {
            form.insert("timestamp", text::signed_text(seconds_of(t)));
        }
        form.insert("duration", text::decimal_text(song.duration as u64));
        if let Some(album) = &song.album {
            form.insert("album", album.clone());
        }
        proof {
            let v = report_entries(self.api_key@, method@, *song, timestamp_ms, key@);
            let secret = self.api_secret@;
            lemma_form_names();
            law_a_report_says_what_the_song_is(
                self.api_key@,
                method@,
                *song,
                timestamp_ms,
                key@,
                "format"@,
            );
            law_signing_adds_two_entries(v, secret, "method"@);
            law_signing_adds_two_entries(v, secret, "api_key"@);
            law_signing_adds_two_entries(v, secret, "sk"@);
            law_signing_adds_two_entries(v, secret, "artist"@);
            law_signing_adds_two_entries(v, secret, "track"@);
            law_signing_adds_two_entries(v, secret, "duration"@);
            law_signing_adds_two_entries(v, secret, "album"@);
            law_signing_adds_two_entries(v, secret, "timestamp"@);
        }
        lastfm_post(&mut form, self.api_secret.as_str());
        Some(form)
    }

    /// What comes of a report, by the reply to it or by why there is none.
    pub fn submitted(reply: Result<&Json, String>) -> (r: Submitted)
        ensures
            match reply {
                Ok(j) => match api_error(*j) {
                    Some((code, message)) => if code == 8 {
                        r is Reauthorize
                    } else {
                        r matches Submitted::Failed(c, m) && c == code && m@ == message
                    },
                    None => r is Accepted,
                },
                Err(e) => r matches Submitted::Failed(c, m) && c == 0 && m == e,
            },
            reply is Err ==> (r matches Submitted::Failed(c, m) && c == 0 && m == reply->Err_0),
            reply is Ok && number(field(*reply->Ok_0, "error"@)) is None ==> r is Accepted,
            reply is Ok && number(field(*reply->Ok_0, "error"@)) == Some(8u64) ==> r is Reauthorize,
            reply is Ok && number(field(*reply->Ok_0, "error"@)) is Some && number(
                field(*reply->Ok_0, "error"@),
            )->0 != 8 && number(field(*reply->Ok_0, "error"@))->0 <= u32::MAX ==> (
            r matches Submitted::Failed(c, m) && c == number(field(*reply->Ok_0, "error"@))->0 && m@ == (
            match string(field(*reply->Ok_0, "message"@)) {
                Some(t) => t,
                None => "unknown error"@,
            })),
    {
        match reply {
            Ok(j) => match read_api_error(j) {
                Some((code, message)) => if code == 8 {
                    Submitted::Reauthorize
                } else {
                    Submitted::Failed(code, message)
                },
                None => Submitted::Accepted,
            },
            Err(e) => Submitted::Failed(0, e),
        }
    }
}

/// The request for a token, signed.
pub fn token_request(api_key: &str, api_secret: &str) -> (r: Form)
    ensures
        r.wf(),
        r.view() == signed_entries(
            with_entry(
                with_entry(Seq::empty(), "method"@, "auth.getToken"@),
                "api_key"@,
                api_key@,
            ),
            api_secret@,
        ),
        value_under(r.view(), "method"@) == Some("auth.getToken"@),
        value_under(r.view(), "api_key"@) == Some(api_key@),
{
    let mut form = Form::new();
    form.insert("method", "auth.getToken".to_owned());
    form.insert("api_key", api_key.to_owned());
    proof {
        lemma_form_names();
        law_signing_adds_two_entries(form.view(), api_secret@, "method"@);
        law_signing_adds_two_entries(form.view(), api_secret@, "api_key"@);
    }
    lastfm_post(&mut form, api_secret);
    form
}

/// The token in a reply.
pub fn lastfm_get_token(reply: &Json) -> (r: Result<String, String>)
    ensures
        match r {
            Ok(t) => string(field(*reply, "token"@)) == Some(t@),
            Err(e) => string(field(*reply, "token"@)) is None && e@
                == "auth.getToken: missing token"@,
        },
{
    match json::as_str(reply.get("token")) {
        Some(t) => Ok(t.to_owned()),
        None => Err("auth.getToken: missing token".to_owned()),
    }
}

/// The request for a session with a token, signed.
pub fn session_request(api_key: &str, api_secret: &str, token: &str) -> (r: Form)
    ensures
        r.wf(),
        r.view() == signed_entries(
            with_entry(
                with_entry(
                    with_entry(Seq::empty(), "method"@, "auth.getSession"@),
                    "api_key"@,
                    api_key@,
                ),
                "token"@,
                token@,
            ),
            api_secret@,
        ),
        value_under(r.view(), "method"@) == Some("auth.getSession"@),
        value_under(r.view(), "api_key"@) == Some(api_key@),
        value_under(r.view(), "token"@) == Some(token@),
{
    let mut form = Form::new();
    form.insert("method", "auth.getSession".to_owned());
    form.insert("api_key", api_key.to_owned());
    form.insert("token", token.to_owned());
    proof {
        lemma_form_names();
        law_signing_adds_two_entries(form.view(), api_secret@, "method"@);
        law_signing_adds_two_entries(form.view(), api_secret@, "api_key"@);
        law_signing_adds_two_entries(form.view(), api_secret@, "token"@);
    }
    lastfm_post(&mut form, api_secret);
    form
}

/// The key and the name of the user in a reply with a session, or the error: that of the reply,
/// or that something is missing, without a code.
pub open spec fn session_of(reply: Json) -> Result<(Seq<char>, Seq<char>), (int, Seq<char>)> {
    match api_error(reply) {
        Some(e) => Err(e),
        None => match field(reply, "session"@) {
            Some(session) => match string(field(session, "key"@)) {
                Some(key) => match string(field(session, "name"@)) {
                    Some(name) => Ok((key, name)),
                    None => Err((0, "auth.getSession: missing name"@)),
                },
                None => Err((0, "auth.getSession: missing key"@)),
            },
            None => Err((0, "auth.getSession: missing session"@)),
        },
    }
}

/// A session or an error as values.
pub open spec fn session_view(r: Result<(String, String), (u32, String)>) -> Result<
    (Seq<char>, Seq<char>),
    (int, Seq<char>),
> {
    match r {
        Ok((k, n)) => Ok((k@, n@)),
        Err(e) => Err(error_view(e)),
    }
}

/// Reads the session in a reply.
pub fn lastfm_get_session(reply: &Json) -> (r: Result<(String, String), (u32, String)>)
    ensures
        session_view(r) == session_of(*reply),
        r is Ok <==> number(field(*reply, "error"@)) is None && string(
            field2(*reply, "session"@, "key"@),
        ) is Some && string(field2(*reply, "session"@, "name"@)) is Some,
        r is Ok ==> ({
            let (key, name) = r->Ok_0;
            Some(key@) == string(field2(*reply, "session"@, "key"@)) && Some(name@) == string(
                field2(*reply, "session"@, "name"@),
            )
        }),
{
    if let Some(e) = read_api_error(reply) {
        return Err(e);
    }
    let session = match reply.get("session") {
        Some(s) => s,
        None => {
            return Err((0, "auth.getSession: missing session".to_owned()));
        },
    };
    let key = match json::as_str(session.get("key")) {
        Some(k) => k.to_owned(),
        None => {
            return Err((0, "auth.getSession: missing key".to_owned()));
        },
    };
    match json::as_str(session.get("name")) {
        Some(n) => Ok((key, n.to_owned())),
        None => Err((0, "auth.getSession: missing name".to_owned())),
    }
}

/// What an error means while a session is waited for.
#[derive(Debug, Clone, Copy, PartialEq, Eq, Structural)]
pub enum SessionPoll {
    Pending,
    Fatal,
}

/// Errors of the configuration end the wait: the service, the method or the key of the
/// application is invalid, or the key is suspended. With any other the user may still agree.
pub fn classify_session_error(code: u32) -> (r: SessionPoll)
    ensures
        r == (if code == 1 || code == 2 || code == 9 || code == 26 {
            SessionPoll::Fatal
        } else {
            SessionPoll::Pending
        }),
{
    if code == 1 || code == 2 || code == 9 || code == 26 {
        SessionPoll::Fatal
    } else {
        SessionPoll::Pending
    }
}

/// The picture of a code for a text, drawn with characters, or why there is none.
pub uninterp spec fn qr_picture(s: Seq<char>) -> Result<Seq<char>, Seq<char>>;

/// A text or a message as values.
pub open spec fn text_view(r: Result<String, String>) -> Result<Seq<char>, Seq<char>> {
    match r {
        Ok(t) => Ok(t@),
        Err(e) => Err(e@),
    }
}

/// `qrcode::QrCode::new` makes the code for a text, and `render` draws it, here with two rows of
/// the code to a character. A text too long for a code gives the message of the error. What the
/// picture looks like is left to the name.
#[verifier::external_body]
fn draw_qr(s: &str) -> (r: Result<String, String>)
    ensures
        text_view(r) == qr_picture(s@),
{
    qrcode::QrCode::new(s).map(
        |code|
            code.render::<qrcode::render::unicode::Dense1x2>().dark_color(
                qrcode::render::unicode::Dense1x2::Dark,
            ).light_color(qrcode::render::unicode::Dense1x2::Light).build(),
    ).map_err(|e| e.to_string())
}

/// Where the user agrees.
pub open spec fn auth_address(api_key: Seq<char>, token: Seq<char>) -> Seq<char> {
    LASTFM_AUTH_URL@ + "?api_key="@ + api_key + "&token="@ + token
}

/// Where the user agrees.
pub fn auth_url(api_key: &str, token: &str) -> (r: String)
    ensures
        r@ == auth_address(api_key@, token@),
        r@ == "https://www.last.fm/api/auth/"@ + "?api_key="@ + api_key@ + "&token="@ + token@,
{
    let mut out = LASTFM_AUTH_URL.to_owned();
    out.append("?api_key=");
    out.append(api_key);
    out.append("&token=");
    out.append(token);
    out
}

/// What is shown while the user is asked, where the picture is `picture`.
pub open spec fn prompt_with(
    address: Seq<char>,
    picture: Result<Seq<char>, Seq<char>>,
) -> Result<(Seq<char>, Seq<char>), Seq<char>> {
    match picture {
        Ok(p) => Ok(
            (
                "Open "@ + address
                    + " or scan the QR code below to authorize Subtidal with Last.fm."@,
                p,
            ),
        ),
        Err(e) => Err("QR code generation failed: "@ + e),
    }
}

/// A line and a picture, or a message, as values.
pub open spec fn prompt_view(r: Result<(String, String), String>) -> Result<
    (Seq<char>, Seq<char>),
    Seq<char>,
> {
    match r {
        Ok((l, p)) => Ok((l@, p@)),
        Err(e) => Err(e@),
    }
}

/// Puts together what is shown while the user is asked.
pub fn make_prompt(address: &str, picture: Result<String, String>) -> (r: Result<
    (String, String),
    String,
>)
    ensures
        prompt_view(r) == prompt_with(address@, text_view(picture)),
        r is Ok <==> picture is Ok,
        r is Ok ==> {
            let (line, code) = r->Ok_0;
            &&& line@ == "Open "@ + address@
                + " or scan the QR code below to authorize Subtidal with Last.fm."@
            &&& code@ == picture->Ok_0@
        },
        r is Err ==> r->Err_0@ == "QR code generation failed: "@ + picture->Err_0@,
{
    match picture {
        Ok(p) => Ok(
            (
                text::join3(
                    "Open ",
                    address,
                    " or scan the QR code below to authorize Subtidal with Last.fm.",
                ),
                p,
            ),
        ),
        Err(e) => Err(text::join2("QR code generation failed: ", e.as_str())),
    }
}

/// What is shown while the user is asked to agree: a line with the address, and its picture.
pub fn auth_prompt(api_key: &str, token: &str) -> (r: Result<(String, String), String>)
    ensures
        prompt_view(r) == prompt_with(
            auth_address(api_key@, token@),
            qr_picture(auth_address(api_key@, token@)),
        ),
        r is Ok ==> {
            let (line, code) = r->Ok_0;
            let address = "https://www.last.fm/api/auth/"@ + "?api_key="@ + api_key@ + "&token="@ + token@;
            &&& line@ == "Open "@ + address
                + " or scan the QR code below to authorize Subtidal with Last.fm."@
            &&& qr_picture(address) == Ok::<Seq<char>, Seq<char>>(code@)
        },
{
    let address = auth_url(api_key, token);
    let picture = draw_qr(address.as_str());
    make_prompt(address.as_str(), picture)
}

/// What to do after asking for the session once.
#[derive(Debug)]
pub enum PollStep {
    /// Keep the key; the user has this name.
    Store(String, String),
    Fail(String),
    /// Ask again later, with a reminder or without.
    Wait(bool),
}

/// Decides what to do after asking for the session for the time `polls`: the key is kept, an
/// error of the configuration ends the wait, and so does the end of the time; otherwise it is
/// asked again, with a reminder every fifth time.
pub fn lastfm_auth_flow(
    session: Result<(String, String), (u32, String)>,
    time_over: bool,
    polls: u32,
) -> (r: PollStep)
    ensures
        match session {
            Ok((key, name)) => r == PollStep::Store(key, name),
            Err((code, message)) => if code == 1 || code == 2 || code == 9 || code == 26 {
                r matches PollStep::Fail(m) && m@ == "error "@ + decimal(code as nat) + ": "@
                    + message@
            } else if time_over {
                r matches PollStep::Fail(m) && m@ == "timed out waiting for authorization"@
            } else {
                r == PollStep::Wait(polls % 5 == 0)
            },
        },
{
    match session {
        Ok((key, name)) => PollStep::Store(key, name),
        Err((code, message)) => if classify_session_error(code) == SessionPoll::Fatal {
            let mut m = "error ".to_owned();
            m.append(text::decimal_text(code as u64).as_str());
            m.append(": ");
            m.append(message.as_str());
            PollStep::Fail(m)
        } else if time_over {
            PollStep::Fail("timed out waiting for authorization".to_owned())
        } else {
            PollStep::Wait(polls % 5 == 0)
        },
    }
}

/// Reports plays to ListenBrainz.
#[derive(Debug)]
pub struct ListenBrainzReporter {
    pub token: String,
    pub api_base: String,
}

/// The names of the parts of a document, in order.
pub open spec fn part_names(j: Json) -> Seq<Seq<char>> {
    match j {
        Json::Object(v) => v@.map_values(|p: (String, Json)| p.0@),
        _ => Seq::empty(),
    }
}

/// What a listen says beside the track itself.
pub open spec fn is_additional_info(j: Json, song: ScrobbleSong) -> bool {
    &&& string(field(j, "media_player"@)) == Some("Subtidal"@)
    &&& string(field(j, "submission_client"@)) == Some("Subtidal"@)
    &&& string(field(j, "music_service"@)) == Some("tidal.com"@)
    &&& string(field(j, "origin_url"@)) == Some(
        "https://listen.tidal.com/track/"@ + decimal(song.track_id as nat),
    )
    &&& number(field(j, "duration"@)) == (if song.duration > 0 {
        Some(song.duration as u64)
    } else {
        None
    })
    &&& part_names(j) == (if song.duration > 0 {
        seq![
            "media_player"@,
            "submission_client"@,
            "music_service"@,
            "origin_url"@,
            "duration"@,
        ]
    } else {
        seq!["media_player"@, "submission_client"@, "music_service"@, "origin_url"@]
    })
}

/// What a listen says of its track.
pub open spec fn is_metadata(j: Json, song: ScrobbleSong) -> bool {
    &&& string(field(j, "artist_name"@)) == Some(song.artist@)
    &&& string(field(j, "track_name"@)) == Some(song.title@)
    &&& field(j, "additional_info"@) matches Some(info) && is_additional_info(info, song)
    &&& string(field(j, "release_name"@)) == opt_text(song.album)
    &&& part_names(j) == (if song.album is Some {
        seq!["artist_name"@, "track_name"@, "additional_info"@, "release_name"@]
    } else {
        seq!["artist_name"@, "track_name"@, "additional_info"@]
    })
}

/// A listen: a track that was played at a time, or one that is playing.
pub open spec fn is_listen(j: Json, song: ScrobbleSong, timestamp_ms: Option<i64>) -> bool {
    &&& string(field(j, "listen_type"@)) == Some(
        if timestamp_ms is Some {
            "single"@
        } else {
            "playing_now"@
        },
    )
    &&& part_names(j) == seq!["listen_type"@, "payload"@]
    &&& items(field(j, "payload"@)).len() == 1
    &&& ({
        let p = items(field(j, "payload"@))[0];
        &&& field(p, "track_metadata"@) matches Some(m) && is_metadata(m, song)
        &&& match timestamp_ms {
            Some(t) => {
                &&& field(p, "listened_at"@) == Some(whole_number(whole_seconds(t as int)))
                &&& part_names(p) == seq!["track_metadata"@, "listened_at"@]
            },
            None => part_names(p) == seq!["track_metadata"@],
        }
    })
}

/// A whole number as a part of a document.
pub open spec fn whole_number(n: int) -> Json {
    if n >= 0 {
        Json::Unsigned(n as u64)
    } else {
        Json::Negative(n as i64)
    }
}

proof fn lemma_names()
    ensures
        "media_player"@.len() == 12,
        "submission_client"@.len() == 17,
        "music_service"@.len() == 13,
        "origin_url"@.len() == 10,
        "duration"@.len() == 8,
        "artist_name"@.len() == 11,
        "track_name"@.len() == 10,
        "additional_info"@.len() == 15,
        "release_name"@.len() == 12,
        "listen_type"@.len() == 11,
        "payload"@.len() == 7,
        "track_metadata"@.len() == 14,
        "listened_at"@.len() == 11,
{
    reveal_strlit("media_player");
    reveal_strlit("submission_client");
    reveal_strlit("music_service");
    reveal_strlit("origin_url");
    reveal_strlit("duration");
    reveal_strlit("artist_name");
    reveal_strlit("track_name");
    reveal_strlit("additional_info");
    reveal_strlit("release_name");
    reveal_strlit("listen_type");
    reveal_strlit("payload");
    reveal_strlit("track_metadata");
    reveal_strlit("listened_at");
}

/// A part of a document that is a text.
fn text_part(name: &str, value: &str) -> (r: (String, Json))
    ensures
        r.0@ == name@,
        r.1 matches Json::Text(s) && s@ == value@,
{
    (name.to_owned(), Json::Text(value.to_owned()))
}

/// What a listen says beside the track itself.
fn additional_info(song: &ScrobbleSong) -> (r: Json)
    ensures
        is_additional_info(r, *song),
        string(field(r, "media_player"@)) == Some("Subtidal"@),
        string(field(r, "submission_client"@)) == Some("Subtidal"@),
        string(field(r, "music_service"@)) == Some("tidal.com"@),
        string(field(r, "origin_url"@)) == Some(
            "https://listen.tidal.com/track/"@ + decimal(song.track_id as nat),
        ),
        song.duration > 0 ==> number(field(r, "duration"@)) == Some(song.duration as u64),
        song.duration == 0 ==> number(field(r, "duration"@)) is None,
{
    let mut v: Vec<(String, Json)> = Vec::new();
    v.push(text_part("media_player", "Subtidal"));
    v.push(text_part("submission_client", "Subtidal"));
    v.push(text_part("music_service", "tidal.com"));
    let url = text::join2(
        "https://listen.tidal.com/track/",
        text::decimal_text(song.track_id).as_str(),
    );
    v.push(text_part("origin_url", url.as_str()));
    if song.duration > 0 {
        v.push(("duration".to_owned(), Json::Unsigned(song.duration as u64)));
    }
    proof {
        lemma_names();
        json::lemma_part_at(v@, 0, "media_player"@);
        json::lemma_part_at(v@, 1, "submission_client"@);
        json::lemma_part_at(v@, 2, "music_service"@);
        json::lemma_part_at(v@, 3, "origin_url"@);
        if song.duration > 0 {
            json::lemma_part_at(v@, 4, "duration"@);
        } else {
            json::lemma_no_part(v@, "duration"@);
        }
        let names = part_names(Json::Object(v));
        if song.duration > 0 {
            assert(names =~= seq![
                "media_player"@,
                "submission_client"@,
                "music_service"@,
                "origin_url"@,
                "duration"@,
            ]);
        } else {
            assert(names =~= seq![
                "media_player"@,
                "submission_client"@,
                "music_service"@,
                "origin_url"@,
            ]);
        }
    }
    Json::Object(v)
}

impl ListenBrainzReporter {
    /// Reports plays with the token of the user.
    pub fn new(token: String, api_base: &str) -> (r: Self)
        ensures
            r.token == token,
            r.api_base@ == api_base@,
    {
        ListenBrainzReporter { token, api_base: api_base.to_owned() }
    }

    /// What a listen says of its track.
    pub fn metadata(&self, song: &ScrobbleSong) -> (r: Json)
        ensures
            is_metadata(r, *song),
            string(field(r, "artist_name"@)) == Some(song.artist@),
            string(field(r, "track_name"@)) == Some(song.title@),
            string(field(r, "release_name"@)) == opt_text(song.album),
            string(field2(r, "additional_info"@, "media_player"@)) == Some("Subtidal"@),
            string(field2(r, "additional_info"@, "submission_client"@)) == Some("Subtidal"@),
            string(field2(r, "additional_info"@, "music_service"@)) == Some("tidal.com"@),
            string(field2(r, "additional_info"@, "origin_url"@)) == Some(
                "https://listen.tidal.com/track/"@ + decimal(song.track_id as nat),
            ),
            number(field2(r, "additional_info"@, "duration"@)) == (if song.duration > 0 {
                Some(song.duration as u64)
            } else {
                None
            }),
    {
        let info = additional_info(song);
        let mut v: Vec<(String, Json)> = Vec::new();
        v.push(text_part("artist_name", song.artist.as_str()));
        v.push(text_part("track_name", song.title.as_str()));
        v.push(("additional_info".to_owned(), info));
        if let Some(album) = &song.album {
            v.push(text_part("release_name", album.as_str()));
        }
        proof {
            lemma_names();
            json::lemma_part_at(v@, 0, "artist_name"@);
            json::lemma_part_at(v@, 1, "track_name"@);
            json::lemma_part_at(v@, 2, "additional_info"@);
            let names = part_names(Json::Object(v));
            if song.album is Some {
                json::lemma_part_at(v@, 3, "release_name"@);
                assert(names =~= seq![
                    "artist_name"@,
                    "track_name"@,
                    "additional_info"@,
                    "release_name"@,
                ]);
            } else {
                json::lemma_no_part(v@, "release_name"@);
                assert(names =~= seq!["artist_name"@, "track_name"@, "additional_info"@]);
            }
        }
        Json::Object(v)
    }

    /// The listen to send: of a track played at a time, or of one that is playing.
    pub fn listen(&self, song: &ScrobbleSong, timestamp_ms: Option<i64>) -> (r: Json)
        ensures
            is_listen(r, *song, timestamp_ms),
            string(field(r, "listen_type"@)) == Some(
                if timestamp_ms is Some {
                    "single"@
                } else {
                    "playing_now"@
                },
            ),
            items(field(r, "payload"@)).len() == 1,
            ({
                let p = items(field(r, "payload"@))[0];
                &&& string(field2(p, "track_metadata"@, "artist_name"@)) == Some(song.artist@)
                &&& string(field2(p, "track_metadata"@, "track_name"@)) == Some(song.title@)
                &&& string(field2(p, "track_metadata"@, "release_name"@)) == opt_text(song.album)
                &&& match timestamp_ms {
                    Some(t) => {
                        let at = whole_seconds(t as int);
                        field(p, "listened_at"@) == Some(
                            if at >= 0 {
                                Json::Unsigned(at as u64)
                            } else {
                                Json::Negative(at as i64)
                            },
                        )
                    },
                    None => field(p, "listened_at"@) is None,
                }
            }),
    {
        let metadata = self.metadata(song);
        let mut entry: Vec<(String, Json)> = Vec::new();
        entry.push(("track_metadata".to_owned(), metadata));
        if let Some(t) = timestamp_ms {
            let at: i64 = seconds_of(t);
            let value = if at >= 0 {
                Json::Unsigned(at as u64)
            } else {
                Json::Negative(at)
            };
            entry.push(("listened_at".to_owned(), value));
        }
        proof {
            lemma_names();
            json::lemma_part_at(entry@, 0, "track_metadata"@);
            if timestamp_ms is Some {
                json::lemma_part_at(entry@, 1, "listened_at"@);
                assert(part_names(Json::Object(entry)) =~= seq![
                    "track_metadata"@,
                    "listened_at"@,
                ]);
            } else {
                json::lemma_no_part(entry@, "listened_at"@);
                assert(part_names(Json::Object(entry)) =~= seq!["track_metadata"@]);
            }
        }
        let kind = if timestamp_ms.is_some() {
            "single"
        } else {
            "playing_now"
        };
        let mut payload: Vec<Json> = Vec::new();
        payload.push(Json::Object(entry));
        let mut v: Vec<(String, Json)> = Vec::new();
        v.push(text_part("listen_type", kind));
        v.push(("payload".to_owned(), Json::Array(payload)));
        proof {
            json::lemma_part_at(v@, 0, "listen_type"@);
            json::lemma_part_at(v@, 1, "payload"@);
            assert(part_names(Json::Object(v)) =~= seq!["listen_type"@, "payload"@]);
        }
        Json::Object(v)
    }

    /// Where listens are sent, and the header that says by whom.
    pub fn request(&self) -> (r: (String, String))
        ensures
            r.0@ == self.api_base@ + "/1/submit-listens"@,
            r.1@ == "Token "@ + self.token@,
    {
        (
            text::join2(self.api_base.as_str(), "/1/submit-listens"),
            text::join2("Token ", self.token.as_str()),
        )
    }

    /// What the status of a reply means; the text of the reply tells more of an unusual one.
    pub fn submit_listen(status: u16, reply: &str) -> (r: Result<(), String>)
        ensures
            match r {
                Ok(_) => 200 <= status <= 299,
                Err(e) => !(200 <= status <= 299) && e@ == (if status == 401 {
                    "unauthorized: check the ListenBrainz token"@
                } else if status == 429 {
                    "rate limited"@
                } else {
                    "HTTP "@ + decimal(status as nat) + ": "@ + reply@
                }),
            },
    {
        if 200 <= status && status <= 299 {
            Ok(())
        } else if status == 401 {
            Err("unauthorized: check the ListenBrainz token".to_owned())
        } else if status == 429 {
            Err("rate limited".to_owned())
        } else {
            let mut m = "HTTP ".to_owned();
            m.append(text::decimal_text(status as u64).as_str());
            m.append(": ");
            m.append(reply);
            Err(m)
        }
    }
}

/// One of the services that plays are reported to.
#[derive(Debug)]
pub enum Reporter {
    LastFm(LastFmReporter),
    ListenBrainz(ListenBrainzReporter),
}

/// The services that the settings name: Last.fm, then ListenBrainz. Last.fm is among them
/// without a session too, so that one that comes later is used.
pub fn init(settings: &Settings) -> (r: Vec<Reporter>)
    ensures
        r@.len() == (if settings.lastfm is Some {
            1nat
        } else {
            0nat
        }) + (if settings.listenbrainz is Some {
            1nat
        } else {
            0nat
        }),
        settings.lastfm is Some ==> (r@[0] matches Reporter::LastFm(l) && l.api_key
            == settings.lastfm->0.api_key && l.api_secret == settings.lastfm->0.api_secret
            && l.api_url@ == LASTFM_API_URL@),
        settings.listenbrainz is Some ==> (r@.last() matches Reporter::ListenBrainz(b) && b.token
            == settings.listenbrainz->0.token && b.api_base@ == LISTENBRAINZ_API_BASE@),
        settings.lastfm is Some ==> (r@[0] matches Reporter::LastFm(l) && l.api_url@
            == "https://ws.audioscrobbler.com/2.0/"@),
        settings.listenbrainz is Some ==> (r@.last() matches Reporter::ListenBrainz(b) && b.api_base@
            == "https://api.listenbrainz.org"@),
{
    let mut reporters: Vec<Reporter> = Vec::new();
    if let Some(cfg) = &settings.lastfm {
        reporters.push(
            Reporter::LastFm(
                LastFmReporter::new(cfg.api_key.clone(), cfg.api_secret.clone(), LASTFM_API_URL),
            ),
        );
    }
    if let Some(cfg) = &settings.listenbrainz {
        reporters.push(
            Reporter::ListenBrainz(
                ListenBrainzReporter::new(cfg.token.clone(), LISTENBRAINZ_API_BASE),
            ),
        );
    }
    reporters
}

/// Whether plays are reported anywhere.
pub fn enabled(reporters: &Vec<Reporter>) -> (r: bool)
    ensures
        r == (reporters@.len() > 0),
{
    reporters.len() > 0
}

proof fn lemma_least_first(
    v: Seq<(Seq<char>, Seq<char>)>,
    w: Seq<(Seq<char>, Seq<char>)>,
)
    requires
        strictly_sorted(v),
        strictly_sorted(w),
        v.len() > 0,
        w.len() > 0,
        forall|e: (Seq<char>, Seq<char>)| v.contains(e) <==> w.contains(e),
    ensures
        v[0] == w[0],
{
    assert(v.contains(v[0]));
    assert(w.contains(w[0]));
    let i = choose|i: int| 0 <= i < w.len() && w[i] == v[0];
    let j = choose|j: int| 0 <= j < v.len() && v[j] == w[0];
    if i > 0 && j > 0 {
        assert(text_at_most(w[0].0, w[i].0) && w[0].0 != w[i].0);
        assert(text_at_most(v[0].0, v[j].0) && v[0].0 != v[j].0);
        crate::order::lemma_text_total(v[0].0, w[0].0);
    }
}

proof fn lemma_sorted_unique(v: Seq<(Seq<char>, Seq<char>)>, w: Seq<(Seq<char>, Seq<char>)>)
    requires
        strictly_sorted(v),
        strictly_sorted(w),
        forall|e: (Seq<char>, Seq<char>)| v.contains(e) <==> w.contains(e),
    ensures
        v == w,
    decreases v.len(),
{
    if v.len() == 0 {
        if w.len() > 0 {
            assert(w.contains(w[0]));
            assert(v.contains(w[0]));
        }
        assert(v =~= w);
    } else if w.len() == 0 {
        assert(v.contains(v[0]));
        assert(w.contains(v[0]));
    } else {
        lemma_least_first(v, w);
        let a = v.drop_first();
        let b = w.drop_first();
        assert forall|e: (Seq<char>, Seq<char>)| a.contains(e) <==> b.contains(e) by {
            if a.contains(e) {
                let i = choose|i: int| 0 <= i < a.len() && a[i] == e;
                assert(v[i + 1] == e);
                assert(v.contains(e));
                let j = choose|j: int| 0 <= j < w.len() && w[j] == e;
                assert(text_at_most(v[0].0, v[i + 1].0) && v[0].0 != v[i + 1].0);
                assert(j > 0);
                assert(b[j - 1] == e);
            }
            if b.contains(e) {
                let i = choose|i: int| 0 <= i < b.len() && b[i] == e;
                assert(w[i + 1] == e);
                assert(w.contains(e));
                let j = choose|j: int| 0 <= j < v.len() && v[j] == e;
                assert(text_at_most(w[0].0, w[i + 1].0) && w[0].0 != w[i + 1].0);
                assert(j > 0);
                assert(a[j - 1] == e);
            }
        }
        assert forall|i: int, j: int| 0 <= i < j < a.len() implies text_at_most(
            (#[trigger] a[i]).0,
            (#[trigger] a[j]).0,
        ) && a[i].0 != a[j].0 by {
            assert(a[i] == v[i + 1] && a[j] == v[j + 1]);
        }
        assert forall|i: int, j: int| 0 <= i < j < b.len() implies text_at_most(
            (#[trigger] b[i]).0,
            (#[trigger] b[j]).0,
        ) && b[i].0 != b[j].0 by {
            assert(b[i] == w[i + 1] && b[j] == w[j + 1]);
        }
        lemma_sorted_unique(a, b);
        assert(v =~= seq![v[0]] + a);
        assert(w =~= seq![w[0]] + b);
    }
}

/// A request with the same entries has the same signature, in whatever order they were set.
pub proof fn law_signature_ignores_order(
    v: Seq<(Seq<char>, Seq<char>)>,
    w: Seq<(Seq<char>, Seq<char>)>,
    secret: Seq<char>,
)
    requires
        strictly_sorted(v),
        strictly_sorted(w),
        forall|e: (Seq<char>, Seq<char>)| v.contains(e) <==> w.contains(e),
    ensures
        signature(v, secret) == signature(w, secret),
{
    lemma_sorted_unique(v, w);
}

} // verus!
