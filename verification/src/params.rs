//! The parameters of a request.
//!
//! Every parameter is optional here; what an endpoint needs is checked by the endpoint. A
//! parameter may come in the address or in a form, and some may come several times.

use crate::handlers::pairs;
use crate::number;
use crate::text;
use crate::text::{decimal, opt_text, signed, signed_decimal, texts, unsigned};
use vstd::prelude::*;

verus! {

/// The values of a parameter that may come several times, in the order they came.
#[derive(Debug, Default, PartialEq)]
pub struct IdList(pub Vec<String>);

/// The parameters of a request. The last value of a parameter counts, unless all do.
#[derive(Debug)]
pub struct QueryParams {
    pub u: Option<String>,
    pub t: Option<String>,
    pub s: Option<String>,
    pub p: Option<String>,
    pub v: Option<String>,
    pub c: Option<String>,
    pub query: Option<String>,
    pub artist_count: Option<u32>,
    pub artist_offset: Option<u32>,
    pub album_count: Option<u32>,
    pub album_offset: Option<u32>,
    pub song_count: Option<u32>,
    pub song_offset: Option<u32>,
    pub id: IdList,
    pub album_id: IdList,
    pub artist_id: IdList,
    pub artist: Option<String>,
    pub title: Option<String>,
    pub count: Option<u32>,
    pub action: Option<String>,
    pub index: Option<u32>,
    /// The text of the number.
    pub gain: Option<String>,
    pub type_: Option<String>,
    pub offset: Option<u32>,
    pub size: Option<u32>,
    pub from_year: Option<u32>,
    pub to_year: Option<u32>,
    pub max_bit_rate: Option<u32>,
    pub format: Option<String>,
    pub time: Option<i64>,
    pub submission: Option<bool>,
    pub genre: Option<String>,
    pub enhanced: Option<bool>,
    pub media_id: Option<String>,
    pub media_type: Option<String>,
    pub position_ms: Option<u64>,
    pub state: Option<String>,
    /// The text of the number.
    pub playback_rate: Option<String>,
    pub ignore_scrobble: Option<bool>,
    pub rating: Option<u32>,
    pub music_folder_id: Option<u32>,
    pub if_modified_since: Option<i64>,
    pub playlist_id: Option<String>,
    pub name: Option<String>,
    pub comment: Option<String>,
    pub public: Option<bool>,
    pub song_id: IdList,
    pub song_id_to_add: IdList,
    pub song_index_to_remove: IdList,
    pub current: Option<String>,
    pub current_index: Option<i64>,
    pub position: Option<u64>,
}

/// The parameters of a request as values.
#[verifier::ext_equal]
pub struct Params {
    pub u: Option<Seq<char>>,
    pub t: Option<Seq<char>>,
    pub s: Option<Seq<char>>,
    pub p: Option<Seq<char>>,
    pub v: Option<Seq<char>>,
    pub c: Option<Seq<char>>,
    pub query: Option<Seq<char>>,
    pub artist_count: Option<u32>,
    pub artist_offset: Option<u32>,
    pub album_count: Option<u32>,
    pub album_offset: Option<u32>,
    pub song_count: Option<u32>,
    pub song_offset: Option<u32>,
    pub id: Seq<Seq<char>>,
    pub album_id: Seq<Seq<char>>,
    pub artist_id: Seq<Seq<char>>,
    pub artist: Option<Seq<char>>,
    pub title: Option<Seq<char>>,
    pub count: Option<u32>,
    pub action: Option<Seq<char>>,
    pub index: Option<u32>,
    pub gain: Option<Seq<char>>,
    pub type_: Option<Seq<char>>,
    pub offset: Option<u32>,
    pub size: Option<u32>,
    pub from_year: Option<u32>,
    pub to_year: Option<u32>,
    pub max_bit_rate: Option<u32>,
    pub format: Option<Seq<char>>,
    pub time: Option<i64>,
    pub submission: Option<bool>,
    pub genre: Option<Seq<char>>,
    pub enhanced: Option<bool>,
    pub media_id: Option<Seq<char>>,
    pub media_type: Option<Seq<char>>,
    pub position_ms: Option<u64>,
    pub state: Option<Seq<char>>,
    pub playback_rate: Option<Seq<char>>,
    pub ignore_scrobble: Option<bool>,
    pub rating: Option<u32>,
    pub music_folder_id: Option<u32>,
    pub if_modified_since: Option<i64>,
    pub playlist_id: Option<Seq<char>>,
    pub name: Option<Seq<char>>,
    pub comment: Option<Seq<char>>,
    pub public: Option<bool>,
    pub song_id: Seq<Seq<char>>,
    pub song_id_to_add: Seq<Seq<char>>,
    pub song_index_to_remove: Seq<Seq<char>>,
    pub current: Option<Seq<char>>,
    pub current_index: Option<i64>,
    pub position: Option<u64>,
}

impl View for QueryParams {
    type V = Params;

    open spec fn view(&self) -> Params {
        Params {
            u: opt_text(self.u),
            t: opt_text(self.t),
            s: opt_text(self.s),
            p: opt_text(self.p),
            v: opt_text(self.v),
            c: opt_text(self.c),
            query: opt_text(self.query),
            artist_count: self.artist_count,
            artist_offset: self.artist_offset,
            album_count: self.album_count,
            album_offset: self.album_offset,
            song_count: self.song_count,
            song_offset: self.song_offset,
            id: texts(self.id.0@),
            album_id: texts(self.album_id.0@),
            artist_id: texts(self.artist_id.0@),
            artist: opt_text(self.artist),
            title: opt_text(self.title),
            count: self.count,
            action: opt_text(self.action),
            index: self.index,
            gain: opt_text(self.gain),
            type_: opt_text(self.type_),
            offset: self.offset,
            size: self.size,
            from_year: self.from_year,
            to_year: self.to_year,
            max_bit_rate: self.max_bit_rate,
            format: opt_text(self.format),
            time: self.time,
            submission: self.submission,
            genre: opt_text(self.genre),
            enhanced: self.enhanced,
            media_id: opt_text(self.media_id),
            media_type: opt_text(self.media_type),
            position_ms: self.position_ms,
            state: opt_text(self.state),
            playback_rate: opt_text(self.playback_rate),
            ignore_scrobble: self.ignore_scrobble,
            rating: self.rating,
            music_folder_id: self.music_folder_id,
            if_modified_since: self.if_modified_since,
            playlist_id: opt_text(self.playlist_id),
            name: opt_text(self.name),
            comment: opt_text(self.comment),
            public: self.public,
            song_id: texts(self.song_id.0@),
            song_id_to_add: texts(self.song_id_to_add.0@),
            song_index_to_remove: texts(self.song_index_to_remove.0@),
            current: opt_text(self.current),
            current_index: self.current_index,
            position: self.position,
        }
    }
}

/// No parameters at all.
pub open spec fn no_params() -> Params {
    Params {
        u: None,
        t: None,
        s: None,
        p: None,
        v: None,
        c: None,
        query: None,
        artist_count: None,
        artist_offset: None,
        album_count: None,
        album_offset: None,
        song_count: None,
        song_offset: None,
        id: Seq::empty(),
        album_id: Seq::empty(),
        artist_id: Seq::empty(),
        artist: None,
        title: None,
        count: None,
        action: None,
        index: None,
        gain: None,
        type_: None,
        offset: None,
        size: None,
        from_year: None,
        to_year: None,
        max_bit_rate: None,
        format: None,
        time: None,
        submission: None,
        genre: None,
        enhanced: None,
        media_id: None,
        media_type: None,
        position_ms: None,
        state: None,
        playback_rate: None,
        ignore_scrobble: None,
        rating: None,
        music_folder_id: None,
        if_modified_since: None,
        playlist_id: None,
        name: None,
        comment: None,
        public: None,
        song_id: Seq::empty(),
        song_id_to_add: Seq::empty(),
        song_index_to_remove: Seq::empty(),
        current: None,
        current_index: None,
        position: None,
    }
}

impl Default for QueryParams {
    fn default() -> (r: Self)
        ensures
            r@ == no_params(),
    {
        let r = QueryParams {
            u: None,
            t: None,
            s: None,
            p: None,
            v: None,
            c: None,
            query: None,
            artist_count: None,
            artist_offset: None,
            album_count: None,
            album_offset: None,
            song_count: None,
            song_offset: None,
            id: IdList(Vec::new()),
            album_id: IdList(Vec::new()),
            artist_id: IdList(Vec::new()),
            artist: None,
            title: None,
            count: None,
            action: None,
            index: None,
            gain: None,
            type_: None,
            offset: None,
            size: None,
            from_year: None,
            to_year: None,
            max_bit_rate: None,
            format: None,
            time: None,
            submission: None,
            genre: None,
            enhanced: None,
            media_id: None,
            media_type: None,
            position_ms: None,
            state: None,
            playback_rate: None,
            ignore_scrobble: None,
            rating: None,
            music_folder_id: None,
            if_modified_since: None,
            playlist_id: None,
            name: None,
            comment: None,
            public: None,
            song_id: IdList(Vec::new()),
            song_id_to_add: IdList(Vec::new()),
            song_index_to_remove: IdList(Vec::new()),
            current: None,
            current_index: None,
            position: None,
        };
        assert(r@ =~= no_params());
        r
    }
}

/// A parameter with a value that is not what the parameter holds.
#[derive(Debug, Clone, Copy)]
pub struct InvalidParam {
    pub message: &'static str,
}

/// The truth value that a text names.
pub open spec fn truth(s: Seq<char>) -> Option<bool> {
    if s == "true"@ {
        Some(true)
    } else if s == "false"@ {
        Some(false)
    } else {
        None
    }
}

/// The number of 32 bits that a text stands for.
pub open spec fn number32(s: Seq<char>) -> Option<u32> {
    match unsigned(s, u32::MAX as nat) {
        Some(n) => Some(n as u32),
        None => None,
    }
}

/// The number of 64 bits that a text stands for.
pub open spec fn number64(s: Seq<char>) -> Option<u64> {
    match unsigned(s, u64::MAX as nat) {
        Some(n) => Some(n as u64),
        None => None,
    }
}

/// The signed number of 64 bits that a text stands for.
pub open spec fn signed64(s: Seq<char>) -> Option<i64> {
    match signed(s) {
        Some(n) => Some(n as i64),
        None => None,
    }
}

/// Reads a truth value.
pub fn parse_bool(s: &str) -> (r: Option<bool>)
    ensures
        r == truth(s@),
        r == Some(true) <==> s@ == "true"@,
        r == Some(false) <==> s@ == "false"@,
{
    proof {
        reveal_strlit("true");
        reveal_strlit("false");
        assert("true"@.len() == 4 && "false"@.len() == 5);
    }
    if text::same(s, "true") {
        Some(true)
    } else if text::same(s, "false") {
        Some(false)
    } else {
        None
    }
}

/// The parameters after one more of them came: a list gains the value at its end, any other
/// parameter takes it. A number or a truth value that is none makes the request invalid, and a
/// parameter with another name changes nothing.
pub open spec fn assigned(q: Params, k: Seq<char>, v: Seq<char>) -> Result<Params, Seq<char>> {
    if k == "u"@ {
        Ok(Params { u: Some(v), ..q })
    } else if k == "t"@ {
        Ok(Params { t: Some(v), ..q })
    } else if k == "s"@ {
        Ok(Params { s: Some(v), ..q })
    } else if k == "p"@ {
        Ok(Params { p: Some(v), ..q })
    } else if k == "v"@ {
        Ok(Params { v: Some(v), ..q })
    } else if k == "c"@ {
        Ok(Params { c: Some(v), ..q })
    } else if k == "query"@ {
        Ok(Params { query: Some(v), ..q })
    } else if k == "artistCount"@ {
        match number32(v) {
            Some(x) => Ok(Params { artist_count: Some(x), ..q }),
            None => Err("invalid artistCount"@),
        }
    } else if k == "artistOffset"@ {
        match number32(v) {
            Some(x) => Ok(Params { artist_offset: Some(x), ..q }),
            None => Err("invalid artistOffset"@),
        }
    } else if k == "albumCount"@ {
        match number32(v) {
            Some(x) => Ok(Params { album_count: Some(x), ..q }),
            None => Err("invalid albumCount"@),
        }
    } else if k == "albumOffset"@ {
        match number32(v) {
            Some(x) => Ok(Params { album_offset: Some(x), ..q }),
            None => Err("invalid albumOffset"@),
        }
    } else if k == "songCount"@ {
        match number32(v) {
            Some(x) => Ok(Params { song_count: Some(x), ..q }),
            None => Err("invalid songCount"@),
        }
    } else if k == "songOffset"@ {
        match number32(v) {
            Some(x) => Ok(Params { song_offset: Some(x), ..q }),
            None => Err("invalid songOffset"@),
        }
    } else if k == "id"@ {
        Ok(Params { id: q.id.push(v), ..q })
    } else if k == "albumId"@ {
        Ok(Params { album_id: q.album_id.push(v), ..q })
    } else if k == "artistId"@ {
        Ok(Params { artist_id: q.artist_id.push(v), ..q })
    } else if k == "artist"@ {
        Ok(Params { artist: Some(v), ..q })
    } else if k == "title"@ {
        Ok(Params { title: Some(v), ..q })
    } else if k == "count"@ {
        match number32(v) {
            Some(x) => Ok(Params { count: Some(x), ..q }),
            None => Err("invalid count"@),
        }
    } else if k == "action"@ {
        Ok(Params { action: Some(v), ..q })
    } else if k == "index"@ {
        match number32(v) {
            Some(x) => Ok(Params { index: Some(x), ..q }),
            None => Err("invalid index"@),
        }
    } else if k == "gain"@ {
        if number::is_number(v) {
            Ok(Params { gain: Some(v), ..q })
        } else {
            Err("invalid gain"@)
        }
    } else if k == "type"@ {
        Ok(Params { type_: Some(v), ..q })
    } else if k == "offset"@ {
        match number32(v) {
            Some(x) => Ok(Params { offset: Some(x), ..q }),
            None => Err("invalid offset"@),
        }
    } else if k == "size"@ {
        match number32(v) {
            Some(x) => Ok(Params { size: Some(x), ..q }),
            None => Err("invalid size"@),
        }
    } else if k == "fromYear"@ {
        match number32(v) {
            Some(x) => Ok(Params { from_year: Some(x), ..q }),
            None => Err("invalid fromYear"@),
        }
    } else if k == "toYear"@ {
        match number32(v) {
            Some(x) => Ok(Params { to_year: Some(x), ..q }),
            None => Err("invalid toYear"@),
        }
    } else if k == "maxBitRate"@ {
        match number32(v) {
            Some(x) => Ok(Params { max_bit_rate: Some(x), ..q }),
            None => Err("invalid maxBitRate"@),
        }
    } else if k == "format"@ {
        Ok(Params { format: Some(v), ..q })
    } else if k == "time"@ {
        match signed64(v) {
            Some(x) => Ok(Params { time: Some(x), ..q }),
            None => Err("invalid time"@),
        }
    } else if k == "submission"@ {
        match truth(v) {
            Some(x) => Ok(Params { submission: Some(x), ..q }),
            None => Err("invalid submission"@),
        }
    } else if k == "genre"@ {
        Ok(Params { genre: Some(v), ..q })
    } else if k == "enhanced"@ {
        match truth(v) {
            Some(x) => Ok(Params { enhanced: Some(x), ..q }),
            None => Err("invalid enhanced"@),
        }
    } else if k == "mediaId"@ {
        Ok(Params { media_id: Some(v), ..q })
    } else if k == "mediaType"@ {
        Ok(Params { media_type: Some(v), ..q })
    } else if k == "positionMs"@ {
        match number64(v) {
            Some(x) => Ok(Params { position_ms: Some(x), ..q }),
            None => Err("invalid positionMs"@),
        }
    } else if k == "state"@ {
        Ok(Params { state: Some(v), ..q })
    } else if k == "playbackRate"@ {
        if number::is_number(v) {
            Ok(Params { playback_rate: Some(v), ..q })
        } else {
            Err("invalid playbackRate"@)
        }
    } else if k == "ignoreScrobble"@ {
        match truth(v) {
            Some(x) => Ok(Params { ignore_scrobble: Some(x), ..q }),
            None => Err("invalid ignoreScrobble"@),
        }
    } else if k == "rating"@ {
        match number32(v) {
            Some(x) => Ok(Params { rating: Some(x), ..q }),
            None => Err("invalid rating"@),
        }
    } else if k == "musicFolderId"@ {
        match number32(v) {
            Some(x) => Ok(Params { music_folder_id: Some(x), ..q }),
            None => Err("invalid musicFolderId"@),
        }
    } else if k == "ifModifiedSince"@ {
        match signed64(v) {
            Some(x) => Ok(Params { if_modified_since: Some(x), ..q }),
            None => Err("invalid ifModifiedSince"@),
        }
    } else if k == "playlistId"@ {
        Ok(Params { playlist_id: Some(v), ..q })
    } else if k == "name"@ {
        Ok(Params { name: Some(v), ..q })
    } else if k == "comment"@ {
        Ok(Params { comment: Some(v), ..q })
    } else if k == "public"@ {
        match truth(v) {
            Some(x) => Ok(Params { public: Some(x), ..q }),
            None => Err("invalid public"@),
        }
    } else if k == "songId"@ {
        Ok(Params { song_id: q.song_id.push(v), ..q })
    } else if k == "songIdToAdd"@ {
        Ok(Params { song_id_to_add: q.song_id_to_add.push(v), ..q })
    } else if k == "songIndexToRemove"@ {
        Ok(Params { song_index_to_remove: q.song_index_to_remove.push(v), ..q })
    } else if k == "current"@ {
        Ok(Params { current: Some(v), ..q })
    } else if k == "currentIndex"@ {
        match signed64(v) {
            Some(x) => Ok(Params { current_index: Some(x), ..q }),
            None => Err("invalid currentIndex"@),
        }
    } else if k == "position"@ {
        match number64(v) {
            Some(x) => Ok(Params { position: Some(x), ..q }),
            None => Err("invalid position"@),
        }
    } else {
        Ok(q)
    }
}

/// Appends a value to a list.
fn push_id(list: &mut IdList, v: String)
    ensures
        texts(final(list).0@) == texts(old(list).0@).push(v@),
{
    list.0.push(v);
    assert(texts(list.0@) =~= texts(old(list).0@).push(v@));
}

/// Takes one more parameter. An invalid one leaves the others as they were.
pub fn assign(q: &mut QueryParams, k: &str, v: String) -> (r: Result<(), InvalidParam>)
    ensures
        match r {
            Ok(_) => assigned(old(q)@, k@, v@) == Ok::<Params, Seq<char>>(final(q)@),
            Err(e) => assigned(old(q)@, k@, v@) == Err::<Params, Seq<char>>(e.message@) && final(q)@ == old(q)@,
        },
{
    if text::same(k, "u") {
        q.u = Some(v);
    } else if text::same(k, "t") {
        q.t = Some(v);
    } else if text::same(k, "s") {
        q.s = Some(v);
    } else if text::same(k, "p") {
        q.p = Some(v);
    } else if text::same(k, "v") {
        q.v = Some(v);
    } else if text::same(k, "c") {
        q.c = Some(v);
    } else if text::same(k, "query") {
        q.query = Some(v);
    } else if text::same(k, "artistCount") {
        match text::parse_u32(v.as_str()) {
            Some(x) => {
                q.artist_count = Some(x);
            },
            None => {
                return Err(InvalidParam { message: "invalid artistCount" });
            },
        }
    } else if text::same(k, "artistOffset") {
        match text::parse_u32(v.as_str()) {
            Some(x) => {
                q.artist_offset = Some(x);
            },
            None => {
                return Err(InvalidParam { message: "invalid artistOffset" });
            },
        }
    } else if text::same(k, "albumCount") {
        match text::parse_u32(v.as_str()) {
            Some(x) => {
                q.album_count = Some(x);
            },
            None => {
                return Err(InvalidParam { message: "invalid albumCount" });
            },
        }
    } else if text::same(k, "albumOffset") {
        match text::parse_u32(v.as_str()) {
            Some(x) => {
                q.album_offset = Some(x);
            },
            None => {
                return Err(InvalidParam { message: "invalid albumOffset" });
            },
        }
    } else if text::same(k, "songCount") {
        match text::parse_u32(v.as_str()) {
            Some(x) => {
                q.song_count = Some(x);
            },
            None => {
                return Err(InvalidParam { message: "invalid songCount" });
            },
        }
    } else if text::same(k, "songOffset") {
        match text::parse_u32(v.as_str()) {
            Some(x) => {
                q.song_offset = Some(x);
            },
            None => {
                return Err(InvalidParam { message: "invalid songOffset" });
            },
        }
    } else if text::same(k, "id") {
        push_id(&mut q.id, v);
    } else if text::same(k, "albumId") {
        push_id(&mut q.album_id, v);
    } else if text::same(k, "artistId") {
        push_id(&mut q.artist_id, v);
    } else if text::same(k, "artist") {
        q.artist = Some(v);
    } else if text::same(k, "title") {
        q.title = Some(v);
    } else if text::same(k, "count") {
        match text::parse_u32(v.as_str()) {
            Some(x) => {
                q.count = Some(x);
            },
            None => {
                return Err(InvalidParam { message: "invalid count" });
            },
        }
    } else if text::same(k, "action") {
        q.action = Some(v);
    } else if text::same(k, "index") {
        match text::parse_u32(v.as_str()) {
            Some(x) => {
                q.index = Some(x);
            },
            None => {
                return Err(InvalidParam { message: "invalid index" });
            },
        }
    } else if text::same(k, "gain") {
        if number::check_number(v.as_str()) {
            q.gain = Some(v);
        } else {
            return Err(InvalidParam { message: "invalid gain" });
        }
    } else if text::same(k, "type") {
        q.type_ = Some(v);
    } else if text::same(k, "offset") {
        match text::parse_u32(v.as_str()) {
            Some(x) => {
                q.offset = Some(x);
            },
            None => {
                return Err(InvalidParam { message: "invalid offset" });
            },
        }
    } else if text::same(k, "size") {
        match text::parse_u32(v.as_str()) {
            Some(x) => {
                q.size = Some(x);
            },
            None => {
                return Err(InvalidParam { message: "invalid size" });
            },
        }
    } else if text::same(k, "fromYear") {
        match text::parse_u32(v.as_str()) {
            Some(x) => {
                q.from_year = Some(x);
            },
            None => {
                return Err(InvalidParam { message: "invalid fromYear" });
            },
        }
    } else if text::same(k, "toYear") {
        match text::parse_u32(v.as_str()) {
            Some(x) => {
                q.to_year = Some(x);
            },
            None => {
                return Err(InvalidParam { message: "invalid toYear" });
            },
        }
    } else if text::same(k, "maxBitRate") {
        match text::parse_u32(v.as_str()) {
            Some(x) => {
                q.max_bit_rate = Some(x);
            },
            None => {
                return Err(InvalidParam { message: "invalid maxBitRate" });
            },
        }
    } else if text::same(k, "format") {
        q.format = Some(v);
    } else if text::same(k, "time") {
        match text::parse_i64(v.as_str()) {
            Some(x) => {
                q.time = Some(x);
            },
            None => {
                return Err(InvalidParam { message: "invalid time" });
            },
        }
    } else if text::same(k, "submission") {
        match parse_bool(v.as_str()) {
            Some(x) => {
                q.submission = Some(x);
            },
            None => {
                return Err(InvalidParam { message: "invalid submission" });
            },
        }
    } else if text::same(k, "genre") {
        q.genre = Some(v);
    } else if text::same(k, "enhanced") {
        match parse_bool(v.as_str()) {
            Some(x) => {
                q.enhanced = Some(x);
            },
            None => {
                return Err(InvalidParam { message: "invalid enhanced" });
            },
        }
    } else if text::same(k, "mediaId") {
        q.media_id = Some(v);
    } else if text::same(k, "mediaType") {
        q.media_type = Some(v);
    } else if text::same(k, "positionMs") {
        match text::parse_u64(v.as_str()) {
            Some(x) => {
                q.position_ms = Some(x);
            },
            None => {
                return Err(InvalidParam { message: "invalid positionMs" });
            },
        }
    } else if text::same(k, "state") {
        q.state = Some(v);
    } else if text::same(k, "playbackRate") {
        if number::check_number(v.as_str()) {
            q.playback_rate = Some(v);
        } else {
            return Err(InvalidParam { message: "invalid playbackRate" });
        }
    } else if text::same(k, "ignoreScrobble") {
        match parse_bool(v.as_str()) {
            Some(x) => {
                q.ignore_scrobble = Some(x);
            },
            None => {
                return Err(InvalidParam { message: "invalid ignoreScrobble" });
            },
        }
    } else if text::same(k, "rating") {
        match text::parse_u32(v.as_str()) {
            Some(x) => {
                q.rating = Some(x);
            },
            None => {
                return Err(InvalidParam { message: "invalid rating" });
            },
        }
    } else if text::same(k, "musicFolderId") {
        match text::parse_u32(v.as_str()) {
            Some(x) => {
                q.music_folder_id = Some(x);
            },
            None => {
                return Err(InvalidParam { message: "invalid musicFolderId" });
            },
        }
    } else if text::same(k, "ifModifiedSince") {
        match text::parse_i64(v.as_str()) {
            Some(x) => {
                q.if_modified_since = Some(x);
            },
            None => {
                return Err(InvalidParam { message: "invalid ifModifiedSince" });
            },
        }
    } else if text::same(k, "playlistId") {
        q.playlist_id = Some(v);
    } else if text::same(k, "name") {
        q.name = Some(v);
    } else if text::same(k, "comment") {
        q.comment = Some(v);
    } else if text::same(k, "public") {
        match parse_bool(v.as_str()) {
            Some(x) => {
                q.public = Some(x);
            },
            None => {
                return Err(InvalidParam { message: "invalid public" });
            },
        }
    } else if text::same(k, "songId") {
        push_id(&mut q.song_id, v);
    } else if text::same(k, "songIdToAdd") {
        push_id(&mut q.song_id_to_add, v);
    } else if text::same(k, "songIndexToRemove") {
        push_id(&mut q.song_index_to_remove, v);
    } else if text::same(k, "current") {
        q.current = Some(v);
    } else if text::same(k, "currentIndex") {
        match text::parse_i64(v.as_str()) {
            Some(x) => {
                q.current_index = Some(x);
            },
            None => {
                return Err(InvalidParam { message: "invalid currentIndex" });
            },
        }
    } else if text::same(k, "position") {
        match text::parse_u64(v.as_str()) {
            Some(x) => {
                q.position = Some(x);
            },
            None => {
                return Err(InvalidParam { message: "invalid position" });
            },
        }
    }
    Ok(())
}

/// What a form holds: the names and the values of its entries, in order.
pub uninterp spec fn form_pairs(form: Seq<char>) -> Seq<(Seq<char>, Seq<char>)>;

/// The one entry of a form without an ampersand, a percent sign and a plus sign.
pub open spec fn plain_entry(form: Seq<char>) -> Seq<(Seq<char>, Seq<char>)> {
    if form.len() == 0 {
        Seq::empty()
    } else {
        match text::parted(form, '=') {
            Some((name, value)) => seq![(name, value)],
            None => seq![(form, Seq::<char>::empty())],
        }
    }
}

/// `serde_urlencoded::from_str`, asked for a list of pairs of strings, reads a form. It never
/// fails: the form is cut at each ampersand, an empty piece is passed over, and each other piece
/// is cut at its first equals sign, after which the name and the value are decoded, each for
/// itself. So the entries of a form are those before an ampersand and then those after it, and
/// a piece without an escape stands for itself. How escapes are decoded is left to the name.
#[verifier::external_body]
fn form_entries(form: &str) -> (r: Option<Vec<(String, String)>>)
    ensures
        r is Some,
        pairs(r->0@) == form_pairs(form@),
        forall|i: int|
            0 <= i < form@.len() && form@[i] == '&' ==> pairs(r->0@) == #[trigger] form_pairs(
                form@.subrange(0, i),
            ) + form_pairs(form@.subrange(i + 1, form@.len() as int)),
        !form@.contains('&') && !form@.contains('%') && !form@.contains('+') ==> pairs(r->0@)
            == plain_entry(form@),
{
    serde_urlencoded::from_str(form).ok()
}

/// The parameters after these came, one by one; the first invalid one makes the request invalid.
pub open spec fn assigned_all(q: Params, entries: Seq<(Seq<char>, Seq<char>)>) -> Result<
    Params,
    Seq<char>,
>
    decreases entries.len(),
{
    if entries.len() == 0 {
        Ok(q)
    } else {
        match assigned(q, entries[0].0, entries[0].1) {
            Ok(next) => assigned_all(next, entries.drop_first()),
            Err(e) => Err(e),
        }
    }
}

/// Parameters, or why they are invalid, as values.
pub open spec fn outcome(r: Result<QueryParams, InvalidParam>) -> Result<Params, Seq<char>> {
    match r {
        Ok(q) => Ok(q@),
        Err(e) => Err(e.message@),
    }
}

/// The text of a form that came as bytes; none where the bytes are not text.
pub open spec fn body_text(body: Seq<u8>) -> Seq<char> {
    if vstd::utf8::valid_utf8(body) {
        vstd::utf8::decode_utf8(body)
    } else {
        Seq::empty()
    }
}

/// The query of an address and the form of a body as one form.
pub open spec fn merged_form(query: Seq<char>, form: Seq<char>) -> Seq<char> {
    if form.len() == 0 {
        query
    } else if query.len() == 0 {
        form
    } else {
        query + "&"@ + form
    }
}

impl QueryParams {
    /// Takes entries one by one, up to the first invalid one.
    pub fn from_entries(entries: Vec<(String, String)>) -> (r: Result<Self, InvalidParam>)
        ensures
            outcome(r) == assigned_all(no_params(), pairs(entries@)),
    {
        let mut q = QueryParams::default();
        let mut i: usize = 0;
        let ghost all = pairs(entries@);
        assert(all.subrange(0, all.len() as int) =~= all);
        while i < entries.len()
            invariant
                i <= entries@.len(),
                all == pairs(entries@),
                assigned_all(no_params(), all) == assigned_all(
                    q@,
                    all.subrange(i as int, all.len() as int),
                ),
            decreases entries@.len() - i,
        {
            let ghost rest = all.subrange(i as int, all.len() as int);
            assert(rest[0] == (entries@[i as int].0@, entries@[i as int].1@));
            assert(rest.drop_first() =~= all.subrange(i + 1, all.len() as int));
            let value = entries[i].1.clone();
            match assign(&mut q, entries[i].0.as_str(), value) {
                Ok(_) => {},
                Err(e) => {
                    return Err(e);
                },
            }
            i += 1;
        }
        Ok(q)
    }

    /// Joins the query of an address with the form of a body. Clients send parameters in either,
    /// and rarely in both.
    pub fn merge_raw(query: &str, body: &[u8]) -> (r: String)
        ensures
            r@ == merged_form(query@, body_text(body@)),
            !vstd::utf8::valid_utf8(body@) ==> r@ == query@,
            vstd::utf8::valid_utf8(body@) && vstd::utf8::decode_utf8(body@).len() == 0 ==> r@
                == query@,
            vstd::utf8::valid_utf8(body@) && query@.len() == 0 ==> r@ == vstd::utf8::decode_utf8(
                body@,
            ),
            vstd::utf8::valid_utf8(body@) && query@.len() > 0 && vstd::utf8::decode_utf8(body@).len()
                > 0 ==> r@ == query@ + "&"@ + vstd::utf8::decode_utf8(body@),
    {
        match text::utf8_text(body) {
            Some(form) => if form.unicode_len() == 0 {
                query.to_owned()
            } else if query.unicode_len() == 0 {
                form.to_owned()
            } else {
                text::join3(query, "&", form)
            },
            None => query.to_owned(),
        }
    }

    /// Reads the parameters of a form. Those before an ampersand count first, then those after
    /// it, so joined forms count in the order they were joined.
    pub fn from_merged(merged: &str) -> (r: Result<Self, InvalidParam>)
        ensures
            outcome(r) == assigned_all(no_params(), form_pairs(merged@)),
            forall|i: int|
                0 <= i < merged@.len() && merged@[i] == '&' ==> outcome(r) == assigned_all(
                    no_params(),
                    #[trigger] form_pairs(merged@.subrange(0, i)) + form_pairs(
                        merged@.subrange(i + 1, merged@.len() as int),
                    ),
                ),
            !merged@.contains('&') && !merged@.contains('%') && !merged@.contains('+') ==> outcome(
                r,
            ) == assigned_all(no_params(), plain_entry(merged@)),
    {
        match form_entries(merged) {
            Some(entries) => QueryParams::from_entries(entries),
            None => Ok(QueryParams::default()),
        }
    }
}

/// Parameters that come after others are taken as if the others had been there before, so it
/// does not matter whether a parameter came in the address or in the form.
pub proof fn law_entries_in_order(
    q: Params,
    first: Seq<(Seq<char>, Seq<char>)>,
    second: Seq<(Seq<char>, Seq<char>)>,
)
    ensures
        assigned_all(q, first + second) == (match assigned_all(q, first) {
            Ok(p) => assigned_all(p, second),
            Err(e) => Err(e),
        }),
    decreases first.len(),
{
    if first.len() == 0 {
        assert(first + second =~= second);
    } else {
        assert((first + second).drop_first() =~= first.drop_first() + second);
        assert((first + second)[0] == first[0]);
        match assigned(q, first[0].0, first[0].1) {
            Ok(p) => {
                law_entries_in_order(p, first.drop_first(), second);
            },
            Err(_) => {},
        }
    }
}

/// Every identifier that came is kept, in the order they came: a list parameter never loses or
/// overwrites a value.
pub proof fn law_repeated_ids_are_kept(q: Params, ids: Seq<Seq<char>>)
    ensures
        assigned_all(q, ids.map_values(|v: Seq<char>| ("id"@, v))) == Ok::<Params, Seq<char>>(
            Params { id: q.id + ids, ..q },
        ),
    decreases ids.len(),
{
    let entries = ids.map_values(|v: Seq<char>| ("id"@, v));
    reveal_strlit("id");
    reveal_strlit("u");
    reveal_strlit("t");
    reveal_strlit("s");
    reveal_strlit("p");
    reveal_strlit("v");
    reveal_strlit("c");
    reveal_strlit("query");
    reveal_strlit("artistCount");
    reveal_strlit("artistOffset");
    reveal_strlit("albumCount");
    reveal_strlit("albumOffset");
    reveal_strlit("songCount");
    reveal_strlit("songOffset");
    assert("id"@.len() == 2);
    assert("u"@.len() == 1);
    assert("t"@.len() == 1);
    assert("s"@.len() == 1);
    assert("p"@.len() == 1);
    assert("v"@.len() == 1);
    assert("c"@.len() == 1);
    assert("query"@.len() == 5);
    assert("artistCount"@.len() == 11);
    assert("artistOffset"@.len() == 12);
    assert("albumCount"@.len() == 10);
    assert("albumOffset"@.len() == 11);
    assert("songCount"@.len() == 9);
    assert("songOffset"@.len() == 10);
    if ids.len() == 0 {
        assert(q.id + ids =~= q.id);
    } else {
        let next = Params { id: q.id.push(ids[0]), ..q };
        assert(entries[0] == ("id"@, ids[0]));
        assert(assigned(q, "id"@, ids[0]) == Ok::<Params, Seq<char>>(next));
        law_repeated_ids_are_kept(next, ids.drop_first());
        assert(entries.drop_first() =~= ids.drop_first().map_values(|v: Seq<char>| ("id"@, v)));
        assert(next.id + ids.drop_first() =~= q.id + ids);
    }
}

/// The names of the parameters that the server knows.
pub open spec fn known_names() -> Seq<Seq<char>> {
    seq![
        "u"@,
        "t"@,
        "s"@,
        "p"@,
        "v"@,
        "c"@,
        "query"@,
        "artistCount"@,
        "artistOffset"@,
        "albumCount"@,
        "albumOffset"@,
        "songCount"@,
        "songOffset"@,
        "id"@,
        "albumId"@,
        "artistId"@,
        "artist"@,
        "title"@,
        "count"@,
        "action"@,
        "index"@,
        "gain"@,
        "type"@,
        "offset"@,
        "size"@,
        "fromYear"@,
        "toYear"@,
        "maxBitRate"@,
        "format"@,
        "time"@,
        "submission"@,
        "genre"@,
        "enhanced"@,
        "mediaId"@,
        "mediaType"@,
        "positionMs"@,
        "state"@,
        "playbackRate"@,
        "ignoreScrobble"@,
        "rating"@,
        "musicFolderId"@,
        "ifModifiedSince"@,
        "playlistId"@,
        "name"@,
        "comment"@,
        "public"@,
        "songId"@,
        "songIdToAdd"@,
        "songIndexToRemove"@,
        "current"@,
        "currentIndex"@,
        "position"@,
    ]
}

/// A parameter that the server does not know changes nothing, so new clients cannot break it.
pub proof fn law_unknown_is_ignored(q: Params, k: Seq<char>, v: Seq<char>)
    requires
        !known_names().contains(k),
    ensures
        assigned(q, k, v) == Ok::<Params, Seq<char>>(q),
{
    let names = known_names();
    assert(names[0] == "u"@);
    assert(names[1] == "t"@);
    assert(names[2] == "s"@);
    assert(names[3] == "p"@);
    assert(names[4] == "v"@);
    assert(names[5] == "c"@);
    assert(names[6] == "query"@);
    assert(names[7] == "artistCount"@);
    assert(names[8] == "artistOffset"@);
    assert(names[9] == "albumCount"@);
    assert(names[10] == "albumOffset"@);
    assert(names[11] == "songCount"@);
    assert(names[12] == "songOffset"@);
    assert(names[13] == "id"@);
    assert(names[14] == "albumId"@);
    assert(names[15] == "artistId"@);
    assert(names[16] == "artist"@);
    assert(names[17] == "title"@);
    assert(names[18] == "count"@);
    assert(names[19] == "action"@);
    assert(names[20] == "index"@);
    assert(names[21] == "gain"@);
    assert(names[22] == "type"@);
    assert(names[23] == "offset"@);
    assert(names[24] == "size"@);
    assert(names[25] == "fromYear"@);
    assert(names[26] == "toYear"@);
    assert(names[27] == "maxBitRate"@);
    assert(names[28] == "format"@);
    assert(names[29] == "time"@);
    assert(names[30] == "submission"@);
    assert(names[31] == "genre"@);
    assert(names[32] == "enhanced"@);
    assert(names[33] == "mediaId"@);
    assert(names[34] == "mediaType"@);
    assert(names[35] == "positionMs"@);
    assert(names[36] == "state"@);
    assert(names[37] == "playbackRate"@);
    assert(names[38] == "ignoreScrobble"@);
    assert(names[39] == "rating"@);
    assert(names[40] == "musicFolderId"@);
    assert(names[41] == "ifModifiedSince"@);
    assert(names[42] == "playlistId"@);
    assert(names[43] == "name"@);
    assert(names[44] == "comment"@);
    assert(names[45] == "public"@);
    assert(names[46] == "songId"@);
    assert(names[47] == "songIdToAdd"@);
    assert(names[48] == "songIndexToRemove"@);
    assert(names[49] == "current"@);
    assert(names[50] == "currentIndex"@);
    assert(names[51] == "position"@);
}

/// The names of the parameters differ: in how many letters they have, or in one of these.
proof fn lemma_names_differ()
    ensures
        "u"@.len() == 1,
        "u"@[0] == 'u',
        "t"@.len() == 1,
        "t"@[0] == 't',
        "s"@.len() == 1,
        "s"@[0] == 's',
        "p"@.len() == 1,
        "p"@[0] == 'p',
        "v"@.len() == 1,
        "v"@[0] == 'v',
        "c"@.len() == 1,
        "c"@[0] == 'c',
        "query"@.len() == 5,
        "query"@[0] == 'q',
        "artistCount"@.len() == 11,
        "artistCount"@[1] == 'r',
        "artistOffset"@.len() == 12,
        "artistOffset"@[0] == 'a',
        "albumCount"@.len() == 10,
        "albumCount"@[3] == 'u',
        "albumOffset"@.len() == 11,
        "albumOffset"@[1] == 'l',
        "songCount"@.len() == 9,
        "songCount"@[0] == 's',
        "songOffset"@.len() == 10,
        "songOffset"@[3] == 'g',
        "id"@.len() == 2,
        "albumId"@.len() == 7,
        "albumId"@[1] == 'l',
        "artistId"@.len() == 8,
        "artistId"@[0] == 'a',
        "artist"@.len() == 6,
        "artist"@[0] == 'a',
        "artist"@[1] == 'r',
        "title"@.len() == 5,
        "title"@[0] == 't',
        "count"@.len() == 5,
        "count"@[0] == 'c',
        "action"@.len() == 6,
        "action"@[0] == 'a',
        "action"@[1] == 'c',
        "index"@.len() == 5,
        "index"@[0] == 'i',
        "gain"@.len() == 4,
        "gain"@[0] == 'g',
        "gain"@[1] == 'a',
        "type"@.len() == 4,
        "type"@[0] == 't',
        "type"@[1] == 'y',
        "offset"@.len() == 6,
        "offset"@[0] == 'o',
        "offset"@[1] == 'f',
        "size"@.len() == 4,
        "size"@[0] == 's',
        "size"@[1] == 'i',
        "fromYear"@.len() == 8,
        "fromYear"@[0] == 'f',
        "toYear"@.len() == 6,
        "toYear"@[0] == 't',
        "toYear"@[1] == 'o',
        "maxBitRate"@.len() == 10,
        "maxBitRate"@[3] == 'B',
        "format"@.len() == 6,
        "format"@[0] == 'f',
        "format"@[1] == 'o',
        "time"@.len() == 4,
        "time"@[0] == 't',
        "time"@[1] == 'i',
        "submission"@.len() == 10,
        "submission"@[3] == 'm',
        "genre"@.len() == 5,
        "genre"@[0] == 'g',
        "enhanced"@.len() == 8,
        "enhanced"@[0] == 'e',
        "mediaId"@.len() == 7,
        "mediaId"@[1] == 'e',
        "mediaType"@.len() == 9,
        "mediaType"@[0] == 'm',
        "positionMs"@.len() == 10,
        "positionMs"@[3] == 'i',
        "state"@.len() == 5,
        "state"@[0] == 's',
        "playbackRate"@.len() == 12,
        "playbackRate"@[0] == 'p',
        "ignoreScrobble"@.len() == 14,
        "rating"@.len() == 6,
        "rating"@[0] == 'r',
        "rating"@[1] == 'a',
        "musicFolderId"@.len() == 13,
        "ifModifiedSince"@.len() == 15,
        "playlistId"@.len() == 10,
        "playlistId"@[3] == 'y',
        "name"@.len() == 4,
        "name"@[0] == 'n',
        "name"@[1] == 'a',
        "comment"@.len() == 7,
        "comment"@[1] == 'o',
        "public"@.len() == 6,
        "public"@[0] == 'p',
        "public"@[1] == 'u',
        "songId"@.len() == 6,
        "songId"@[0] == 's',
        "songId"@[1] == 'o',
        "songIdToAdd"@.len() == 11,
        "songIdToAdd"@[1] == 'o',
        "songIndexToRemove"@.len() == 17,
        "current"@.len() == 7,
        "current"@[1] == 'u',
        "currentIndex"@.len() == 12,
        "currentIndex"@[0] == 'c',
        "position"@.len() == 8,
        "position"@[0] == 'p',
{
    reveal_strlit("u");
    reveal_strlit("t");
    reveal_strlit("s");
    reveal_strlit("p");
    reveal_strlit("v");
    reveal_strlit("c");
    reveal_strlit("query");
    reveal_strlit("artistCount");
    reveal_strlit("artistOffset");
    reveal_strlit("albumCount");
    reveal_strlit("albumOffset");
    reveal_strlit("songCount");
    reveal_strlit("songOffset");
    reveal_strlit("id");
    reveal_strlit("albumId");
    reveal_strlit("artistId");
    reveal_strlit("artist");
    reveal_strlit("title");
    reveal_strlit("count");
    reveal_strlit("action");
    reveal_strlit("index");
    reveal_strlit("gain");
    reveal_strlit("type");
    reveal_strlit("offset");
    reveal_strlit("size");
    reveal_strlit("fromYear");
    reveal_strlit("toYear");
    reveal_strlit("maxBitRate");
    reveal_strlit("format");
    reveal_strlit("time");
    reveal_strlit("submission");
    reveal_strlit("genre");
    reveal_strlit("enhanced");
    reveal_strlit("mediaId");
    reveal_strlit("mediaType");
    reveal_strlit("positionMs");
    reveal_strlit("state");
    reveal_strlit("playbackRate");
    reveal_strlit("ignoreScrobble");
    reveal_strlit("rating");
    reveal_strlit("musicFolderId");
    reveal_strlit("ifModifiedSince");
    reveal_strlit("playlistId");
    reveal_strlit("name");
    reveal_strlit("comment");
    reveal_strlit("public");
    reveal_strlit("songId");
    reveal_strlit("songIdToAdd");
    reveal_strlit("songIndexToRemove");
    reveal_strlit("current");
    reveal_strlit("currentIndex");
    reveal_strlit("position");
}

/// A text comes to stand under its own name, whatever it is, and nothing else changes.
pub proof fn law_texts_are_taken_by_name(q: Params, v: Seq<char>)
    ensures
        assigned(q, "u"@, v) == Ok::<Params, Seq<char>>(Params { u: Some(v), ..q }),
        assigned(q, "t"@, v) == Ok::<Params, Seq<char>>(Params { t: Some(v), ..q }),
        assigned(q, "s"@, v) == Ok::<Params, Seq<char>>(Params { s: Some(v), ..q }),
        assigned(q, "p"@, v) == Ok::<Params, Seq<char>>(Params { p: Some(v), ..q }),
        assigned(q, "v"@, v) == Ok::<Params, Seq<char>>(Params { v: Some(v), ..q }),
        assigned(q, "c"@, v) == Ok::<Params, Seq<char>>(Params { c: Some(v), ..q }),
        assigned(q, "query"@, v) == Ok::<Params, Seq<char>>(Params { query: Some(v), ..q }),
        assigned(q, "artist"@, v) == Ok::<Params, Seq<char>>(Params { artist: Some(v), ..q }),
        assigned(q, "title"@, v) == Ok::<Params, Seq<char>>(Params { title: Some(v), ..q }),
        assigned(q, "action"@, v) == Ok::<Params, Seq<char>>(Params { action: Some(v), ..q }),
        assigned(q, "type"@, v) == Ok::<Params, Seq<char>>(Params { type_: Some(v), ..q }),
        assigned(q, "format"@, v) == Ok::<Params, Seq<char>>(Params { format: Some(v), ..q }),
        assigned(q, "genre"@, v) == Ok::<Params, Seq<char>>(Params { genre: Some(v), ..q }),
        assigned(q, "mediaId"@, v) == Ok::<Params, Seq<char>>(Params { media_id: Some(v), ..q }),
        assigned(q, "mediaType"@, v) == Ok::<Params, Seq<char>>(Params { media_type: Some(v), ..q }),
        assigned(q, "state"@, v) == Ok::<Params, Seq<char>>(Params { state: Some(v), ..q }),
        assigned(q, "playlistId"@, v) == Ok::<Params, Seq<char>>(Params { playlist_id: Some(v), ..q }),
        assigned(q, "name"@, v) == Ok::<Params, Seq<char>>(Params { name: Some(v), ..q }),
        assigned(q, "comment"@, v) == Ok::<Params, Seq<char>>(Params { comment: Some(v), ..q }),
        assigned(q, "current"@, v) == Ok::<Params, Seq<char>>(Params { current: Some(v), ..q }),
{
    lemma_names_differ();
}

/// A value of a list comes last in the list of its name, and nothing else changes.
pub proof fn law_list_values_are_taken_by_name(q: Params, v: Seq<char>)
    ensures
        assigned(q, "id"@, v) == Ok::<Params, Seq<char>>(Params { id: q.id.push(v), ..q }),
        assigned(q, "albumId"@, v) == Ok::<Params, Seq<char>>(Params { album_id: q.album_id.push(v), ..q }),
        assigned(q, "artistId"@, v) == Ok::<Params, Seq<char>>(Params { artist_id: q.artist_id.push(v), ..q }),
        assigned(q, "songId"@, v) == Ok::<Params, Seq<char>>(Params { song_id: q.song_id.push(v), ..q }),
        assigned(q, "songIdToAdd"@, v) == Ok::<Params, Seq<char>>(Params { song_id_to_add: q.song_id_to_add.push(v), ..q }),
        assigned(q, "songIndexToRemove"@, v) == Ok::<Params, Seq<char>>(Params { song_index_to_remove: q.song_index_to_remove.push(v), ..q }),
{
    lemma_names_differ();
}

/// A number that was written in decimal comes to stand under its own name, and nothing else
/// changes.
pub proof fn law_numbers_are_taken_by_name(q: Params, n: u32)
    ensures
        assigned(q, "artistCount"@, decimal(n as nat)) == Ok::<Params, Seq<char>>(
            Params { artist_count: Some(n), ..q },
        ),
        assigned(q, "artistOffset"@, decimal(n as nat)) == Ok::<Params, Seq<char>>(
            Params { artist_offset: Some(n), ..q },
        ),
        assigned(q, "albumCount"@, decimal(n as nat)) == Ok::<Params, Seq<char>>(
            Params { album_count: Some(n), ..q },
        ),
        assigned(q, "albumOffset"@, decimal(n as nat)) == Ok::<Params, Seq<char>>(
            Params { album_offset: Some(n), ..q },
        ),
        assigned(q, "songCount"@, decimal(n as nat)) == Ok::<Params, Seq<char>>(
            Params { song_count: Some(n), ..q },
        ),
        assigned(q, "songOffset"@, decimal(n as nat)) == Ok::<Params, Seq<char>>(
            Params { song_offset: Some(n), ..q },
        ),
        assigned(q, "count"@, decimal(n as nat)) == Ok::<Params, Seq<char>>(
            Params { count: Some(n), ..q },
        ),
        assigned(q, "index"@, decimal(n as nat)) == Ok::<Params, Seq<char>>(
            Params { index: Some(n), ..q },
        ),
        assigned(q, "offset"@, decimal(n as nat)) == Ok::<Params, Seq<char>>(
            Params { offset: Some(n), ..q },
        ),
        assigned(q, "size"@, decimal(n as nat)) == Ok::<Params, Seq<char>>(
            Params { size: Some(n), ..q },
        ),
        assigned(q, "fromYear"@, decimal(n as nat)) == Ok::<Params, Seq<char>>(
            Params { from_year: Some(n), ..q },
        ),
        assigned(q, "toYear"@, decimal(n as nat)) == Ok::<Params, Seq<char>>(
            Params { to_year: Some(n), ..q },
        ),
        assigned(q, "maxBitRate"@, decimal(n as nat)) == Ok::<Params, Seq<char>>(
            Params { max_bit_rate: Some(n), ..q },
        ),
        assigned(q, "rating"@, decimal(n as nat)) == Ok::<Params, Seq<char>>(
            Params { rating: Some(n), ..q },
        ),
        assigned(q, "musicFolderId"@, decimal(n as nat)) == Ok::<Params, Seq<char>>(
            Params { music_folder_id: Some(n), ..q },
        ),
{
    lemma_names_differ();
    text::law_decimal_reads_back(n as nat, u32::MAX as nat);
}

/// A place in a song that was written in decimal comes to stand under its own name, and nothing
/// else changes.
pub proof fn law_places_are_taken_by_name(q: Params, n: u64)
    ensures
        assigned(q, "positionMs"@, decimal(n as nat)) == Ok::<Params, Seq<char>>(
            Params { position_ms: Some(n), ..q },
        ),
        assigned(q, "position"@, decimal(n as nat)) == Ok::<Params, Seq<char>>(
            Params { position: Some(n), ..q },
        ),
{
    lemma_names_differ();
    text::law_decimal_reads_back(n as nat, u64::MAX as nat);
}

/// A number with a sign comes to stand under its own name, and nothing else changes.
pub proof fn law_signed_numbers_are_taken_by_name(q: Params, n: i64)
    ensures
        assigned(q, "time"@, signed_decimal(n as int)) == Ok::<Params, Seq<char>>(
            Params { time: Some(n), ..q },
        ),
        assigned(q, "ifModifiedSince"@, signed_decimal(n as int)) == Ok::<Params, Seq<char>>(
            Params { if_modified_since: Some(n), ..q },
        ),
        assigned(q, "currentIndex"@, signed_decimal(n as int)) == Ok::<Params, Seq<char>>(
            Params { current_index: Some(n), ..q },
        ),
{
    lemma_names_differ();
    text::law_signed_reads_back(n as int);
}

/// A truth value comes to stand under its own name, and nothing else changes.
pub proof fn law_truths_are_taken_by_name(q: Params)
    ensures
        assigned(q, "submission"@, "true"@) == Ok::<Params, Seq<char>>(
            Params { submission: Some(true), ..q },
        ),
        assigned(q, "submission"@, "false"@) == Ok::<Params, Seq<char>>(
            Params { submission: Some(false), ..q },
        ),
        assigned(q, "enhanced"@, "true"@) == Ok::<Params, Seq<char>>(
            Params { enhanced: Some(true), ..q },
        ),
        assigned(q, "enhanced"@, "false"@) == Ok::<Params, Seq<char>>(
            Params { enhanced: Some(false), ..q },
        ),
        assigned(q, "ignoreScrobble"@, "true"@) == Ok::<Params, Seq<char>>(
            Params { ignore_scrobble: Some(true), ..q },
        ),
        assigned(q, "ignoreScrobble"@, "false"@) == Ok::<Params, Seq<char>>(
            Params { ignore_scrobble: Some(false), ..q },
        ),
        assigned(q, "public"@, "true"@) == Ok::<Params, Seq<char>>(
            Params { public: Some(true), ..q },
        ),
        assigned(q, "public"@, "false"@) == Ok::<Params, Seq<char>>(
            Params { public: Some(false), ..q },
        ),
{
    lemma_names_differ();
    reveal_strlit("true");
    reveal_strlit("false");
}

/// The text of a number is taken under its own name, and nothing else changes.
pub proof fn law_number_texts_are_taken_by_name(q: Params, v: Seq<char>)
    ensures
        number::is_number(v) ==> assigned(q, "gain"@, v) == Ok::<Params, Seq<char>>(
            Params { gain: Some(v), ..q },
        ),
        number::is_number(v) ==> assigned(q, "playbackRate"@, v) == Ok::<Params, Seq<char>>(
            Params { playback_rate: Some(v), ..q },
        ),
{
    lemma_names_differ();
}

/// A value that is not what its parameter holds makes the request invalid, and the message
/// names the parameter.
pub proof fn law_invalid_values_are_refused(q: Params, v: Seq<char>)
    ensures
        unsigned(v, u32::MAX as nat) is None ==> assigned(q, "artistCount"@, v) == Err::<Params, Seq<char>>(
            "invalid artistCount"@,
        ),
        unsigned(v, u32::MAX as nat) is None ==> assigned(q, "artistOffset"@, v) == Err::<Params, Seq<char>>(
            "invalid artistOffset"@,
        ),
        unsigned(v, u32::MAX as nat) is None ==> assigned(q, "albumCount"@, v) == Err::<Params, Seq<char>>(
            "invalid albumCount"@,
        ),
        unsigned(v, u32::MAX as nat) is None ==> assigned(q, "albumOffset"@, v) == Err::<Params, Seq<char>>(
            "invalid albumOffset"@,
        ),
        unsigned(v, u32::MAX as nat) is None ==> assigned(q, "songCount"@, v) == Err::<Params, Seq<char>>(
            "invalid songCount"@,
        ),
        unsigned(v, u32::MAX as nat) is None ==> assigned(q, "songOffset"@, v) == Err::<Params, Seq<char>>(
            "invalid songOffset"@,
        ),
        unsigned(v, u32::MAX as nat) is None ==> assigned(q, "count"@, v) == Err::<Params, Seq<char>>(
            "invalid count"@,
        ),
        unsigned(v, u32::MAX as nat) is None ==> assigned(q, "index"@, v) == Err::<Params, Seq<char>>(
            "invalid index"@,
        ),
        unsigned(v, u32::MAX as nat) is None ==> assigned(q, "offset"@, v) == Err::<Params, Seq<char>>(
            "invalid offset"@,
        ),
        unsigned(v, u32::MAX as nat) is None ==> assigned(q, "size"@, v) == Err::<Params, Seq<char>>(
            "invalid size"@,
        ),
        unsigned(v, u32::MAX as nat) is None ==> assigned(q, "fromYear"@, v) == Err::<Params, Seq<char>>(
            "invalid fromYear"@,
        ),
        unsigned(v, u32::MAX as nat) is None ==> assigned(q, "toYear"@, v) == Err::<Params, Seq<char>>(
            "invalid toYear"@,
        ),
        unsigned(v, u32::MAX as nat) is None ==> assigned(q, "maxBitRate"@, v) == Err::<Params, Seq<char>>(
            "invalid maxBitRate"@,
        ),
        unsigned(v, u32::MAX as nat) is None ==> assigned(q, "rating"@, v) == Err::<Params, Seq<char>>(
            "invalid rating"@,
        ),
        unsigned(v, u32::MAX as nat) is None ==> assigned(q, "musicFolderId"@, v) == Err::<Params, Seq<char>>(
            "invalid musicFolderId"@,
        ),
        unsigned(v, u64::MAX as nat) is None ==> assigned(q, "positionMs"@, v) == Err::<Params, Seq<char>>(
            "invalid positionMs"@,
        ),
        unsigned(v, u64::MAX as nat) is None ==> assigned(q, "position"@, v) == Err::<Params, Seq<char>>(
            "invalid position"@,
        ),
        signed(v) is None ==> assigned(q, "time"@, v) == Err::<Params, Seq<char>>(
            "invalid time"@,
        ),
        signed(v) is None ==> assigned(q, "ifModifiedSince"@, v) == Err::<Params, Seq<char>>(
            "invalid ifModifiedSince"@,
        ),
        signed(v) is None ==> assigned(q, "currentIndex"@, v) == Err::<Params, Seq<char>>(
            "invalid currentIndex"@,
        ),
        v != "true"@ && v != "false"@ ==> assigned(q, "submission"@, v) == Err::<Params, Seq<char>>(
            "invalid submission"@,
        ),
        v != "true"@ && v != "false"@ ==> assigned(q, "enhanced"@, v) == Err::<Params, Seq<char>>(
            "invalid enhanced"@,
        ),
        v != "true"@ && v != "false"@ ==> assigned(q, "ignoreScrobble"@, v) == Err::<Params, Seq<char>>(
            "invalid ignoreScrobble"@,
        ),
        v != "true"@ && v != "false"@ ==> assigned(q, "public"@, v) == Err::<Params, Seq<char>>(
            "invalid public"@,
        ),
        !number::is_number(v) ==> assigned(q, "gain"@, v) == Err::<Params, Seq<char>>(
            "invalid gain"@,
        ),
        !number::is_number(v) ==> assigned(q, "playbackRate"@, v) == Err::<Params, Seq<char>>(
            "invalid playbackRate"@,
        ),
{
    lemma_names_differ();
}

/// Before any parameter came, none is there.
pub proof fn law_at_first_nothing_is_there()
    ensures
        no_params().u is None,
        no_params().t is None,
        no_params().s is None,
        no_params().p is None,
        no_params().v is None,
        no_params().c is None,
        no_params().query is None,
        no_params().artist_count is None,
        no_params().artist_offset is None,
        no_params().album_count is None,
        no_params().album_offset is None,
        no_params().song_count is None,
        no_params().song_offset is None,
        no_params().id.len() == 0,
        no_params().album_id.len() == 0,
        no_params().artist_id.len() == 0,
        no_params().artist is None,
        no_params().title is None,
        no_params().count is None,
        no_params().action is None,
        no_params().index is None,
        no_params().gain is None,
        no_params().type_ is None,
        no_params().offset is None,
        no_params().size is None,
        no_params().from_year is None,
        no_params().to_year is None,
        no_params().max_bit_rate is None,
        no_params().format is None,
        no_params().time is None,
        no_params().submission is None,
        no_params().genre is None,
        no_params().enhanced is None,
        no_params().media_id is None,
        no_params().media_type is None,
        no_params().position_ms is None,
        no_params().state is None,
        no_params().playback_rate is None,
        no_params().ignore_scrobble is None,
        no_params().rating is None,
        no_params().music_folder_id is None,
        no_params().if_modified_since is None,
        no_params().playlist_id is None,
        no_params().name is None,
        no_params().comment is None,
        no_params().public is None,
        no_params().song_id.len() == 0,
        no_params().song_id_to_add.len() == 0,
        no_params().song_index_to_remove.len() == 0,
        no_params().current is None,
        no_params().current_index is None,
        no_params().position is None,
{
}

/// A single parameter is taken as it came, and a request without parameters changes nothing.
pub proof fn law_entries_are_taken_one_by_one(q: Params, k: Seq<char>, v: Seq<char>)
    ensures
        assigned_all(q, Seq::empty()) == Ok::<Params, Seq<char>>(q),
        assigned_all(q, seq![(k, v)]) == assigned(q, k, v),
{
    assert(seq![(k, v)].drop_first() =~= Seq::<(Seq<char>, Seq<char>)>::empty());
    match assigned(q, k, v) {
        Ok(next) => {
            assert(assigned_all(next, Seq::<(Seq<char>, Seq<char>)>::empty()) == Ok::<
                Params,
                Seq<char>,
            >(next));
        },
        Err(_) => {},
    }
}

/// A form of one name and one value is read as these two; what stands behind the first equals
/// sign is the value, whatever it holds.
pub proof fn law_a_plain_entry_is_a_name_and_a_value(name: Seq<char>, value: Seq<char>)
    requires
        !name.contains('='),
    ensures
        plain_entry(name + seq!['='] + value) == seq![(name, value)],
        name.len() > 0 ==> plain_entry(name) == seq![(name, Seq::<char>::empty())],
        plain_entry(Seq::empty()).len() == 0,
{
    text::law_parted_at_the_first(name, '=', value);
}

} // verus!
