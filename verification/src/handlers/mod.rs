//! The endpoints, one module per family.
//!
//! Each module decides what a request asks for and what it is answered; the fetching between
//! the two is done by the caller, who hands in what came back.

use crate::ids;
use crate::ids::IdKind;
use crate::models::system::{SubsonicBody, SubsonicError, SubsonicErrorBody, SubsonicResponse};
use crate::params::QueryParams;
use crate::text;
use crate::text::unsigned;
use vstd::prelude::*;

pub mod album;
pub mod annotate;
pub mod artist;
pub mod bookmarks;
pub mod browse;
pub mod cover;
pub mod favorites;
pub mod jukebox;
pub mod lyrics;
pub mod misc;
pub mod now_playing;
pub mod playlist;
pub mod playqueue;
pub mod search;
pub mod stream;
pub mod system;
pub mod tracks;
pub mod transcode;

verus! {

/// Why a request is refused: a code of the protocol and a message.
#[derive(Debug, Clone, Copy)]
pub struct Failure {
    pub code: u32,
    pub message: &'static str,
}

impl Failure {
    /// The failure has this code and this message.
    pub open spec fn is(self, code: u32, message: Seq<char>) -> bool {
        self.code == code && self.message@ == message
    }
}

/// The failure of a request that lacks a parameter.
pub open spec fn is_missing(f: Failure) -> bool {
    f.is(10, "Required parameter missing"@)
}

/// Refuses a request that lacks a parameter.
pub fn missing() -> (r: Failure)
    ensures
        is_missing(r),
        r.code == 10,
        r.message@ == "Required parameter missing"@,
{
    Failure { code: 10, message: "Required parameter missing" }
}

/// Wraps the data of a reply that succeeded.
pub fn ok<T>(data: T) -> (r: SubsonicResponse<SubsonicBody<T>>)
    ensures
        r.inner.status@ == "ok"@,
        r.inner.version@ == "1.16.1"@,
        r.inner.server_type@ == "Subtidal"@,
        r.inner.server_version@ == "0.1.0"@,
        r.inner.open_subsonic,
        r.inner.data == data,
{
    SubsonicResponse {
        inner: SubsonicBody {
            status: "ok",
            version: "1.16.1",
            server_type: "Subtidal",
            server_version: "0.1.0",
            open_subsonic: true,
            data,
        },
    }
}

/// Wraps the code and the message of a reply that failed.
pub fn fail(code: u32, message: &'static str) -> (r: SubsonicResponse<SubsonicErrorBody>)
    ensures
        r.inner.status@ == "failed"@,
        r.inner.version@ == "1.16.1"@,
        r.inner.server_type@ == "Subtidal"@,
        r.inner.server_version@ == "0.1.0"@,
        r.inner.open_subsonic,
        r.inner.error.code == code,
        r.inner.error.message@ == message@,
{
    SubsonicResponse {
        inner: SubsonicErrorBody {
            status: "failed",
            version: "1.16.1",
            server_type: "Subtidal",
            server_version: "0.1.0",
            open_subsonic: true,
            error: SubsonicError { code, message },
        },
    }
}

/// A reply that is not an envelope: a status, headers in order, and a body.
#[derive(Debug)]
pub struct HttpReply {
    pub status: u16,
    pub headers: Vec<(String, String)>,
    pub body: Vec<u8>,
}

/// Pairs of strings as pairs of character sequences.
pub open spec fn pairs(v: Seq<(String, String)>) -> Seq<(Seq<char>, Seq<char>)> {
    v.map_values(|p: (String, String)| (p.0@, p.1@))
}

/// Appends a pair of strings.
pub fn put(v: &mut Vec<(String, String)>, name: &str, value: &str)
    ensures
        pairs(final(v)@) == pairs(old(v)@).push((name@, value@)),
{
    v.push((name.to_owned(), value.to_owned()));
    assert(pairs(v@) =~= pairs(old(v)@).push((name@, value@)));
}

/// Sends the client to another address.
pub fn redirect(url: String) -> (r: HttpReply)
    ensures
        r.status == 302,
        pairs(r.headers@) == seq![("Location"@, url@)],
        r.body@.len() == 0,
{
    let mut headers: Vec<(String, String)> = Vec::new();
    put(&mut headers, "Location", url.as_str());
    assert(pairs(headers@) =~= seq![("Location"@, url@)]);
    HttpReply { status: 302, headers, body: Vec::new() }
}

/// What stopped a request before it reached its endpoint.
#[derive(Debug, Clone, Copy, PartialEq, Eq, Structural)]
pub enum Rejection {
    Unauthorized,
    NotFound,
}

/// Answers a request that a filter rejected: a failed login is answered in the protocol,
/// anything else is left to the fallback.
pub fn recover(r: Rejection) -> (out: Result<Failure, Rejection>)
    ensures
        match out {
            Ok(f) => r == Rejection::Unauthorized && f.is(40, "Wrong username or password"@),
            Err(e) => r != Rejection::Unauthorized && e == r,
        },
        r == Rejection::Unauthorized ==> out is Ok && out->Ok_0.code == 40 && out->Ok_0.message@
            == "Wrong username or password"@,
{
    match r {
        Rejection::Unauthorized => Ok(
            Failure { code: 40, message: "Wrong username or password" },
        ),
        Rejection::NotFound => Err(r),
    }
}

/// The first identifier of a request.
pub open spec fn first_id_of(q: QueryParams) -> Option<Seq<char>> {
    if q.id.0@.len() > 0 {
        Some(q.id.0@[0]@)
    } else {
        None
    }
}

/// The first identifier of a request.
pub fn first_id<'a>(q: &'a QueryParams) -> (r: Option<&'a str>)
    ensures
        text::opt_view(r) == first_id_of(*q),
        r is Some <==> q.id.0@.len() > 0,
        r is Some ==> r->0@ == q.id.0@[0]@,
{
    if q.id.0.len() > 0 {
        Some(q.id.0[0].as_str())
    } else {
        None
    }
}

/// The number of a thing of this kind that an identifier or a bare number names.
pub open spec fn numbered(kind: IdKind, s: Seq<char>) -> Option<nat> {
    match ids::decoded(kind, s) {
        Some(n) => Some(n),
        None => unsigned(s, u64::MAX as nat),
    }
}

/// Reads the number of a thing of this kind from an identifier or a bare number.
pub fn read_number(kind: IdKind, s: &str) -> (r: Option<u64>)
    ensures
        text::opt_nat(r) == numbered(kind, s@),
{
    match ids::decode(kind, s) {
        Some(n) => Some(n),
        None => text::parse_u64(s),
    }
}

/// What is answered where there is no thing of this kind.
pub open spec fn not_found_message(kind: IdKind) -> Seq<char> {
    match kind {
        IdKind::Track => "Song not found"@,
        IdKind::Album => "Album not found"@,
        IdKind::Artist => "Artist not found"@,
        IdKind::Playlist => "Playlist not found"@,
    }
}

/// Refuses a request for a thing of this kind that there is not.
pub fn not_found(kind: IdKind) -> (r: Failure)
    ensures
        r.is(70, not_found_message(kind)),
        r.code == 70,
        kind == IdKind::Track ==> r.message@ == "Song not found"@,
        kind == IdKind::Album ==> r.message@ == "Album not found"@,
        kind == IdKind::Artist ==> r.message@ == "Artist not found"@,
        kind == IdKind::Playlist ==> r.message@ == "Playlist not found"@,
{
    Failure {
        code: 70,
        message: match kind {
            IdKind::Track => "Song not found",
            IdKind::Album => "Album not found",
            IdKind::Artist => "Artist not found",
            IdKind::Playlist => "Playlist not found",
        },
    }
}

/// What a request for one thing of this kind comes to.
pub open spec fn is_requested(r: Result<u64, Failure>, q: QueryParams, kind: IdKind) -> bool {
    match first_id_of(q) {
        Some(id) => match numbered(kind, id) {
            Some(n) => r matches Ok(m) && m == n,
            None => r matches Err(f) && f.is(70, not_found_message(kind)),
        },
        None => r matches Err(f) && is_missing(f),
    }
}

/// The thing of this kind that a request is for.
pub fn requested(q: &QueryParams, kind: IdKind) -> (r: Result<u64, Failure>)
    ensures
        is_requested(r, *q, kind),
        q.id.0@.len() == 0 ==> r is Err && r->Err_0.code == 10 && r->Err_0.message@
            == "Required parameter missing"@,
        q.id.0@.len() > 0 ==> (r is Ok <==> numbered(kind, q.id.0@[0]@) is Some),
        r is Ok ==> numbered(kind, q.id.0@[0]@) == Some(r->Ok_0 as nat),
        q.id.0@.len() > 0 && r is Err ==> r->Err_0.code == 70,
{
    match first_id(q) {
        Some(id) => match read_number(kind, id) {
            Some(n) => Ok(n),
            None => Err(not_found(kind)),
        },
        None => Err(missing()),
    }
}

/// A number of a request, or what it is where there is none, at most `max`.
pub open spec fn limited(n: Option<u32>, usual: u32, max: u32) -> u32 {
    let m = match n {
        Some(x) => x,
        None => usual,
    };
    if m <= max {
        m
    } else {
        max
    }
}

/// A number of a request, or what it is where there is none, at most `max`.
pub fn limit(n: Option<u32>, usual: u32, max: u32) -> (r: u32)
    ensures
        r == limited(n, usual, max),
        r <= max,
        n is Some && n->0 <= max ==> r == n->0,
        n is Some && n->0 > max ==> r == max,
        n is None && usual <= max ==> r == usual,
{
    let m: u32 = match n {
        Some(x) => x,
        None => usual,
    };
    if m <= max {
        m
    } else {
        max
    }
}

/// An optional text, empty where there is none.
pub open spec fn text_or_empty(o: Option<String>) -> Seq<char> {
    match o {
        Some(s) => s@,
        None => Seq::empty(),
    }
}

/// An optional text, empty where there is none.
pub fn or_empty(o: &Option<String>) -> (r: String)
    ensures
        r@ == text_or_empty(*o),
        *o is Some ==> r@ == o->0@,
        *o is None ==> r@.len() == 0,
{
    match o {
        Some(s) => s.clone(),
        None => String::new(),
    }
}

/// What is answered where the service failed: what is not to be had, and why.
pub fn fail_with(code: u32, message: &str, reason: &str) -> (r: (u32, String))
    ensures
        r.0 == code,
        r.1@ == message@ + ": "@ + reason@,
{
    (code, text::join3(message, ": ", reason))
}

/// A thing is found by its identifier and by its bare number, and by nothing else that is written
/// for a thing: the identifier of another kind does not name it.
pub proof fn law_things_are_found_by_identifier_and_by_number(kind: IdKind, n: u64, other: IdKind)
    ensures
        numbered(kind, ids::encoded(kind, n as nat)) == Some(n as nat),
        numbered(kind, text::decimal(n as nat)) == Some(n as nat),
        other != kind ==> numbered(kind, ids::encoded(other, n as nat)) is None,
        numbered(kind, Seq::empty()) is None,
{
    ids::law_decode_undoes_encode(kind, n, kind);
    ids::law_decode_undoes_encode(other, n, kind);
    text::law_decimal_reads_back(n as nat, u64::MAX as nat);
    text::lemma_decimal(n as nat);
    let d = text::decimal(n as nat);
    assert(text::is_digit(d[0]));
    ids::lemma_bare_is_none(d, kind);
    ids::law_letters_come_first(other, n as nat);
    ids::law_letters_come_first(kind, n as nat);
}

/// A failure is told by its code and its message, both.
pub proof fn law_a_failure_is_its_code_and_its_message(f: Failure, code: u32, message: Seq<char>)
    ensures
        f.is(code, message) <==> f.code == code && f.message@ == message,
        is_missing(f) <==> f.code == 10 && f.message@ == "Required parameter missing"@,
{
}

/// A number of a request counts as it came up to the limit; without one the usual one does.
pub proof fn law_numbers_are_limited(n: u32, usual: u32, max: u32)
    ensures
        limited(Some(n), usual, max) <= max,
        n <= max ==> limited(Some(n), usual, max) == n,
        n >= max ==> limited(Some(n), usual, max) == max,
        usual <= max ==> limited(None, usual, max) == usual,
        limited(None, usual, max) <= max,
{
}

/// Pairs of strings are the names and the values that they hold, one for one.
pub proof fn law_pairs_are_what_is_held(v: Seq<(String, String)>)
    ensures
        pairs(v).len() == v.len(),
        forall|i: int| 0 <= i < v.len() ==> (#[trigger] pairs(v)[i]).0 == v[i].0@ && pairs(v)[i].1
            == v[i].1@,
{
}

} // verus!
