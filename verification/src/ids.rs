//! The identifiers handed to clients: a prefix for the kind, then the catalogue number.
//!
//! Clients keep identifiers between sessions, so the mapping is fixed and can be undone.

use crate::text;
use crate::text::{after_prefix, decimal, opt_nat, unsigned};
use vstd::prelude::*;

verus! {

/// What an identifier names.
#[derive(Debug, Clone, Copy, PartialEq, Eq, Structural)]
pub enum IdKind {
    Track,
    Album,
    Artist,
    Playlist,
}

impl IdKind {
    /// The letters that identifiers of this kind begin with.
    pub open spec fn letters(self) -> Seq<char> {
        match self {
            IdKind::Track => "t"@,
            IdKind::Album => "al"@,
            IdKind::Artist => "ar"@,
            IdKind::Playlist => "pl"@,
        }
    }

    /// The letters that identifiers of this kind begin with.
    pub fn prefix(self) -> (r: &'static str)
        ensures
            r@ == self.letters(),
    {
        match self {
            IdKind::Track => "t",
            IdKind::Album => "al",
            IdKind::Artist => "ar",
            IdKind::Playlist => "pl",
        }
    }
}

/// The identifier of the thing of this kind with this number.
pub open spec fn encoded(kind: IdKind, id: nat) -> Seq<char> {
    kind.letters() + decimal(id)
}

/// The number in an identifier of the expected kind.
pub open spec fn decoded(kind: IdKind, s: Seq<char>) -> Option<nat> {
    match after_prefix(s, kind.letters()) {
        Some(rest) => unsigned(rest, u64::MAX as nat),
        None => None,
    }
}

/// The kind and the number in an identifier.
pub open spec fn parsed(s: Seq<char>) -> Option<(IdKind, nat)> {
    match decoded(IdKind::Track, s) {
        Some(n) => Some((IdKind::Track, n)),
        None => match decoded(IdKind::Album, s) {
            Some(n) => Some((IdKind::Album, n)),
            None => match decoded(IdKind::Artist, s) {
                Some(n) => Some((IdKind::Artist, n)),
                None => match decoded(IdKind::Playlist, s) {
                    Some(n) => Some((IdKind::Playlist, n)),
                    None => None,
                },
            },
        },
    }
}

/// The track that an identifier or a bare number names.
pub open spec fn track_of(s: Seq<char>) -> Option<nat> {
    match decoded(IdKind::Track, s) {
        Some(n) => Some(n),
        None => unsigned(s, u64::MAX as nat),
    }
}

/// Writes an identifier.
pub fn encode(kind: IdKind, id: u64) -> (r: String)
    ensures
        r@ == encoded(kind, id as nat),
{
    text::join2(kind.prefix(), text::decimal_text(id).as_str())
}

/// Writes the identifier of a track.
pub fn encode_track(id: u64) -> (r: String)
    ensures
        r@ == encoded(IdKind::Track, id as nat),
{
    encode(IdKind::Track, id)
}

/// Writes the identifier of an album.
pub fn encode_album(id: u64) -> (r: String)
    ensures
        r@ == encoded(IdKind::Album, id as nat),
{
    encode(IdKind::Album, id)
}

/// Writes the identifier of an artist.
pub fn encode_artist(id: u64) -> (r: String)
    ensures
        r@ == encoded(IdKind::Artist, id as nat),
{
    encode(IdKind::Artist, id)
}

/// Reads an identifier of the expected kind; another prefix gives nothing.
pub fn decode(kind: IdKind, s: &str) -> (r: Option<u64>)
    ensures
        opt_nat(r) == decoded(kind, s@),
{
    match text::strip_prefix(s, kind.prefix()) {
        Some(rest) => text::parse_u64(rest),
        None => None,
    }
}

/// Reads an identifier of any kind.
pub fn parse(s: &str) -> (r: Option<(IdKind, u64)>)
    ensures
        match r {
            Some((kind, id)) => parsed(s@) == Some((kind, id as nat)),
            None => parsed(s@) is None,
        },
{
    if let Some(id) = decode(IdKind::Track, s) {
        return Some((IdKind::Track, id));
    }
    if let Some(id) = decode(IdKind::Album, s) {
        return Some((IdKind::Album, id));
    }
    if let Some(id) = decode(IdKind::Artist, s) {
        return Some((IdKind::Artist, id));
    }
    if let Some(id) = decode(IdKind::Playlist, s) {
        return Some((IdKind::Playlist, id));
    }
    None
}

/// Reads the identifier of a track, or a bare number as the number of a track.
pub fn parse_track_id(s: &str) -> (r: Option<u64>)
    ensures
        opt_nat(r) == track_of(s@),
{
    match decode(IdKind::Track, s) {
        Some(id) => Some(id),
        None => text::parse_u64(s),
    }
}

proof fn lemma_letters(kind: IdKind)
    ensures
        kind == IdKind::Track ==> kind.letters() =~= seq!['t'],
        kind == IdKind::Album ==> kind.letters() =~= seq!['a', 'l'],
        kind == IdKind::Artist ==> kind.letters() =~= seq!['a', 'r'],
        kind == IdKind::Playlist ==> kind.letters() =~= seq!['p', 'l'],
{
    reveal_strlit("t");
    reveal_strlit("al");
    reveal_strlit("ar");
    reveal_strlit("pl");
}

/// An identifier read as its own kind gives its number back; read as another kind it gives
/// nothing.
pub proof fn law_decode_undoes_encode(kind: IdKind, id: u64, other: IdKind)
    ensures
        decoded(kind, encoded(kind, id as nat)) == Some(id as nat),
        other != kind ==> decoded(other, encoded(kind, id as nat)) is None,
{
    let s = encoded(kind, id as nat);
    let p = kind.letters();
    lemma_letters(kind);
    assert(s.subrange(0, p.len() as int) =~= p);
    assert(s.subrange(p.len() as int, s.len() as int) =~= decimal(id as nat));
    text::law_decimal_reads_back(id as nat, u64::MAX as nat);
    if other != kind {
        lemma_letters(other);
        text::lemma_decimal(id as nat);
        let q = other.letters();
        if text::begins(s, q) {
            assert(s.subrange(0, q.len() as int)[0] == s[0]);
            assert(s.subrange(0, q.len() as int)[q.len() - 1] == s[q.len() - 1]);
            assert(s[0] == p[0]);
            assert(text::is_digit(decimal(id as nat)[0]));
        }
    }
}

/// An identifier says both its kind and its number.
pub proof fn law_parse_undoes_encode(kind: IdKind, id: u64)
    ensures
        parsed(encoded(kind, id as nat)) == Some((kind, id as nat)),
{
    law_decode_undoes_encode(kind, id, IdKind::Track);
    law_decode_undoes_encode(kind, id, IdKind::Album);
    law_decode_undoes_encode(kind, id, IdKind::Artist);
    law_decode_undoes_encode(kind, id, IdKind::Playlist);
}

/// No two things share an identifier.
pub proof fn law_identifiers_differ(k: IdKind, m: u64, l: IdKind, n: u64)
    requires
        encoded(k, m as nat) == encoded(l, n as nat),
    ensures
        k == l,
        m == n,
{
    law_parse_undoes_encode(k, m);
    law_parse_undoes_encode(l, n);
}

/// A track is found by its identifier and by its bare number; an identifier of another kind
/// names no track.
pub proof fn law_track_identifiers(id: u64, kind: IdKind)
    ensures
        track_of(encoded(IdKind::Track, id as nat)) == Some(id as nat),
        track_of(decimal(id as nat)) == Some(id as nat),
        kind != IdKind::Track ==> track_of(encoded(kind, id as nat)) is None,
{
    law_decode_undoes_encode(IdKind::Track, id, IdKind::Track);
    law_decode_undoes_encode(kind, id, IdKind::Track);
    let s = decimal(id as nat);
    text::lemma_decimal(id as nat);
    text::law_decimal_reads_back(id as nat, u64::MAX as nat);
    lemma_letters(IdKind::Track);
    assert(text::is_digit(s[0]));
    if text::begins(s, IdKind::Track.letters()) {
        assert(s.subrange(0, 1)[0] == s[0]);
    }
    if kind != IdKind::Track {
        lemma_letters(kind);
        let e = encoded(kind, id as nat);
        assert(e[0] == kind.letters()[0]);
        assert(!text::is_digit(e[0]));
    }
}

/// The letters of a kind and the number make an identifier; a bare number is one of no kind.
pub proof fn law_identifiers_are_letters_and_a_number(id: u64)
    ensures
        encoded(IdKind::Track, id as nat) == "t"@ + decimal(id as nat),
        encoded(IdKind::Album, id as nat) == "al"@ + decimal(id as nat),
        encoded(IdKind::Artist, id as nat) == "ar"@ + decimal(id as nat),
        encoded(IdKind::Playlist, id as nat) == "pl"@ + decimal(id as nat),
        parsed(decimal(id as nat)) is None,
{
    let s = decimal(id as nat);
    text::lemma_decimal(id as nat);
    assert(text::is_digit(s[0]));
    lemma_bare_is_none(s, IdKind::Track);
    lemma_bare_is_none(s, IdKind::Album);
    lemma_bare_is_none(s, IdKind::Artist);
    lemma_bare_is_none(s, IdKind::Playlist);
}

/// What begins with a digit is an identifier of no kind.
pub proof fn lemma_bare_is_none(s: Seq<char>, kind: IdKind)
    requires
        s.len() > 0,
        text::is_digit(s[0]),
    ensures
        decoded(kind, s) is None,
{
    lemma_letters(kind);
    let p = kind.letters();
    if text::begins(s, p) {
        assert(s.subrange(0, p.len() as int)[0] == s[0]);
    }
}

/// An identifier begins with a letter, so it is no number.
pub proof fn law_letters_come_first(kind: IdKind, id: nat)
    ensures
        encoded(kind, id).len() > 0,
        !text::is_digit(encoded(kind, id)[0]),
        encoded(kind, id)[0] != '+',
        unsigned(encoded(kind, id), u64::MAX as nat) is None,
        kind.letters().len() > 0,
        decoded(kind, Seq::empty()) is None,
{
    lemma_letters(kind);
    let e = encoded(kind, id);
    assert(e[0] == kind.letters()[0]);
}

/// The number of a track is one of 64 bits.
pub proof fn lemma_track_fits(s: Seq<char>)
    ensures
        track_of(s) is Some ==> track_of(s)->0 <= u64::MAX,
{
}

} // verus!
