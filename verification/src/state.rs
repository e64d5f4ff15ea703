//! What is kept in one file: a document with a section for each service.

use crate::json;
use crate::json::{part_named, Json};
use crate::text;
use vstd::prelude::*;

verus! {

/// The sections of the file.
pub const TIDAL: &'static str = "tidal";

pub const LASTFM: &'static str = "lastfm";

pub const PLAYBACK: &'static str = "playback";

/// Where the file is.
#[derive(Debug)]
pub enum StatePath {
    /// At this place.
    File(String),
    /// In the directory for state.
    InStateHome(String),
    /// In the usual directory for state of this home.
    InHome(String),
}

/// Decides where the file is: at a place that is named, or in the directory for state, or in the
/// home.
pub fn file_path(file: Option<String>, state_home: Option<String>, home: Option<String>) -> (r:
    Result<StatePath, String>)
    ensures
        match (file, state_home, home) {
            (Some(f), _, _) => r == Ok::<StatePath, String>(StatePath::File(f)),
            (None, Some(s), _) => r == Ok::<StatePath, String>(StatePath::InStateHome(s)),
            (None, None, Some(h)) => r == Ok::<StatePath, String>(StatePath::InHome(h)),
            (None, None, None) => r matches Err(e) && e@
                == "no HOME or XDG_STATE_HOME for the credential file"@,
        },
{
    if let Some(f) = file {
        return Ok(StatePath::File(f));
    }
    if let Some(s) = state_home {
        return Ok(StatePath::InStateHome(s));
    }
    match home {
        Some(h) => Ok(StatePath::InHome(h)),
        None => Err("no HOME or XDG_STATE_HOME for the credential file".to_owned()),
    }
}

/// The section of a document, where it holds something.
pub open spec fn section_of(doc: Seq<(String, Json)>, key: Seq<char>) -> Option<Json> {
    match part_named(doc, key) {
        Some(Json::Null) => None,
        other => other,
    }
}

/// The sections of a file that was read; it must be a document with named parts.
pub fn read_doc(doc: Json) -> (r: Option<Vec<(String, Json)>>)
    ensures
        match doc {
            Json::Object(v) => r == Some(v),
            _ => r is None,
        },
{
    match doc {
        Json::Object(v) => Some(v),
        _ => None,
    }
}

/// Reads a section; one that is not there, or holds nothing, is none.
pub fn load_section<'a>(doc: &'a Vec<(String, Json)>, key: &str) -> (r: Option<&'a Json>)
    ensures
        json::opt_json(r) == section_of(doc@, key@),
        (forall|i: int| 0 <= i < doc@.len() ==> (#[trigger] doc@[i]).0@ != key@) ==> r is None,
        forall|i: int|
            0 <= i < doc@.len() && (#[trigger] doc@[i]).0@ == key@ && !(doc@[i].1 is Null) && (forall|
                j: int,
            |
                0 <= j < i ==> (#[trigger] doc@[j]).0@ != key@) ==> r is Some && *r->0 == doc@[i].1,
{
    let mut i: usize = 0;
    assert(doc@.subrange(0, doc@.len() as int) =~= doc@);
    while i < doc.len()
        invariant
            i <= doc@.len(),
            forall|j: int| 0 <= j < i ==> (#[trigger] doc@[j]).0@ != key@,
            part_named(doc@, key@) == part_named(
                doc@.subrange(i as int, doc@.len() as int),
                key@,
            ),
        decreases doc@.len() - i,
    {
        let ghost t = doc@.subrange(i as int, doc@.len() as int);
        assert(t[0] == doc@[i as int]);
        if text::same(doc[i].0.as_str(), key) {
            return match &doc[i].1 {
                Json::Null => None,
                other => Some(other),
            };
        }
        assert(t.drop_first() =~= doc@.subrange(i + 1, doc@.len() as int));
        i += 1;
    }
    None
}

/// Writes a section, in place of the one that is there.
pub fn store_section(doc: &mut Vec<(String, Json)>, key: &str, value: Json)
    ensures
        part_named(final(doc)@, key@) == Some(value),
        forall|other: Seq<char>|
            other != key@ ==> #[trigger] part_named(final(doc)@, other) == part_named(
                old(doc)@,
                other,
            ),
{
    let mut i: usize = 0;
    while i < doc.len() && !text::same(doc[i].0.as_str(), key)
        invariant
            i <= doc@.len(),
            doc@ == old(doc)@,
            forall|j: int| 0 <= j < i ==> (#[trigger] doc@[j]).0@ != key@,
        decreases doc@.len() - i,
    {
        i += 1;
    }
    let ghost before = doc@;
    let name = key.to_owned();
    if i < doc.len() {
        doc.set(i, (name, value));
    } else {
        doc.push((name, value));
    }
    proof {
        let after = doc@;
        assert forall|j: int| 0 <= j < i implies (#[trigger] after[j]).0@ != key@ by {
            assert(after[j] == before[j]);
        }
        json::lemma_part_at(after, i as int, key@);
        assert forall|other: Seq<char>| other != key@ implies #[trigger] part_named(after, other)
            == part_named(before, other) by {
            lemma_other_parts(before, after, i as int, other);
        }
    }
}

proof fn lemma_other_parts(
    before: Seq<(String, Json)>,
    after: Seq<(String, Json)>,
    i: int,
    other: Seq<char>,
)
    requires
        0 <= i <= before.len(),
        i < after.len(),
        after[i].0@ != other,
        i < before.len() ==> before[i].0@ != other && after.len() == before.len() && after
            == before.update(i, after[i]),
        i == before.len() ==> after == before.push(after[i]),
    ensures
        part_named(after, other) == part_named(before, other),
    decreases before.len(),
{
    if i == 0 {
        if before.len() > 0 {
            assert(after.drop_first() =~= before.drop_first());
        } else {
            assert(after.drop_first() =~= Seq::empty());
            assert(part_named(after.drop_first(), other) is None);
        }
    } else {
        let b = before.drop_first();
        let a = after.drop_first();
        assert(a[i - 1] == after[i]);
        if i < before.len() {
            assert(a =~= b.update(i - 1, a[i - 1]));
            assert(b[i - 1] == before[i]);
        } else {
            assert(a =~= b.push(a[i - 1]));
        }
        lemma_other_parts(b, a, i - 1, other);
    }
}

/// Takes what a section holds out of it, and leaves the others as they are.
pub fn clear_section(doc: &mut Vec<(String, Json)>, key: &str)
    ensures
        section_of(final(doc)@, key@) is None,
        forall|other: Seq<char>|
            other != key@ ==> #[trigger] part_named(final(doc)@, other) == part_named(
                old(doc)@,
                other,
            ),
{
    store_section(doc, key, Json::Null);
}

/// A section that was written is read back, and the others are as they were.
pub proof fn law_sections_are_kept_apart(
    before: Seq<(String, Json)>,
    after: Seq<(String, Json)>,
    key: Seq<char>,
    value: Json,
    other: Seq<char>,
)
    requires
        part_named(after, key) == Some(value),
        forall|k: Seq<char>| k != key ==> #[trigger] part_named(after, k) == part_named(before, k),
        other != key,
    ensures
        section_of(after, key) == (if value is Null {
            None
        } else {
            Some(value)
        }),
        section_of(after, other) == section_of(before, other),
{
}

/// The sections have names of their own.
pub proof fn law_the_sections_have_names()
    ensures
        TIDAL@ == "tidal"@,
        LASTFM@ == "lastfm"@,
        PLAYBACK@ == "playback"@,
        TIDAL@ != LASTFM@,
        LASTFM@ != PLAYBACK@,
        TIDAL@ != PLAYBACK@,
{
    reveal_strlit("tidal");
    reveal_strlit("lastfm");
    reveal_strlit("playback");
    assert("tidal"@.len() == 5 && "lastfm"@.len() == 6 && "playback"@.len() == 8);
}

} // verus!
