//! Documents as the catalogue service sends them.

use crate::text;
use vstd::prelude::*;

verus! {

/// A document, or a part of one.
#[derive(Debug)]
pub enum Json {
    Null,
    Bool(bool),
    /// A whole number that is not negative.
    Unsigned(u64),
    /// A whole number below zero.
    Negative(i64),
    /// A number with a fraction, as the bits of its double; nothing here reads its value.
    Fraction(u64),
    Text(String),
    Array(Vec<Json>),
    /// Named parts, each name once.
    Object(Vec<(String, Json)>),
}

/// The part with this name; none where there is no such part.
pub open spec fn part_named(v: Seq<(String, Json)>, name: Seq<char>) -> Option<Json>
    decreases v.len(),
{
    if v.len() == 0 {
        None
    } else if v[0].0@ == name {
        Some(v[0].1)
    } else {
        part_named(v.drop_first(), name)
    }
}

/// The part of a document with this name.
pub open spec fn field(j: Json, name: Seq<char>) -> Option<Json> {
    match j {
        Json::Object(v) => part_named(v@, name),
        _ => None,
    }
}

/// The part of a part of a document.
pub open spec fn field2(j: Json, a: Seq<char>, b: Seq<char>) -> Option<Json> {
    match field(j, a) {
        Some(p) => field(p, b),
        None => None,
    }
}

/// The number that an optional part holds.
pub open spec fn number(o: Option<Json>) -> Option<u64> {
    match o {
        Some(Json::Unsigned(n)) => Some(n),
        _ => None,
    }
}

/// The text that an optional part holds.
pub open spec fn string(o: Option<Json>) -> Option<Seq<char>> {
    match o {
        Some(Json::Text(s)) => Some(s@),
        _ => None,
    }
}

/// The items that an optional part holds; none where it is no list.
pub open spec fn items(o: Option<Json>) -> Seq<Json> {
    match o {
        Some(Json::Array(v)) => v@,
        _ => Seq::empty(),
    }
}

/// An optional reference as an optional document.
pub open spec fn opt_json(o: Option<&Json>) -> Option<Json> {
    match o {
        Some(j) => Some(*j),
        None => None,
    }
}

impl Json {
    /// The part with this name.
    pub fn get(&self, name: &str) -> (r: Option<&Json>)
        ensures
            opt_json(r) == field(*self, name@),
    {
        match self {
            Json::Object(v) => {
                let mut i: usize = 0;
                assert(v@.subrange(0, v@.len() as int) =~= v@);
                while i < v.len()
                    invariant
                        i <= v@.len(),
                        *self == Json::Object(*v),
                        part_named(v@, name@) == part_named(
                            v@.subrange(i as int, v@.len() as int),
                            name@,
                        ),
                    decreases v@.len() - i,
                {
                    let ghost t = v@.subrange(i as int, v@.len() as int);
                    assert(t[0] == v@[i as int]);
                    if text::same(v[i].0.as_str(), name) {
                        return Some(&v[i].1);
                    }
                    assert(t.drop_first() =~= v@.subrange(i + 1, v@.len() as int));
                    i += 1;
                }
                None
            },
            _ => None,
        }
    }

    /// The part of a part.
    pub fn get2(&self, a: &str, b: &str) -> (r: Option<&Json>)
        ensures
            opt_json(r) == field2(*self, a@, b@),
    {
        match self.get(a) {
            Some(p) => p.get(b),
            None => None,
        }
    }
}

/// The number that an optional part holds.
pub fn as_u64(o: Option<&Json>) -> (r: Option<u64>)
    ensures
        r == number(opt_json(o)),
{
    match o {
        Some(Json::Unsigned(n)) => Some(*n),
        _ => None,
    }
}

/// The text that an optional part holds.
pub fn as_str<'a>(o: Option<&'a Json>) -> (r: Option<&'a str>)
    ensures
        text::opt_view(r) == string(opt_json(o)),
{
    match o {
        Some(Json::Text(s)) => Some(s.as_str()),
        _ => None,
    }
}

/// The first part with a name is the one that the name stands for.
pub proof fn lemma_part_at(v: Seq<(String, Json)>, i: int, name: Seq<char>)
    requires
        0 <= i < v.len(),
        v[i].0@ == name,
        forall|j: int| 0 <= j < i ==> (#[trigger] v[j]).0@ != name,
    ensures
        part_named(v, name) == Some(v[i].1),
    decreases i,
{
    if i > 0 {
        assert(v[0].0@ != name);
        let w = v.drop_first();
        assert forall|j: int| 0 <= j < i - 1 implies (#[trigger] w[j]).0@ != name by {
            assert(w[j] == v[j + 1]);
        }
        lemma_part_at(w, i - 1, name);
    }
}

/// A name that no part has stands for nothing.
pub proof fn lemma_no_part(v: Seq<(String, Json)>, name: Seq<char>)
    requires
        forall|j: int| 0 <= j < v.len() ==> (#[trigger] v[j]).0@ != name,
    ensures
        part_named(v, name) is None,
    decreases v.len(),
{
    if v.len() > 0 {
        assert(v[0].0@ != name);
        let w = v.drop_first();
        assert forall|j: int| 0 <= j < w.len() implies (#[trigger] w[j]).0@ != name by {
            assert(w[j] == v[j + 1]);
        }
        lemma_no_part(w, name);
    }
}

/// The part with a name is the first that has it, whatever stands before and behind it; there is
/// none exactly where no part has the name.
pub proof fn law_a_part_is_found_by_its_name(v: Seq<(String, Json)>, name: Seq<char>)
    ensures
        match part_named(v, name) {
            Some(j) => exists|i: int|
                0 <= i < v.len() && (#[trigger] v[i]).0@ == name && v[i].1 == j && (forall|k: int|
                    0 <= k < i ==> (#[trigger] v[k]).0@ != name),
            None => forall|i: int| 0 <= i < v.len() ==> (#[trigger] v[i]).0@ != name,
        },
    decreases v.len(),
{
    if v.len() > 0 {
        let w = v.drop_first();
        if v[0].0@ != name {
            law_a_part_is_found_by_its_name(w, name);
            match part_named(w, name) {
                Some(j) => {
                    let i = choose|i: int|
                        0 <= i < w.len() && (#[trigger] w[i]).0@ == name && w[i].1 == j && (
                        forall|k: int| 0 <= k < i ==> (#[trigger] w[k]).0@ != name);
                    assert(v[i + 1] == w[i]);
                    assert forall|k: int| 0 <= k < i + 1 implies (#[trigger] v[k]).0@ != name by {
                        if k > 0 {
                            assert(v[k] == w[k - 1]);
                        }
                    }
                },
                None => {
                    assert forall|i: int| 0 <= i < v.len() implies (#[trigger] v[i]).0@ != name by {
                        if i > 0 {
                            assert(v[i] == w[i - 1]);
                        }
                    }
                },
            }
        }
    }
}

/// Numbers, texts and lists are what they hold, and only documents with names have parts.
pub proof fn law_parts_are_what_they_hold(
    n: u64,
    s: String,
    v: Vec<Json>,
    parts: Vec<(String, Json)>,
    a: Seq<char>,
    b: Seq<char>,
)
    ensures
        number(Some(Json::Unsigned(n))) == Some(n),
        number(Some(Json::Text(s))) is None,
        number(None) is None,
        string(Some(Json::Text(s))) == Some(s@),
        string(Some(Json::Unsigned(n))) is None,
        string(None) is None,
        items(Some(Json::Array(v))) == v@,
        items(None).len() == 0,
        field(Json::Object(parts), a) == part_named(parts@, a),
        field(Json::Array(v), a) is None,
        field(Json::Null, a) is None,
        field2(Json::Object(parts), a, b) == (match part_named(parts@, a) {
            Some(p) => field(p, b),
            None => None,
        }),
{
}

} // verus!
