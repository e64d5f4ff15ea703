//! Browsing the library: the index of artists, and the directories that hang off it.

use crate::auth::{lower_text, to_ascii_lowercase};
use crate::calendar::{iso8601_ms, iso_moment};
use crate::clock::now_ms;
use crate::handlers::{first_id, first_id_of, is_missing, missing, Failure};
use crate::ids;
use crate::ids::IdKind;
use crate::json;
use crate::json::{field, field2, number, string, Json};
use crate::lists;
use crate::lists::{law_sorting_keeps_all_and_their_order, lemma_sorted_by, sorted_by};
use crate::models::album::AlbumId3;
use crate::models::browse::{entry_of, Artists, Directory, DirectoryChild, IndexArtist, IndexGroup,
    Indexes};
use crate::models::song::Child;
use crate::number::lower;
use crate::order::{text_at_most, Then};
use crate::params::QueryParams;
use crate::sorting::{articles, IGNORED_ARTICLES};
use crate::text;
use crate::text::{begins, decimal, lowercase, opt_text, texts, unsigned};
use crate::tidal::Error;
use vstd::prelude::*;

verus! {

/// A name in lower case without the first of these articles that it has.
pub open spec fn key_of(lower: Seq<char>, list: Seq<Seq<char>>) -> Seq<char>
    decreases list.len(),
{
    if list.len() == 0 {
        lower
    } else {
        let a = lower_text(list[0]);
        if lower == a {
            Seq::empty()
        } else if begins(lower, a + " "@) {
            lower.subrange(a.len() as int + 1, lower.len() as int)
        } else {
            key_of(lower, list.drop_first())
        }
    }
}

/// A name is indexed without the first of these articles that it begins with, together with the
/// space behind it; a name that is an article is indexed by nothing, and one without by itself.
pub proof fn law_a_leading_article_does_not_count(
    lower: Seq<char>,
    list: Seq<Seq<char>>,
    k: int,
    rest: Seq<char>,
)
    requires
        0 <= k < list.len(),
        forall|i: int|
            0 <= i < k ==> lower != lower_text(#[trigger] list[i]) && !begins(
                lower,
                lower_text(list[i]) + " "@,
            ),
    ensures
        lower == lower_text(list[k]) + " "@ + rest ==> key_of(lower, list) == rest,
        lower == lower_text(list[k]) ==> key_of(lower, list) == Seq::<char>::empty(),
        k + 1 == list.len() && lower != lower_text(list[k]) && !begins(
            lower,
            lower_text(list[k]) + " "@,
        ) ==> key_of(lower, list) == lower,
    decreases k,
{
    reveal_strlit(" ");
    if k == 0 {
        let a = lower_text(list[0]);
        if lower == a + " "@ + rest {
            text::law_a_prefix_leaves_the_rest(a + " "@, rest, lower);
            assert(lower.len() > a.len());
            assert(lower.subrange(a.len() as int + 1, lower.len() as int) =~= rest);
        }
        if list.len() == 1 {
            assert(key_of(lower, list.drop_first()) == lower);
        }
    } else {
        let next = list.drop_first();
        assert(lower != lower_text(list[0]) && !begins(lower, lower_text(list[0]) + " "@));
        assert forall|i: int| 0 <= i < k - 1 implies lower != lower_text(#[trigger] next[i])
            && !begins(lower, lower_text(next[i]) + " "@) by {
            assert(next[i] == list[i + 1]);
        }
        assert(next[k - 1] == list[k]);
        law_a_leading_article_does_not_count(lower, next, k - 1, rest);
    }
}

/// What a name is indexed by, where it is `lower` in lower case.
pub fn index_key(lower: &str) -> (r: String)
    ensures
        r@ == key_of(lower@, articles()),
{
    let list = text::split(IGNORED_ARTICLES, ' ');
    let ghost all = articles();
    let mut i: usize = 0;
    assert(all.subrange(0, all.len() as int) =~= all);
    proof {
        reveal_strlit(" ");
    }
    while i < list.len()
        invariant
            i <= list@.len(),
            all == articles(),
            texts(list@) == all,
            " "@.len() == 1,
            key_of(lower@, all) == key_of(lower@, all.subrange(i as int, all.len() as int)),
        decreases list@.len() - i,
    {
        let ghost rest = all.subrange(i as int, all.len() as int);
        assert(rest[0] == list@[i as int]@);
        assert(rest.drop_first() =~= all.subrange(i + 1, all.len() as int));
        let a = to_ascii_lowercase(list[i].as_str());
        if text::same(lower, a.as_str()) {
            return String::new();
        }
        if let Some(tail) = text::strip_prefix(lower, text::join2(a.as_str(), " ").as_str()) {
            return tail.to_owned();
        }
        i += 1;
    }
    lower.to_owned()
}

/// What a name is indexed by: the name in lower case, without a leading article.
pub open spec fn index_key_of(name: Seq<char>) -> Seq<char> {
    key_of(lowercase(name), articles())
}

/// What a name is indexed by.
pub fn sort_key(name: &str) -> (r: String)
    ensures
        r@ == index_key_of(name@),
{
    index_key(text::to_lowercase(name).as_str())
}

/// The capital letter that a key begins with, or the sign for all that begin with none.
pub open spec fn letter_of_key(key: Seq<char>) -> char {
    if key.len() > 0 && 'a' <= key[0] <= 'z' {
        (key[0] as int - 32) as char
    } else if key.len() > 0 && 'A' <= key[0] <= 'Z' {
        key[0]
    } else {
        '#'
    }
}

/// The letter that a name is found under.
pub open spec fn letter_of(name: Seq<char>) -> char {
    letter_of_key(index_key_of(name))
}

/// A name is found under the letter that its key begins with, in the large form, and under the
/// sign where that is no letter from A to Z.
pub proof fn law_a_name_is_found_under_its_letter(key: Seq<char>)
    ensures
        key.len() > 0 && 'a' <= key[0] <= 'z' ==> 'A' <= letter_of_key(key) <= 'Z' && lower(
            letter_of_key(key),
        ) == key[0],
        key.len() > 0 && 'A' <= key[0] <= 'Z' ==> letter_of_key(key) == key[0],
        key.len() == 0 || !('a' <= key[0] <= 'z' || 'A' <= key[0] <= 'Z') ==> letter_of_key(key)
            == '#',
{
}

/// The letter of a key.
fn key_letter(key: &str) -> (r: char)
    ensures
        r == letter_of_key(key@),
{
    if key.unicode_len() == 0 {
        return '#';
    }
    let c = key.get_char(0);
    if 'a' <= c && c <= 'z' {
        (c as u8 - 32) as char
    } else if 'A' <= c && c <= 'Z' {
        c
    } else {
        '#'
    }
}

/// The letter that a name is found under.
pub fn index_letter(name: &str) -> (r: String)
    ensures
        r@ == seq![letter_of(name@)],
{
    let key = sort_key(name);
    let mut out = String::new();
    out.push(key_letter(key.as_str()));
    assert(out@ =~= seq![letter_of(name@)]);
    out
}

/// The letters of the index, in order.
pub open spec fn letter_at(k: int) -> char {
    if k == 0 {
        '#'
    } else {
        ('A' as int + k - 1) as char
    }
}

/// The artists that are found under a letter, in the order they have.
pub open spec fn under(v: Seq<IndexArtist>, letter: char) -> Seq<IndexArtist> {
    v.filter(|a: IndexArtist| letter_of(a.name@) == letter)
}

/// The groups of the first `k` letters. A letter without artists has none.
pub open spec fn grouped(v: Seq<IndexArtist>, k: int) -> Seq<(Seq<char>, Seq<IndexArtist>)>
    decreases k,
{
    if k <= 0 {
        Seq::empty()
    } else {
        let list = under(v, letter_at(k - 1));
        if list.len() > 0 {
            grouped(v, k - 1).push((seq![letter_at(k - 1)], list))
        } else {
            grouped(v, k - 1)
        }
    }
}

/// Groups as values.
pub open spec fn groups_view(v: Seq<IndexGroup>) -> Seq<(Seq<char>, Seq<IndexArtist>)> {
    v.map_values(|g: IndexGroup| (g.name@, g.artist@))
}

/// Groups the artists by the letters that they are found under.
pub fn index_groups(artists: Vec<IndexArtist>) -> (r: Vec<IndexGroup>)
    ensures
        groups_view(r@) == grouped(artists@, 27),
{
    let ghost all = artists@;
    let mut letters: Vec<char> = Vec::new();
    let mut slots: Vec<Option<IndexArtist>> = Vec::new();
    for a in it: artists
        invariant
            it.seq() == all,
            letters@.len() == it.index(),
            slots@.len() == it.index(),
            forall|i: int| 0 <= i < letters@.len() ==> #[trigger] letters@[i] == letter_of(
                all[i].name@,
            ),
            forall|i: int| 0 <= i < slots@.len() ==> #[trigger] slots@[i] == Some(all[i]),
    {
        let key = sort_key(a.name.as_str());
        letters.push(key_letter(key.as_str()));
        slots.push(Some(a));
    }
    let mut out: Vec<IndexGroup> = Vec::new();
    let mut k: u8 = 0;
    assert(groups_view(out@) =~= Seq::empty());
    while k < 27
        invariant
            k <= 27,
            letters@.len() == all.len(),
            slots@.len() == all.len(),
            forall|i: int| 0 <= i < letters@.len() ==> #[trigger] letters@[i] == letter_of(
                all[i].name@,
            ),
            forall|i: int|
                0 <= i < slots@.len() && (forall|m: int|
                    0 <= m < k ==> letters@[i] != #[trigger] letter_at(m)) ==> #[trigger] slots@[i]
                    == Some(all[i]),
            groups_view(out@) == grouped(all, k as int),
        decreases 27 - k,
    {
        let letter: char = if k == 0 {
            '#'
        } else {
            (64u8 + k) as char
        };
        assert(letter == letter_at(k as int));
        assert forall|m: int| 0 <= m < k implies letter != #[trigger] letter_at(m) by {}
        let mut list: Vec<IndexArtist> = Vec::new();
        let mut i: usize = 0;
        let ghost test = |a: IndexArtist| letter_of(a.name@) == letter;
        proof {
            reveal(Seq::filter);
            assert(all.take(0) =~= Seq::empty());
        }
        while i < letters.len()
            invariant
                i <= letters@.len(),
                k < 27,
                letter == letter_at(k as int),
                forall|m: int| 0 <= m < k ==> letter != #[trigger] letter_at(m),
                letters@.len() == all.len(),
                slots@.len() == all.len(),
                test == (|a: IndexArtist| letter_of(a.name@) == letter),
                forall|j: int| 0 <= j < letters@.len() ==> #[trigger] letters@[j] == letter_of(
                    all[j].name@,
                ),
                forall|j: int|
                    0 <= j < slots@.len() && (forall|m: int|
                        0 <= m < k ==> letters@[j] != #[trigger] letter_at(m)) && (j >= i
                        || letters@[j] != letter) ==> #[trigger] slots@[j] == Some(all[j]),
                list@ == all.take(i as int).filter(test),
            decreases letters@.len() - i,
        {
            proof {
                reveal(Seq::filter);
                assert(all.take(i + 1).drop_last() =~= all.take(i as int));
                assert(all.take(i + 1).last() == all[i as int]);
            }
            if letters[i] == letter {
                let mut slot: Option<IndexArtist> = None;
                assert(slots@[i as int] == Some(all[i as int]));
                slots.set_and_swap(i, &mut slot);
                match slot {
                    Some(a) => list.push(a),
                    None => {
                        assert(false);
                    },
                }
            }
            i += 1;
        }
        assert(all.take(all.len() as int) =~= all);
        assert(list@ == under(all, letter));
        let ghost before = groups_view(out@);
        if list.len() > 0 {
            let mut name = String::new();
            name.push(letter);
            assert(name@ =~= seq![letter]);
            out.push(IndexGroup { name, artist: list });
            assert(groups_view(out@) =~= before.push((seq![letter], list@)));
        }
        proof {
            assert forall|j: int|
                0 <= j < slots@.len() && (forall|m: int|
                    0 <= m < k + 1 ==> letters@[j] != #[trigger] letter_at(
                        m,
                    )) implies #[trigger] slots@[j] == Some(all[j]) by {
                assert(letters@[j] != letter_at(k as int));
            }
        }
        k += 1;
    }
    out
}

proof fn lemma_letters(name: Seq<char>) -> (k: int)
    ensures
        0 <= k < 27,
        letter_of(name) == letter_at(k),
{
    let c = letter_of(name);
    if c == '#' {
        0
    } else {
        c as int - 'A' as int + 1
    }
}

proof fn lemma_in_groups(v: Seq<IndexArtist>, i: int, k: int, n: int)
    requires
        0 <= i < v.len(),
        0 <= k < n <= 27,
        letter_of(v[i].name@) == letter_at(k),
    ensures
        exists|g: int|
            0 <= g < grouped(v, n).len() && (#[trigger] grouped(v, n)[g]).0 == seq![letter_at(k)]
                && grouped(v, n)[g].1.contains(v[i]),
    decreases n,
{
    let list = under(v, letter_at(n - 1));
    if k == n - 1 {
        v.lemma_filter_contains(|a: IndexArtist| letter_of(a.name@) == letter_at(k), i);
        assert(list.contains(v[i]));
        assert(list.len() > 0);
        let g = grouped(v, n).len() - 1;
        assert(grouped(v, n)[g].0 == seq![letter_at(k)]);
    } else {
        lemma_in_groups(v, i, k, n - 1);
        let g = choose|g: int|
            0 <= g < grouped(v, n - 1).len() && (#[trigger] grouped(v, n - 1)[g]).0
                == seq![letter_at(k)] && grouped(v, n - 1)[g].1.contains(v[i]);
        assert(grouped(v, n)[g] == grouped(v, n - 1)[g]);
    }
}

/// Every artist is found in the index, under the letter of the name.
pub proof fn law_every_artist_is_indexed(v: Seq<IndexArtist>, i: int)
    requires
        0 <= i < v.len(),
    ensures
        exists|g: int|
            0 <= g < grouped(v, 27).len() && (#[trigger] grouped(v, 27)[g]).0 == seq![
                letter_of(v[i].name@),
            ] && grouped(v, 27)[g].1.contains(v[i]),
{
    let k = lemma_letters(v[i].name@);
    lemma_in_groups(v, i, k, 27);
}

proof fn lemma_groups(v: Seq<IndexArtist>, n: int, g: int)
    requires
        0 <= n <= 27,
        0 <= g < grouped(v, n).len(),
    ensures
        ({
            let (name, list) = grouped(v, n)[g];
            &&& name.len() == 1
            &&& exists|k: int| 0 <= k < n && name[0] == #[trigger] letter_at(k)
            &&& list == v.filter(|a: IndexArtist| letter_of(a.name@) == name[0])
            &&& list.len() > 0
        }),
        forall|h: int|
            0 <= h < g ==> (#[trigger] grouped(v, n)[h]).0.len() == 1 && grouped(v, n)[h].0[0]
                < grouped(v, n)[g].0[0],
    decreases n,
{
    let list = under(v, letter_at(n - 1));
    if n > 0 {
        let rest = grouped(v, n - 1);
        if list.len() > 0 && g == rest.len() {
            assert(grouped(v, n)[g].0[0] == letter_at(n - 1));
            assert forall|h: int| 0 <= h < g implies (#[trigger] grouped(v, n)[h]).0.len() == 1
                && grouped(v, n)[h].0[0] < grouped(v, n)[g].0[0] by {
                lemma_groups(v, n - 1, h);
                let k = choose|k: int|
                    0 <= k < n - 1 && rest[h].0[0] == #[trigger] letter_at(k);
                assert(grouped(v, n)[h] == rest[h]);
            }
        } else {
            lemma_groups(v, n - 1, g);
            let k = choose|k: int| 0 <= k < n - 1 && rest[g].0[0] == #[trigger] letter_at(k);
            assert(0 <= k < n);
            assert forall|h: int| 0 <= h < g implies (#[trigger] grouped(v, n)[h]).0.len() == 1
                && grouped(v, n)[h].0[0] < grouped(v, n)[g].0[0] by {
                assert(grouped(v, n)[h] == rest[h]);
            }
        }
    }
}

/// The groups of the index come in the order of their letters, the sign first. Each holds the
/// artists that are found under its letter, all of them and in the order they had, and at least
/// one.
pub proof fn law_a_group_holds_the_artists_of_its_letter(v: Seq<IndexArtist>, g: int, h: int)
    requires
        0 <= g < grouped(v, 27).len(),
        0 <= h < g,
    ensures
        ({
            let (name, list) = grouped(v, 27)[g];
            &&& name.len() == 1
            &&& list == v.filter(|a: IndexArtist| letter_of(a.name@) == name[0])
            &&& list.len() > 0
            &&& grouped(v, 27)[h].0.len() == 1
            &&& grouped(v, 27)[h].0[0] < name[0]
        }),
{
    lemma_groups(v, 27, g);
}

/// The time that an artist was made a favourite, where it can be read.
#[verifier::opaque]
pub open spec fn made_at(a: IndexArtist) -> Option<int> {
    match a.starred {
        Some(s) => iso_moment(s@),
        None => None,
    }
}

/// The newest time that one of these was made a favourite.
pub open spec fn newest(v: Seq<IndexArtist>) -> Option<int>
    decreases v.len(),
{
    if v.len() == 0 {
        None
    } else {
        let before = newest(v.drop_last());
        let here = made_at(v.last());
        match (before, here) {
            (Some(a), Some(b)) => if b >= a {
                Some(b)
            } else {
                Some(a)
            },
            (Some(a), None) => Some(a),
            (None, h) => h,
        }
    }
}

/// The newest time is that of some artist, and none has a later one; there is none exactly where
/// no artist has a time.
#[verifier::rlimit(40)]
pub proof fn law_the_newest_time_is_the_greatest(v: Seq<IndexArtist>)
    ensures
        match newest(v) {
            Some(t) => (exists|i: int| 0 <= i < v.len() && made_at(#[trigger] v[i]) == Some(t)) && (
            forall|i: int|
                0 <= i < v.len() && made_at(#[trigger] v[i]) is Some ==> made_at(v[i])->0 <= t),
            None => forall|i: int| 0 <= i < v.len() ==> made_at(#[trigger] v[i]) is None,
        },
    decreases v.len(),
{
    if v.len() > 0 {
        let w = v.drop_last();
        law_the_newest_time_is_the_greatest(w);
        let last = v[v.len() - 1];
        assert(v.last() == last);
        if newest(w) is Some {
            let i = choose|i: int| 0 <= i < w.len() && made_at(#[trigger] w[i]) == newest(w);
            assert(v[i] == w[i]);
        }
        assert forall|i: int| 0 <= i < v.len() && made_at(#[trigger] v[i]) is Some implies newest(v)
            is Some && made_at(v[i])->0 <= newest(v)->0 by {
            if i < w.len() {
                assert(w[i] == v[i]);
            }
        }
    }
}

/// The time of an artist is read from what it was made a favourite at.
pub proof fn law_an_artist_has_its_own_time(a: IndexArtist)
    ensures
        a.starred is Some ==> made_at(a) == iso_moment(a.starred->0@),
        a.starred is None ==> made_at(a) is None,
{
    reveal(made_at);
}

/// When the index last changed: the newest time that an artist was made a favourite, or now where
/// none has a time.
pub fn last_modified(artists: &Vec<IndexArtist>) -> (r: i64)
    ensures
        match newest(artists@) {
            Some(t) => r == t,
            None => r >= 0,
        },
        forall|i: int|
            0 <= i < artists@.len() && made_at(#[trigger] artists@[i]) is Some ==> made_at(
                artists@[i],
            )->0 <= r,
{
    proof {
        law_the_newest_time_is_the_greatest(artists@);
    }
    let mut best: Option<i64> = None;
    let mut i: usize = 0;
    assert(artists@.take(0) =~= Seq::empty());
    while i < artists.len()
        invariant
            i <= artists@.len(),
            text::opt_int(best) == newest(artists@.take(i as int)),
        decreases artists@.len() - i,
    {
        assert(artists@.take(i + 1).drop_last() =~= artists@.take(i as int));
        let here: Option<i64> = match &artists[i].starred {
            Some(s) => iso8601_ms(s.as_str()),
            None => None,
        };
        proof {
            law_an_artist_has_its_own_time(artists@[i as int]);
            assert(artists@.take(i + 1).last() == artists@[i as int]);
        }
        best = match (best, here) {
            (Some(a), Some(b)) => if b >= a {
                Some(b)
            } else {
                Some(a)
            },
            (Some(a), None) => Some(a),
            (None, h) => h,
        };
        i += 1;
    }
    assert(artists@.take(artists@.len() as int) =~= artists@);
    match best {
        Some(t) => t,
        None => now_ms(),
    }
}

/// The artist in an entry of the favourites, with the address of the picture.
pub open spec fn is_index_artist(a: IndexArtist, entry: Json, cover: Option<String>) -> bool {
    &&& number(field2(entry, "item"@, "id"@)) matches Some(n) && a.id@ == ids::encoded(
        IdKind::Artist,
        n as nat,
    )
    &&& string(field2(entry, "item"@, "name"@)) == Some(a.name@)
    &&& a.cover_art == cover
    &&& a.album_count == (match number(field2(entry, "item"@, "albumCount"@)) {
        Some(n) => Some((n as int % 0x1_0000_0000) as u32),
        None => None,
    })
    &&& opt_text(a.starred) == string(field(entry, "created"@))
}

/// Reads an entry of the favourites; one without a number or a name is none.
pub fn index_artist(entry: &Json, cover: Option<String>) -> (r: Option<IndexArtist>)
    ensures
        match r {
            Some(a) => is_index_artist(a, *entry, cover),
            None => number(field2(*entry, "item"@, "id"@)) is None || string(
                field2(*entry, "item"@, "name"@),
            ) is None,
        },
        r is Some ==> ({
            let a = r->0;
            let count = number(field2(*entry, "item"@, "albumCount"@));
            &&& number(field2(*entry, "item"@, "id"@)) is Some
            &&& a.id@ == "ar"@ + decimal(number(field2(*entry, "item"@, "id"@))->0 as nat)
            &&& Some(a.name@) == string(field2(*entry, "item"@, "name"@))
            &&& a.cover_art == cover
            &&& count is Some && count->0 <= u32::MAX ==> a.album_count == Some(count->0 as u32)
            &&& count is None ==> a.album_count is None
            &&& opt_text(a.starred) == string(field(*entry, "created"@))
        }),
{
    let id: u64 = match json::as_u64(entry.get2("item", "id")) {
        Some(n) => n,
        None => {
            return None;
        },
    };
    let name = match json::as_str(entry.get2("item", "name")) {
        Some(s) => s.to_owned(),
        None => {
            return None;
        },
    };
    let album_count: Option<u32> = match json::as_u64(entry.get2("item", "albumCount")) {
        Some(n) => Some((n % 0x1_0000_0000) as u32),
        None => None,
    };
    let starred = match json::as_str(entry.get("created")) {
        Some(s) => Some(s.to_owned()),
        None => None,
    };
    Some(IndexArtist { id: ids::encode_artist(id), name, cover_art: cover, album_count, starred })
}

/// The artist is listed no later than the other: by what the names are indexed by, and then by
/// the names.
pub open spec fn listed_at_most(a: IndexArtist, b: IndexArtist) -> bool {
    let x = index_key_of(a.name@);
    let y = index_key_of(b.name@);
    text_at_most(x, y) && (text_at_most(y, x) ==> text_at_most(
        lowercase(a.name@),
        lowercase(b.name@),
    ))
}

/// Sorts the artists as they are listed.
pub fn sort_artists(artists: Vec<IndexArtist>) -> (r: Vec<IndexArtist>)
    ensures
        sorted_by(r@, artists@, |a: IndexArtist, b: IndexArtist| listed_at_most(a, b)),
        r@.len() == artists@.len(),
        forall|a: IndexArtist| r@.contains(a) <==> artists@.contains(a),
        forall|i: int, j: int|
            0 <= i < j < r@.len() ==> text_at_most(
                index_key_of((#[trigger] r@[i]).name@),
                index_key_of((#[trigger] r@[j]).name@),
            ),
{
    let ghost list = artists@;
    let mut keys: Vec<Then<Vec<char>, Vec<char>>> = Vec::new();
    let mut k: usize = 0;
    while k < artists.len()
        invariant
            k <= artists@.len(),
            keys@.len() == k,
            artists@ == list,
            forall|j: int|
                0 <= j < k ==> (#[trigger] keys@[j]).0@ == index_key_of(list[j].name@)
                    && keys@[j].1@ == lowercase(list[j].name@),
        decreases artists@.len() - k,
    {
        let key = sort_key(artists[k].name.as_str());
        let lower = text::to_lowercase(artists[k].name.as_str());
        keys.push(Then(text::chars_of(key.as_str()), text::chars_of(lower.as_str())));
        k += 1;
    }
    let sorted = lists::sort_by_keys(artists, &keys);
    proof {
        lemma_sorted_by(
            sorted@,
            list,
            keys@,
            |a: IndexArtist, b: IndexArtist| listed_at_most(a, b),
        );
        law_sorting_keeps_all_and_their_order(
            sorted@,
            list,
            |a: IndexArtist, b: IndexArtist| listed_at_most(a, b),
        );
    }
    sorted
}

/// Whether a request is for the one folder that there is.
pub fn index_core(q: &QueryParams) -> (r: bool)
    ensures
        r == (q.music_folder_id is None || q.music_folder_id == Some(1u32)),
{
    match q.music_folder_id {
        Some(n) => n == 1,
        None => true,
    }
}

/// The index of artists, or none of another folder. It fails where the favourites could not be
/// had.
pub open spec fn is_index(
    groups: Seq<(Seq<char>, Seq<IndexArtist>)>,
    last_modified: int,
    folder: bool,
    artists: Option<Vec<IndexArtist>>,
) -> bool {
    if folder {
        artists is Some && ({
            let v = artists->0@;
            &&& exists|sorted: Seq<IndexArtist>| #[trigger]
                is_listing(sorted, v) && groups == grouped(sorted, 27) && (newest(sorted) is Some
                    ==> last_modified == newest(sorted)->0)
        })
    } else {
        groups.len() == 0 && last_modified == 0
    }
}

/// The artists sorted as they are listed.
pub open spec fn is_listing(sorted: Seq<IndexArtist>, v: Seq<IndexArtist>) -> bool {
    sorted_by(sorted, v, |a: IndexArtist, b: IndexArtist| listed_at_most(a, b))
}

/// The index, with when it last changed.
pub fn get_indexes(folder: bool, artists: Option<Vec<IndexArtist>>) -> (r: Result<Indexes, Failure>)
    ensures
        match r {
            Ok(i) => {
                &&& i.ignored_articles@ == IGNORED_ARTICLES@
                &&& is_index(groups_view(i.index@), i.last_modified as int, folder, artists)
                &&& i.shortcut@.len() == 0
                &&& i.child@.len() == 0
            },
            Err(f) => folder && artists is None && f.is(0, "Artist index unavailable"@),
        },
        r is Err <==> folder && artists is None,
        r is Err ==> r->Err_0.code == 0 && r->Err_0.message@ == "Artist index unavailable"@,
        !folder ==> r is Ok && r->Ok_0.index@.len() == 0 && r->Ok_0.last_modified == 0,
{
    if !folder {
        let index: Vec<IndexGroup> = Vec::new();
        assert(groups_view(index@) =~= Seq::empty());
        return Ok(
            Indexes {
                ignored_articles: IGNORED_ARTICLES,
                index,
                shortcut: Vec::new(),
                child: Vec::new(),
                last_modified: 0,
            },
        );
    }
    match artists {
        Some(v) => {
            let sorted = sort_artists(v);
            assert(is_listing(sorted@, v@));
            let time: i64 = last_modified(&sorted);
            let index = index_groups(sorted);
            Ok(
                Indexes {
                    ignored_articles: IGNORED_ARTICLES,
                    index,
                    shortcut: Vec::new(),
                    child: Vec::new(),
                    last_modified: time,
                },
            )
        },
        None => Err(Failure { code: 0, message: "Artist index unavailable" }),
    }
}

/// An artist without the time of becoming a favourite.
pub open spec fn untimed(a: IndexArtist) -> IndexArtist {
    IndexArtist { starred: None, ..a }
}

/// Takes the times out of a list of artists.
fn untime(v: Vec<IndexArtist>) -> (r: Vec<IndexArtist>)
    ensures
        r@ == v@.map_values(|a: IndexArtist| untimed(a)),
{
    let ghost all = v@;
    let mut out: Vec<IndexArtist> = Vec::new();
    for a in it: v
        invariant
            it.seq() == all,
            out@ =~= all.take(it.index() as int).map_values(|a: IndexArtist| untimed(a)),
    {
        assert(all.take(it.index() + 1) =~= all.take(it.index() as int).push(a));
        let mut b = a;
        b.starred = None;
        out.push(b);
    }
    assert(all.take(all.len() as int) =~= all);
    out
}

/// A group without times.
pub open spec fn untimed_group(g: (Seq<char>, Seq<IndexArtist>)) -> (Seq<char>, Seq<IndexArtist>) {
    (g.0, g.1.map_values(|a: IndexArtist| untimed(a)))
}

/// The index in the newer shape, which has no times.
pub fn get_artists(indexes: Indexes) -> (r: Artists)
    ensures
        r.ignored_articles@ == indexes.ignored_articles@,
        groups_view(r.index@) == groups_view(indexes.index@).map_values(
            |g: (Seq<char>, Seq<IndexArtist>)| untimed_group(g),
        ),
        r.index@.len() == indexes.index@.len(),
        forall|g: int|
            0 <= g < r.index@.len() ==> (#[trigger] r.index@[g]).name@ == indexes.index@[g].name@
                && r.index@[g].artist@.len() == indexes.index@[g].artist@.len(),
        forall|g: int, i: int|
            0 <= g < r.index@.len() && 0 <= i < r.index@[g].artist@.len() ==> {
                let a = #[trigger] r.index@[g].artist@[i];
                let b = indexes.index@[g].artist@[i];
                &&& a.id == b.id
                &&& a.name == b.name
                &&& a.cover_art == b.cover_art
                &&& a.album_count == b.album_count
                &&& a.starred is None
            },
{
    let ghost all = indexes.index@;
    let mut out: Vec<IndexGroup> = Vec::new();
    for g in it: indexes.index
        invariant
            it.seq() == all,
            groups_view(out@) =~= groups_view(all.take(it.index() as int)).map_values(
                |g: (Seq<char>, Seq<IndexArtist>)| untimed_group(g),
            ),
    {
        assert(all.take(it.index() + 1) =~= all.take(it.index() as int).push(g));
        let ghost before = groups_view(out@);
        let name = g.name;
        let artist = untime(g.artist);
        out.push(IndexGroup { name, artist });
        assert(groups_view(out@) =~= before.push(untimed_group((g.name@, g.artist@))));
    }
    assert(all.take(all.len() as int) =~= all);
    proof {
        let made = groups_view(out@);
        assert forall|g: int| 0 <= g < out@.len() implies (#[trigger] out@[g]).name@ == all[g].name@
            && out@[g].artist@ == all[g].artist@.map_values(|a: IndexArtist| untimed(a)) by {
            assert(made[g] == (out@[g].name@, out@[g].artist@));
            assert(groups_view(all)[g] == (all[g].name@, all[g].artist@));
            assert(made[g] == untimed_group(groups_view(all)[g]));
        }
    }
    Artists { ignored_articles: indexes.ignored_articles, index: out }
}

/// A directory that a request is for.
#[derive(Debug, Clone, Copy, PartialEq, Eq, Structural)]
pub enum DirectoryRef {
    /// The folder with all artists.
    Root,
    Artist(u64),
    Album(u64),
    /// The artist with this number, or the album where there is no such artist.
    ArtistOrAlbum(u64),
}

/// The directory that an identifier names: an artist, an album, the folder, or by a bare number
/// an artist or an album. Songs and playlists are none.
pub open spec fn directory_ref(id: Seq<char>) -> Option<DirectoryRef> {
    match ids::parsed(id) {
        Some((IdKind::Artist, n)) => Some(DirectoryRef::Artist(n as u64)),
        Some((IdKind::Album, n)) => Some(DirectoryRef::Album(n as u64)),
        Some(_) => None,
        None => if id == "1"@ {
            Some(DirectoryRef::Root)
        } else {
            match unsigned(id, u64::MAX as nat) {
                Some(n) => Some(DirectoryRef::ArtistOrAlbum(n as u64)),
                None => None,
            }
        },
    }
}

/// Artists and albums are directories by their identifiers, songs and playlists are not; a bare
/// number is that of an artist or an album, but for the one of the folder.
pub proof fn law_directories_are_named(n: u64)
    ensures
        directory_ref("ar"@ + decimal(n as nat)) == Some(DirectoryRef::Artist(n)),
        directory_ref("al"@ + decimal(n as nat)) == Some(DirectoryRef::Album(n)),
        directory_ref("t"@ + decimal(n as nat)) is None,
        directory_ref("pl"@ + decimal(n as nat)) is None,
        directory_ref(decimal(n as nat)) == Some(
            if n == 1 {
                DirectoryRef::Root
            } else {
                DirectoryRef::ArtistOrAlbum(n)
            },
        ),
{
    ids::law_identifiers_are_letters_and_a_number(n);
    ids::law_parse_undoes_encode(IdKind::Artist, n);
    ids::law_parse_undoes_encode(IdKind::Album, n);
    ids::law_parse_undoes_encode(IdKind::Track, n);
    ids::law_parse_undoes_encode(IdKind::Playlist, n);
    text::law_decimal_reads_back(n as nat, u64::MAX as nat);
    reveal_strlit("1");
    text::law_decimal_is_in_base_ten(n as nat);
    text::lemma_decimal(n as nat);
    if n == 1 {
        assert(decimal(1) =~= "1"@);
    } else if decimal(n as nat) == "1"@ {
        assert("1"@ =~= seq!['1']);
        assert(seq!['1'].drop_last() =~= Seq::empty());
        reveal_with_fuel(text::digits_value, 2);
        assert(text::digits_value("1"@) == 1);
    }
}

/// Decides which directory a request is for.
pub fn get_music_directory(q: &QueryParams) -> (r: Result<DirectoryRef, Failure>)
    ensures
        match first_id_of(*q) {
            Some(id) => match directory_ref(id) {
                Some(d) => r == Ok::<DirectoryRef, Failure>(d),
                None => r matches Err(f) && f.is(70, "Directory not found"@),
            },
            None => r matches Err(f) && is_missing(f),
        },
{
    let id = match first_id(q) {
        Some(s) => s,
        None => {
            return Err(missing());
        },
    };
    match ids::parse(id) {
        Some((IdKind::Artist, n)) => Ok(DirectoryRef::Artist(n)),
        Some((IdKind::Album, n)) => Ok(DirectoryRef::Album(n)),
        Some(_) => Err(Failure { code: 70, message: "Directory not found" }),
        None => if text::same(id, "1") {
            Ok(DirectoryRef::Root)
        } else {
            match text::parse_u64(id) {
                Some(n) => Ok(DirectoryRef::ArtistOrAlbum(n)),
                None => Err(Failure { code: 70, message: "Directory not found" }),
            }
        },
    }
}

/// What is answered where a directory could not be had.
pub fn directory_error(e: &Error) -> (r: Failure)
    ensures
        if e matches Error::Tidal(404, _) {
            r.is(70, "Directory not found"@)
        } else {
            r.is(0, "Directory unavailable"@)
        },
{
    match e {
        Error::Tidal(404, _) => Failure { code: 70, message: "Directory not found" },
        _ => Failure { code: 0, message: "Directory unavailable" },
    }
}

/// A directory in a directory, with these names and nothing else.
pub open spec fn plain_entry(
    id: String,
    parent: String,
    title: String,
    album: String,
    artist: String,
    cover_art: Option<String>,
) -> DirectoryChild {
    DirectoryChild {
        id,
        parent,
        is_dir: true,
        is_video: false,
        title,
        album,
        artist,
        track: None,
        year: None,
        genre: None,
        genres: None,
        explicit_status: None,
        cover_art,
        duration: None,
        disc_number: None,
        album_id: None,
        artist_id: None,
        kind: None,
        content_type: None,
        suffix: None,
        size: None,
        path: None,
        created: None,
        song_count: None,
        replay_gain: None,
    }
}

/// A directory in a directory.
pub fn dir_entry(
    id: String,
    parent: String,
    title: String,
    album: String,
    artist: String,
    cover_art: Option<String>,
) -> (r: DirectoryChild)
    ensures
        r == plain_entry(id, parent, title, album, artist, cover_art),
        r.id == id,
        r.parent == parent,
        r.is_dir,
        !r.is_video,
        r.title == title,
        r.album == album,
        r.artist == artist,
        r.cover_art == cover_art,
        r.track is None,
        r.year is None,
        r.duration is None,
        r.size is None,
        r.song_count is None,
{
    DirectoryChild {
        id,
        parent,
        is_dir: true,
        is_video: false,
        title,
        album,
        artist,
        track: None,
        year: None,
        genre: None,
        genres: None,
        explicit_status: None,
        cover_art,
        duration: None,
        disc_number: None,
        album_id: None,
        artist_id: None,
        kind: None,
        content_type: None,
        suffix: None,
        size: None,
        path: None,
        created: None,
        song_count: None,
        replay_gain: None,
    }
}

/// The directory of an artist in the folder.
pub open spec fn is_artist_entry(e: DirectoryChild, a: IndexArtist) -> bool {
    &&& e == plain_entry(e.id, e.parent, e.title, e.album, e.artist, a.cover_art)
    &&& e.id == a.id
    &&& e.parent@ == "1"@
    &&& e.title == a.name
    &&& e.album == a.name
    &&& e.artist == a.name
}

/// The folder with all artists.
pub fn root_directory(artists: Vec<IndexArtist>) -> (r: Directory)
    ensures
        r.id@ == "1"@,
        r.name@ == "Tidal"@,
        r.child@.len() == artists@.len(),
        forall|i: int|
            0 <= i < artists@.len() ==> is_artist_entry(#[trigger] r.child@[i], artists@[i]),
        forall|i: int|
            0 <= i < artists@.len() ==> {
                let e = #[trigger] r.child@[i];
                let a = artists@[i];
                &&& e.id@ == a.id@
                &&& e.parent@ == "1"@
                &&& e.is_dir
                &&& e.title@ == a.name@
                &&& e.album@ == a.name@
                &&& e.artist@ == a.name@
                &&& e.cover_art == a.cover_art
                &&& e.year is None
                &&& e.song_count is None
            },
{
    let ghost all = artists@;
    let mut child: Vec<DirectoryChild> = Vec::new();
    for a in it: artists
        invariant
            it.seq() == all,
            child@.len() == it.index(),
            forall|i: int|
                0 <= i < child@.len() ==> is_artist_entry(#[trigger] child@[i], all[i]),
    {
        let e = dir_entry(
            a.id,
            "1".to_owned(),
            a.name.clone(),
            a.name.clone(),
            a.name,
            a.cover_art,
        );
        child.push(e);
    }
    Directory { id: "1".to_owned(), name: "Tidal".to_owned(), child }
}

/// The directory of an album in that of an artist.
pub open spec fn is_album_entry(e: DirectoryChild, artist_id: u64, a: AlbumId3) -> bool {
    &&& e == (DirectoryChild {
        year: a.year,
        duration: a.duration,
        song_count: a.song_count,
        ..plain_entry(e.id, e.parent, e.title, e.album, e.artist, a.cover_art)
    })
    &&& e.id == a.id
    &&& e.parent@ == ids::encoded(IdKind::Artist, artist_id as nat)
    &&& e.title == a.name
    &&& e.album == a.name
    &&& e.artist == a.artist
}

/// The directory of an artist, with the albums.
pub fn artist_directory(artist_id: u64, name: Option<&str>, albums: Vec<AlbumId3>) -> (r: Directory)
    ensures
        r.id@ == ids::encoded(IdKind::Artist, artist_id as nat),
        r.name@ == (match name {
            Some(n) => n@,
            None => Seq::empty(),
        }),
        r.child@.len() == albums@.len(),
        forall|i: int|
            0 <= i < albums@.len() ==> is_album_entry(
                #[trigger] r.child@[i],
                artist_id,
                albums@[i],
            ),
        forall|i: int|
            0 <= i < albums@.len() ==> {
                let e = #[trigger] r.child@[i];
                let a = albums@[i];
                &&& e.id@ == a.id@
                &&& e.parent@ == "ar"@ + decimal(artist_id as nat)
                &&& e.is_dir
                &&& e.title@ == a.name@
                &&& e.album@ == a.name@
                &&& e.artist@ == a.artist@
                &&& e.cover_art == a.cover_art
                &&& e.year == a.year
                &&& e.duration == a.duration
                &&& e.song_count == a.song_count
            },
{
    let ghost all = albums@;
    let mut child: Vec<DirectoryChild> = Vec::new();
    for a in it: albums
        invariant
            it.seq() == all,
            child@.len() == it.index(),
            forall|i: int|
                0 <= i < child@.len() ==> is_album_entry(#[trigger] child@[i], artist_id, all[i]),
    {
        let mut e = dir_entry(
            a.id,
            ids::encode_artist(artist_id),
            a.name.clone(),
            a.name,
            a.artist,
            a.cover_art,
        );
        e.year = a.year;
        e.duration = a.duration;
        e.song_count = a.song_count;
        child.push(e);
    }
    let name = match name {
        Some(n) => n.to_owned(),
        None => String::new(),
    };
    Directory { id: ids::encode_artist(artist_id), name, child }
}

/// Where the detail of an album and its tracks come from: the older interface where it gave both,
/// and otherwise the newer one.
pub fn album_from_v1(detail: bool, tracks: bool) -> (r: bool)
    ensures
        r == (detail && tracks),
{
    detail && tracks
}

/// A song in the directory of an album of this year.
pub open spec fn song_entry(s: Child, year: Option<u32>) -> DirectoryChild {
    let e = entry_of(s);
    DirectoryChild {
        year: if e.year is Some {
            e.year
        } else {
            year
        },
        ..e
    }
}

/// The directory of an album, with its songs.
pub fn album_directory(album_id: u64, title: Option<&str>, songs: Vec<Child>, year: Option<u32>) -> (r:
    Directory)
    ensures
        r.id@ == ids::encoded(IdKind::Album, album_id as nat),
        r.name@ == (match title {
            Some(n) => n@,
            None => Seq::empty(),
        }),
        r.child@ == songs@.map_values(|s: Child| song_entry(s, year)),
        r.child@.len() == songs@.len(),
        forall|i: int|
            0 <= i < songs@.len() ==> {
                let e = #[trigger] r.child@[i];
                let s = songs@[i];
                &&& e.id == s.id
                &&& e.parent == s.parent
                &&& e.is_dir == s.is_dir
                &&& e.is_video == s.is_video
                &&& e.title == s.title
                &&& e.album == s.album
                &&& e.artist == s.artist
                &&& e.genre == s.genre
                &&& e.genres == s.genres
                &&& e.explicit_status == s.explicit_status
                &&& e.cover_art == s.cover_art
                &&& e.disc_number == s.disc_number
                &&& e.track == Some(s.track)
                &&& e.duration == Some(s.duration)
                &&& e.album_id == Some(s.album_id)
                &&& e.artist_id == Some(s.artist_id)
                &&& e.kind == Some(s.kind)
                &&& e.content_type == Some(s.content_type)
                &&& e.suffix == Some(s.suffix)
                &&& e.size == Some(s.size)
                &&& e.path == Some(s.path)
                &&& e.created == Some(s.created)
                &&& e.replay_gain == Some(s.replay_gain)
                &&& e.song_count is None
                &&& s.year is Some ==> e.year == s.year
                &&& s.year is None ==> e.year == year
            },
{
    let ghost all = songs@;
    let mut child: Vec<DirectoryChild> = Vec::new();
    for s in it: songs
        invariant
            it.seq() == all,
            child@ =~= all.take(it.index() as int).map_values(|s: Child| song_entry(s, year)),
    {
        assert(all.take(it.index() + 1) =~= all.take(it.index() as int).push(s));
        let mut e = DirectoryChild::from(s);
        if e.year.is_none() {
            e.year = year;
        }
        child.push(e);
    }
    assert(all.take(all.len() as int) =~= all);
    let name = match title {
        Some(n) => n.to_owned(),
        None => String::new(),
    };
    Directory { id: ids::encode_album(album_id), name, child }
}

/// Groups are their letters and their artists, one for one; an artist without the time is the same
/// artist otherwise.
pub proof fn law_groups_are_what_is_held(v: Seq<IndexGroup>, a: IndexArtist)
    ensures
        groups_view(v).len() == v.len(),
        forall|i: int| 0 <= i < v.len() ==> #[trigger] groups_view(v)[i] == (v[i].name@, v[i].artist@),
        untimed(a).id == a.id,
        untimed(a).name == a.name,
        untimed(a).starred is None,
{
}

} // verus!
