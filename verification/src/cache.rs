//! What is kept for a while, so that it need not be fetched again: audio, the lengths of
//! segments, where tracks are found, and lyrics.

use crate::handlers::lyrics::wrap32;
use crate::handlers::stream::Part;
use crate::models::song::StructuredLyrics;
use crate::text;
use crate::text::decimal;
use crate::tidal::{Quality, StreamInfo};
use std::sync::Arc;
use vstd::prelude::*;

verus! {

#[verifier::external_type_specification]
#[verifier::external_body]
#[verifier::reject_recursive_types(K)]
#[verifier::reject_recursive_types(V)]
#[verifier::reject_recursive_types(S)]
pub struct ExCache<K, V, S>(moka::sync::Cache<K, V, S>);

/// Something that is kept.
#[derive(Debug)]
pub enum Stored {
    /// Bytes of audio: a track, or a segment of one.
    Audio(Vec<u8>),
    /// The lengths of the parts of a track.
    Sizes(Vec<u64>),
    /// Where the audio of a track is found.
    Manifest(StreamInfo),
    /// The lyrics of a track, or that it has none.
    Lyrics(Option<StructuredLyrics>),
}

/// A place where things are kept under names. It is reached in one way only: no second handle to
/// it is made, so that nothing is put into it behind the back of the first.
pub type Store = moka::sync::Cache<String, Arc<Stored>>;

/// What was last put into a store under each name, whether it is still kept or not.
pub uninterp spec fn last_put(
    s: moka::sync::Cache<String, Arc<Stored>, std::hash::RandomState>,
) -> Map<Seq<char>, Stored>;

/// The limits that a store was made with: the seconds after which things are no longer given
/// out, where there is such a time, and how much may be kept.
pub uninterp spec fn limits(
    s: moka::sync::Cache<String, Arc<Stored>, std::hash::RandomState>,
) -> (Option<u64>, u64);

/// Nothing was put into a store.
pub open spec fn nothing_put() -> Map<Seq<char>, Stored> {
    Map::empty()
}

/// What a thing counts toward the capacity of a store: audio its length, anything else one.
pub open spec fn weight_of(s: Stored) -> u32 {
    match s {
        Stored::Audio(b) => wrap32(b@.len() as int),
        _ => 1,
    }
}

/// What a thing counts toward the capacity of a store.
pub fn weight(s: &Arc<Stored>) -> (r: u32)
    ensures
        r == weight_of(**s),
        (**s matches Stored::Audio(b) && b@.len() <= u32::MAX) ==> (**s matches Stored::Audio(b) && r
            == b@.len()),
        !(**s is Audio) ==> r == 1,
{
    match &**s {
        Stored::Audio(b) => (b.len() as u64 % 0x1_0000_0000) as u32,
        _ => 1,
    }
}

/// `moka::sync::Cache::builder` makes a store, here one with a capacity and a time after which
/// things are no longer given out, which are its limits. Nothing was put into it yet. A time of
/// more than a thousand years is refused by the outside code.
#[verifier::external_body]
pub(crate) fn expiring_store(seconds: u64, capacity: u64) -> (r: Store)
    requires
        seconds <= 31_536_000_000,
    ensures
        last_put(r) == nothing_put(),
        limits(r) == (Some(seconds), capacity),
{
    moka::sync::Cache::builder()
        .time_to_live(std::time::Duration::from_secs(seconds))
        .max_capacity(capacity)
        .weigher(|_key, value| weight(value))
        .build()
}

/// `moka::sync::Cache::builder` makes a store, here one with a capacity as its only limit. Nothing
/// was put into it yet.
#[verifier::external_body]
pub(crate) fn lasting_store(capacity: u64) -> (r: Store)
    ensures
        last_put(r) == nothing_put(),
        limits(r) == (None::<u64>, capacity),
{
    moka::sync::Cache::builder().max_capacity(capacity).weigher(|_key, value| weight(value)).build()
}

/// `moka::sync::Cache::get` gives what is kept under a name: what was last put there, or nothing.
/// When a thing is no longer kept depends on the clock and on what else is kept, so nothing is
/// said of that.
#[verifier::external_body]
fn take_from(s: &Store, name: &String) -> (r: Option<Arc<Stored>>)
    ensures
        r is Some ==> last_put(*s).contains_key(name@) && *r->0 == last_put(*s)[name@],
{
    s.get(name)
}

/// `moka::sync::Cache::contains_key` says whether something is kept under a name.
#[verifier::external_body]
fn keeps(s: &Store, name: &String) -> (r: bool)
    ensures
        r ==> last_put(*s).contains_key(name@),
{
    s.contains_key(name)
}

/// `moka::sync::Cache::insert` puts a thing under a name, in place of what was there. The limits
/// of the store stay.
#[verifier::external_body]
fn put_into(s: &mut Store, name: String, value: Arc<Stored>)
    ensures
        last_put(*final(s)) == last_put(*old(s)).insert(name@, *value),
        limits(*final(s)) == limits(*old(s)),
{
    s.insert(name, value)
}

/// `moka::sync::Cache::run_pending_tasks` lets go of what is no longer kept. What was put into
/// the store stays what it was, and so do its limits.
#[verifier::external_body]
fn settle(s: &mut Store)
    ensures
        last_put(*final(s)) == last_put(*old(s)),
        limits(*final(s)) == limits(*old(s)),
{
    s.run_pending_tasks()
}

/// Lets go of what is no longer kept, so that its memory is free though nobody asks for it.
pub fn run_pending_cache_tasks(s: &mut Store)
    ensures
        last_put(*final(s)) == last_put(*old(s)),
        limits(*final(s)) == limits(*old(s)),
{
    settle(s);
}

/// The number of a tier.
pub open spec fn tier_number(q: Quality) -> nat {
    match q {
        Quality::Low => 0,
        Quality::High => 1,
        Quality::Lossless => 2,
        Quality::HiResLossless => 3,
        Quality::Atmos => 4,
    }
}

/// The name of a track in a tier.
pub open spec fn track_key(track_id: u64, tier: Quality) -> Seq<char> {
    decimal(tier_number(tier)) + decimal(track_id as nat)
}

/// The name of a track in a tier.
fn make_key(track_id: u64, tier: Quality) -> (r: String)
    ensures
        r@ == track_key(track_id, tier),
{
    let n: u64 = match tier {
        Quality::Low => 0,
        Quality::High => 1,
        Quality::Lossless => 2,
        Quality::HiResLossless => 3,
        Quality::Atmos => 4,
    };
    text::join2(text::decimal_text(n).as_str(), text::decimal_text(track_id).as_str())
}

/// No two tracks in no two tiers share a name.
pub proof fn law_keys_differ(a: u64, p: Quality, b: u64, q: Quality)
    requires
        track_key(a, p) == track_key(b, q),
    ensures
        a == b,
        p == q,
{
    let s = track_key(a, p);
    assert(decimal(tier_number(p)).len() == 1 && decimal(tier_number(q)).len() == 1);
    assert(s[0] == decimal(tier_number(p))[0] && s[0] == decimal(tier_number(q))[0]);
    assert(s.subrange(1, s.len() as int) =~= decimal(a as nat));
    assert(s.subrange(1, s.len() as int) =~= decimal(b as nat));
    text::lemma_decimal(a as nat);
    text::lemma_decimal(b as nat);
}

/// Where tracks are found is kept for two minutes, well inside the life of the addresses.
pub fn manifest_store() -> (r: Store)
    ensures
        last_put(r) == nothing_put(),
        limits(r) == (Some(120u64), 10_000u64),
{
    expiring_store(120, 10_000)
}

/// Audio is kept for five minutes, up to 256 megabytes.
pub fn audio_store() -> (r: Store)
    ensures
        last_put(r) == nothing_put(),
        limits(r) == (Some(300u64), 268_435_456u64),
{
    expiring_store(300, 268_435_456)
}

/// Lengths are kept as long as there is room: they belong to the audio, not to its address.
pub fn size_store() -> (r: Store)
    ensures
        last_put(r) == nothing_put(),
        limits(r) == (None::<u64>, 10_000u64),
{
    lasting_store(10_000)
}

/// Lyrics are kept for six hours.
pub fn lyrics_store() -> (r: Store)
    ensures
        last_put(r) == nothing_put(),
        limits(r) == (Some(21_600u64), 5_000u64),
{
    expiring_store(21_600, 5_000)
}

/// What was found in a store, where it is where a track is found.
pub fn manifest_in(found: Option<Arc<Stored>>) -> (r: Option<Arc<Stored>>)
    ensures
        r == (if found is Some && *found->0 is Manifest {
            found
        } else {
            None
        }),
{
    match found {
        Some(v) => match &*v {
            Stored::Manifest(_) => Some(v),
            _ => None,
        },
        None => None,
    }
}

/// What was found in a store, where it is audio.
pub fn audio_in(found: Option<Arc<Stored>>) -> (r: Option<Arc<Stored>>)
    ensures
        r == (if found is Some && *found->0 is Audio {
            found
        } else {
            None
        }),
{
    match found {
        Some(v) => match &*v {
            Stored::Audio(_) => Some(v),
            _ => None,
        },
        None => None,
    }
}

/// What was found in a store, where it is the lengths of parts.
pub fn sizes_in(found: Option<Arc<Stored>>) -> (r: Option<Arc<Stored>>)
    ensures
        r == (if found is Some && *found->0 is Sizes {
            found
        } else {
            None
        }),
{
    match found {
        Some(v) => match &*v {
            Stored::Sizes(_) => Some(v),
            _ => None,
        },
        None => None,
    }
}

/// What was found in a store, where it is lyrics.
pub fn lyrics_in(found: Option<Arc<Stored>>) -> (r: Option<Arc<Stored>>)
    ensures
        r == (if found is Some && *found->0 is Lyrics {
            found
        } else {
            None
        }),
{
    match found {
        Some(v) => match &*v {
            Stored::Lyrics(_) => Some(v),
            _ => None,
        },
        None => None,
    }
}

/// What is kept of where a track is found.
pub fn cached_manifest(s: &Store, track_id: u64, tier: Quality) -> (r: Option<Arc<Stored>>)
    ensures
        r is Some ==> *r->0 is Manifest && last_put(*s).contains_key(track_key(track_id, tier))
            && last_put(*s)[track_key(track_id, tier)] == *r->0,
{
    let key = make_key(track_id, tier);
    manifest_in(take_from(s, &key))
}

/// Keeps where a track is found.
pub fn store_manifest(s: &mut Store, track_id: u64, tier: Quality, info: StreamInfo)
    ensures
        last_put(*final(s)) == last_put(*old(s)).insert(
            track_key(track_id, tier),
            Stored::Manifest(info),
        ),
        limits(*final(s)) == limits(*old(s)),
{
    let key = make_key(track_id, tier);
    put_into(s, key, Arc::new(Stored::Manifest(info)));
}

/// The audio of a track that is kept.
pub fn cached_audio(s: &Store, track_id: u64, tier: Quality) -> (r: Option<Arc<Stored>>)
    ensures
        r is Some ==> *r->0 is Audio && last_put(*s).contains_key(track_key(track_id, tier))
            && last_put(*s)[track_key(track_id, tier)] == *r->0,
{
    let key = make_key(track_id, tier);
    audio_in(take_from(s, &key))
}

/// Keeps the audio of a track.
pub fn store_audio(s: &mut Store, track_id: u64, tier: Quality, bytes: Vec<u8>)
    ensures
        last_put(*final(s)) == last_put(*old(s)).insert(
            track_key(track_id, tier),
            Stored::Audio(bytes),
        ),
        limits(*final(s)) == limits(*old(s)),
{
    let key = make_key(track_id, tier);
    put_into(s, key, Arc::new(Stored::Audio(bytes)));
}

/// The lengths of the parts of a track that are kept.
pub fn cached_sizes(s: &Store, track_id: u64, tier: Quality) -> (r: Option<Arc<Stored>>)
    ensures
        r is Some ==> *r->0 is Sizes && last_put(*s).contains_key(track_key(track_id, tier))
            && last_put(*s)[track_key(track_id, tier)] == *r->0,
{
    let key = make_key(track_id, tier);
    sizes_in(take_from(s, &key))
}

/// Keeps the lengths of the parts of a track.
pub fn store_sizes(s: &mut Store, track_id: u64, tier: Quality, sizes: Vec<u64>)
    ensures
        last_put(*final(s)) == last_put(*old(s)).insert(
            track_key(track_id, tier),
            Stored::Sizes(sizes),
        ),
        limits(*final(s)) == limits(*old(s)),
{
    let key = make_key(track_id, tier);
    put_into(s, key, Arc::new(Stored::Sizes(sizes)));
}

/// A segment that is kept, by its address.
pub fn cached_part(s: &Store, url: &String) -> (r: Option<Arc<Stored>>)
    ensures
        r is Some ==> *r->0 is Audio && last_put(*s).contains_key(url@) && last_put(*s)[url@]
            == *r->0,
{
    audio_in(take_from(s, url))
}

/// Keeps a segment under its address.
pub fn store_part(s: &mut Store, url: &String, bytes: Vec<u8>)
    ensures
        last_put(*final(s)) == last_put(*old(s)).insert(url@, Stored::Audio(bytes)),
        limits(*final(s)) == limits(*old(s)),
{
    put_into(s, url.clone(), Arc::new(Stored::Audio(bytes)));
}

/// How many of these are so.
pub open spec fn count_of(flags: Seq<bool>) -> nat
    decreases flags.len(),
{
    if flags.len() == 0 {
        0
    } else {
        count_of(flags.drop_last()) + (if flags.last() {
            1nat
        } else {
            0nat
        })
    }
}

/// Counts how many of these are so.
pub fn count_warm(flags: &Vec<bool>) -> (r: usize)
    ensures
        r == count_of(flags@),
{
    let mut n: usize = 0;
    let mut i: usize = 0;
    assert(flags@.take(0) =~= Seq::empty());
    while i < flags.len()
        invariant
            i <= flags@.len(),
            n <= i,
            n == count_of(flags@.take(i as int)),
        decreases flags@.len() - i,
    {
        assert(flags@.take(i + 1).drop_last() =~= flags@.take(i as int));
        if flags[i] {
            n += 1;
        }
        i += 1;
    }
    assert(flags@.take(flags@.len() as int) =~= flags@);
    n
}

/// These may be the answers of a store to whether it keeps each of these parts: a part without
/// an address is not asked for, and what was never put there is not kept.
pub open spec fn may_answer(flags: Seq<bool>, m: Map<Seq<char>, Stored>, parts: Seq<Part>) -> bool {
    &&& flags.len() == parts.len()
    &&& forall|i: int|
        0 <= i < parts.len() && #[trigger] flags[i] ==> parts[i].url is Some && m.contains_key(
            parts[i].url->0@,
        )
}

/// How many of these parts the store says that it keeps.
pub fn warm_parts(s: &Store, parts: &Vec<Part>) -> (r: usize)
    ensures
        exists|flags: Seq<bool>|
            may_answer(flags, last_put(*s), parts@) && r == #[trigger] count_of(flags),
        r <= put_before(last_put(*s), parts@),
{
    let mut flags: Vec<bool> = Vec::new();
    let mut i: usize = 0;
    assert(parts@.take(0) =~= Seq::empty());
    while i < parts.len()
        invariant
            i <= parts@.len(),
            may_answer(flags@, last_put(*s), parts@.take(i as int)),
            count_of(flags@) <= put_before(last_put(*s), parts@.take(i as int)),
        decreases parts@.len() - i,
    {
        assert(parts@.take(i + 1).drop_last() =~= parts@.take(i as int));
        let ghost before = flags@;
        let kept = match &parts[i].url {
            Some(url) => keeps(s, url),
            None => false,
        };
        flags.push(kept);
        assert(flags@.drop_last() =~= before);
        assert forall|j: int| 0 <= j < i + 1 && #[trigger] flags@[j] implies parts@[j].url is Some
            && last_put(*s).contains_key(parts@[j].url->0@) by {
            if j < i {
                assert(before[j]);
                assert(parts@.take(i as int)[j] == parts@[j]);
            }
        }
        i += 1;
    }
    assert(parts@.take(parts@.len() as int) =~= parts@);
    count_warm(&flags)
}

/// How many of these parts were put into a store.
pub open spec fn put_before(m: Map<Seq<char>, Stored>, parts: Seq<Part>) -> nat
    decreases parts.len(),
{
    if parts.len() == 0 {
        0
    } else {
        put_before(m, parts.drop_last()) + (match parts.last().url {
            Some(u) => if m.contains_key(u@) {
                1nat
            } else {
                0nat
            },
            None => 0nat,
        })
    }
}

/// What is kept of the lyrics of a track.
pub fn cached_lyrics(s: &Store, track_id: u64) -> (r: Option<Arc<Stored>>)
    ensures
        r is Some ==> *r->0 is Lyrics && last_put(*s).contains_key(decimal(track_id as nat))
            && last_put(*s)[decimal(track_id as nat)] == *r->0,
{
    let key = text::decimal_text(track_id);
    lyrics_in(take_from(s, &key))
}

/// Keeps the lyrics of a track, or that it has none.
pub fn store_lyrics(s: &mut Store, track_id: u64, lyrics: Option<StructuredLyrics>)
    ensures
        last_put(*final(s)) == last_put(*old(s)).insert(
            decimal(track_id as nat),
            Stored::Lyrics(lyrics),
        ),
        limits(*final(s)) == limits(*old(s)),
{
    put_into(s, text::decimal_text(track_id), Arc::new(Stored::Lyrics(lyrics)));
}

/// What is given out for a track is what was last kept for it in that tier, and nothing that was
/// kept for another.
pub proof fn law_audio_is_that_of_the_track(
    before: Map<Seq<char>, Stored>,
    a: u64,
    p: Quality,
    bytes: Vec<u8>,
    b: u64,
    q: Quality,
)
    ensures
        ({
            let after = before.insert(track_key(a, p), Stored::Audio(bytes));
            if a == b && p == q {
                after.contains_key(track_key(b, q)) && after[track_key(b, q)] == Stored::Audio(bytes)
            } else {
                after.contains_key(track_key(b, q)) == before.contains_key(track_key(b, q))
                    && after[track_key(b, q)] == before[track_key(b, q)]
            }
        }),
{
    if track_key(a, p) == track_key(b, q) {
        law_keys_differ(a, p, b, q);
    }
}

/// The name of a track begins with the digit of its tier, from nought for the lowest to four for
/// the one with sound from all sides, and goes on with its number.
pub proof fn law_the_name_of_a_track(n: u64)
    ensures
        track_key(n, Quality::Low) == seq!['0'] + decimal(n as nat),
        track_key(n, Quality::High) == seq!['1'] + decimal(n as nat),
        track_key(n, Quality::Lossless) == seq!['2'] + decimal(n as nat),
        track_key(n, Quality::HiResLossless) == seq!['3'] + decimal(n as nat),
        track_key(n, Quality::Atmos) == seq!['4'] + decimal(n as nat),
{
    text::law_decimal_is_in_base_ten(0);
    text::law_decimal_is_in_base_ten(1);
    text::law_decimal_is_in_base_ten(2);
    text::law_decimal_is_in_base_ten(3);
    text::law_decimal_is_in_base_ten(4);
    assert(decimal(0) =~= seq!['0']);
    assert(decimal(1) =~= seq!['1']);
    assert(decimal(2) =~= seq!['2']);
    assert(decimal(3) =~= seq!['3']);
    assert(decimal(4) =~= seq!['4']);
}

/// Each of the flags that is set counts one, and each that is not counts nothing.
pub proof fn law_each_flag_counts_once(a: Seq<bool>, b: Seq<bool>)
    ensures
        count_of(a + b) == count_of(a) + count_of(b),
        count_of(Seq::empty()) == 0,
        count_of(seq![true]) == 1,
        count_of(seq![false]) == 0,
    decreases b.len(),
{
    assert(seq![true].drop_last() =~= Seq::<bool>::empty());
    assert(seq![false].drop_last() =~= Seq::<bool>::empty());
    assert(count_of(Seq::<bool>::empty()) == 0);
    if b.len() == 0 {
        assert(a + b =~= a);
    } else {
        law_each_flag_counts_once(a, b.drop_last());
        assert((a + b).drop_last() =~= a + b.drop_last());
    }
}

/// Each part that was put into a store under its address counts one, and each other part nothing.
pub proof fn law_each_part_counts_once(m: Map<Seq<char>, Stored>, parts: Seq<Part>, p: Part)
    ensures
        p.url is Some && m.contains_key(p.url->0@) ==> put_before(m, parts.push(p)) == put_before(
            m,
            parts,
        ) + 1,
        p.url is None || !m.contains_key(p.url->0@) ==> put_before(m, parts.push(p)) == put_before(
            m,
            parts,
        ),
        put_before(m, Seq::empty()) == 0,
        nothing_put().dom().len() == 0,
        forall|k: Seq<char>| !nothing_put().contains_key(k),
{
    assert(parts.push(p).drop_last() =~= parts);
}

} // verus!
