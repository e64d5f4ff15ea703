//! The jukebox: a playlist on the server that clients control together. Nothing is played here,
//! so the state only mirrors what was asked for.

use crate::clock;
use crate::handlers::lyrics::wrap32;
use crate::handlers::Failure;
use crate::ids;
use crate::models::song::Child;
use crate::models::system::{JukeboxControlResponse, JukeboxPlaylist, JukeboxStatus};
use crate::params::QueryParams;
use crate::text;
use crate::text::texts;
use vstd::prelude::*;

verus! {

/// The next of a row of numbers that look random.
pub open spec fn next_random(seed: u32) -> u32 {
    let a = seed ^ (seed << 13u32);
    let b = a ^ (a >> 17u32);
    b ^ (b << 5u32)
}

/// A list in another order, which the seed decides: from the end on, each place takes one of the
/// items that are left.
pub open spec fn shuffled<T>(s: Seq<T>, seed: u32) -> Seq<T>
    decreases s.len(),
{
    if s.len() <= 1 {
        s
    } else {
        let x = next_random(seed);
        let j = x as int % s.len() as int;
        shuffled(s.update(j, s.last()).drop_last(), x).push(s[j])
    }
}

/// Puts a list in the order that a seed decides.
pub fn shuffle_with<T>(playlist: &mut Vec<T>, seed: u32)
    requires
        old(playlist)@.len() <= u32::MAX,
    ensures
        final(playlist)@ == shuffled(old(playlist)@, seed),
{
    let mut tail: Vec<T> = Vec::new();
    let mut x: u32 = seed;
    let ghost all = playlist@;
    assert(all =~= playlist@ + tail@.reverse());
    while playlist.len() > 1
        invariant
            playlist@.len() <= u32::MAX,
            shuffled(all, seed) == shuffled(playlist@, x) + tail@.reverse(),
        decreases playlist@.len(),
    {
        let a: u32 = x ^ (x << 13u32);
        let b: u32 = a ^ (a >> 17u32);
        x = b ^ (b << 5u32);
        let j: usize = (x % (playlist.len() as u32)) as usize;
        let ghost before = playlist@;
        let ghost old_tail = tail@;
        let item = playlist.swap_remove(j);
        tail.push(item);
        proof {
            assert(tail@.reverse() =~= seq![item] + old_tail.reverse());
            assert(shuffled(playlist@, x).push(item) + old_tail.reverse() =~= shuffled(
                playlist@,
                x,
            ) + tail@.reverse());
        }
    }
    let ghost rest = playlist@ + tail@.reverse();
    while tail.len() > 0
        invariant
            playlist@ + tail@.reverse() == rest,
        decreases tail@.len(),
    {
        let ghost t = tail@;
        let ghost p = playlist@;
        match tail.pop() {
            Some(item) => {
                playlist.push(item);
                assert(t.reverse() =~= seq![item] + tail@.reverse());
                assert(playlist@ + tail@.reverse() =~= p + t.reverse());
            },
            None => {},
        }
    }
    assert(playlist@ =~= rest);
}

/// A seed for an order: a number below a thousand million that the clock decides.
pub open spec fn is_seed(seed: u32) -> bool {
    seed < 1_000_000_000 || seed == 0x9e37_79b9
}

/// `Duration::subsec_nanos` is the part of a span that is less than a second, in nanoseconds.
pub assume_specification[ std::time::Duration::subsec_nanos ](d: &std::time::Duration) -> (r: u32)
    ensures
        r < 1_000_000_000,
;

/// Puts a list in an order that the clock decides. No item is lost, and none comes twice.
pub fn shuffle<T>(playlist: &mut Vec<T>)
    requires
        old(playlist)@.len() <= u32::MAX,
    ensures
        exists|seed: u32|
            is_seed(seed) && final(playlist)@ == #[trigger] shuffled(old(playlist)@, seed),
        final(playlist)@.to_multiset() == old(playlist)@.to_multiset(),
{
    let seed: u32 = match clock::since_epoch(std::time::SystemTime::now()) {
        Some(d) => d.subsec_nanos(),
        None => 0x9e37_79b9,
    };
    proof {
        law_shuffling_keeps_all(playlist@, seed);
    }
    shuffle_with(playlist, seed);
}

/// Whatever the seed, a shuffled list holds the same items as before, each as often.
pub proof fn law_shuffling_keeps_all<T>(s: Seq<T>, seed: u32)
    ensures
        shuffled(s, seed).to_multiset() == s.to_multiset(),
        shuffled(s, seed).len() == s.len(),
    decreases s.len(),
{
    broadcast use vstd::seq_lib::group_to_multiset_ensures;
    broadcast use vstd::multiset::group_multiset_axioms;

    if s.len() > 1 {
        let x = next_random(seed);
        let j = x as int % s.len() as int;
        let rest = s.update(j, s.last()).drop_last();
        law_shuffling_keeps_all(rest, x);
        let t = s.drop_last();
        assert(t.push(s.last()) =~= s);
        if j == s.len() - 1 {
            assert(rest =~= t);
        } else {
            assert(rest =~= t.update(j, s.last()));
            assert(t.to_multiset().count(t[j]) > 0) by {
                assert(t.contains(t[j]));
            }
        }
        assert(rest.push(s[j]).to_multiset() =~= s.to_multiset());
        assert(shuffled(s, seed).to_multiset() =~= rest.to_multiset().insert(s[j]));
    }
}

/// The tracks that these identifiers name; what names none is passed over.
pub open spec fn tracks_in(v: Seq<Seq<char>>) -> Seq<u64>
    decreases v.len(),
{
    if v.len() == 0 {
        Seq::empty()
    } else {
        match ids::track_of(v.last()) {
            Some(n) => tracks_in(v.drop_last()).push(n as u64),
            None => tracks_in(v.drop_last()),
        }
    }
}

/// Reads the tracks that these identifiers name.
pub fn read_tracks(v: &Vec<String>) -> (r: Vec<u64>)
    ensures
        r@ == tracks_in(texts(v@)),
        r@.len() <= v@.len(),
{
    let mut out: Vec<u64> = Vec::new();
    let ghost all = texts(v@);
    let mut i: usize = 0;
    assert(all.take(0) =~= Seq::empty());
    while i < v.len()
        invariant
            i <= v@.len(),
            all == texts(v@),
            out@ == tracks_in(all.take(i as int)),
            out@.len() <= i,
        decreases v@.len() - i,
    {
        assert(all.take(i + 1).drop_last() =~= all.take(i as int));
        assert(all.take(i + 1).last() == v@[i as int]@);
        if let Some(n) = ids::parse_track_id(v[i].as_str()) {
            out.push(n);
        }
        i += 1;
    }
    assert(all.take(all.len() as int) =~= all);
    out
}

/// The state of the jukebox.
#[derive(Debug)]
pub struct Jukebox {
    pub playlist: Vec<u64>,
    pub current_index: u32,
    pub playing: bool,
    /// The bits of the gain as a single; nothing here reads it.
    pub gain: u32,
    pub position: u32,
}

/// The state of the jukebox as values.
pub struct JukeboxView {
    pub playlist: Seq<u64>,
    pub current_index: u32,
    pub playing: bool,
    pub gain: u32,
    pub position: u32,
}

impl View for Jukebox {
    type V = JukeboxView;

    open spec fn view(&self) -> JukeboxView {
        JukeboxView {
            playlist: self.playlist@,
            current_index: self.current_index,
            playing: self.playing,
            gain: self.gain,
            position: self.position,
        }
    }
}

/// The smaller of two numbers.
pub open spec fn smaller32(a: u32, b: u32) -> u32 {
    if a <= b {
        a
    } else {
        b
    }
}

/// The jukebox knows this action.
pub open spec fn is_action(action: Seq<char>) -> bool {
    ||| action == "set"@
    ||| action == "start"@
    ||| action == "stop"@
    ||| action == "skip"@
    ||| action == "add"@
    ||| action == "clear"@
    ||| action == "remove"@
    ||| action == "shuffle"@
    ||| action == "setGain"@
    ||| action == "get"@
    ||| action == "status"@
}

/// The action that parameters ask for.
pub open spec fn action_of(q: QueryParams) -> Seq<char> {
    match q.action {
        Some(a) => a@,
        None => Seq::empty(),
    }
}

/// The jukebox is empty and does nothing.
pub fn new_jukebox() -> (r: Jukebox)
    ensures
        r.playlist@.len() == 0,
        r.current_index == 0,
        !r.playing,
        r.gain == 0,
        r.position == 0,
{
    Jukebox { playlist: Vec::new(), current_index: 0, playing: false, gain: 0, position: 0 }
}

/// What an action makes of the jukebox, all but shuffling. The `gain` is the one asked for,
/// brought between zero and one.
pub open spec fn acted(
    j: JukeboxView,
    action: Seq<char>,
    ids: Seq<Seq<char>>,
    index: Option<u32>,
    offset: Option<u32>,
    gain: Option<u32>,
) -> JukeboxView {
    if action == "set"@ {
        let list = tracks_in(ids);
        JukeboxView {
            playlist: list,
            current_index: if list.len() > 0 {
                smaller32(j.current_index, wrap32(list.len() - 1))
            } else {
                j.current_index
            },
            ..j
        }
    } else if action == "start"@ {
        JukeboxView { playing: true, ..j }
    } else if action == "stop"@ {
        JukeboxView { playing: false, ..j }
    } else if action == "skip"@ {
        JukeboxView {
            current_index: if index is Some && j.playlist.len() > 0 {
                smaller32(index->0, wrap32(j.playlist.len() - 1))
            } else {
                j.current_index
            },
            position: if offset is Some {
                offset->0
            } else {
                j.position
            },
            ..j
        }
    } else if action == "add"@ {
        JukeboxView { playlist: j.playlist + tracks_in(ids), ..j }
    } else if action == "clear"@ {
        JukeboxView {
            playlist: Seq::empty(),
            current_index: 0,
            playing: false,
            gain: j.gain,
            position: 0,
        }
    } else if action == "remove"@ {
        if index is Some && index->0 < j.playlist.len() {
            JukeboxView { playlist: j.playlist.remove(index->0 as int), ..j }
        } else {
            j
        }
    } else if action == "setGain"@ {
        JukeboxView {
            gain: if gain is Some {
                gain->0
            } else {
                j.gain
            },
            ..j
        }
    } else {
        j
    }
}

/// What an action makes of the jukebox.
pub open spec fn jukebox_after(
    before: JukeboxView,
    after: JukeboxView,
    action: Seq<char>,
    ids: Seq<Seq<char>>,
    index: Option<u32>,
    offset: Option<u32>,
    gain: Option<u32>,
) -> bool {
    if action == "shuffle"@ {
        &&& exists|seed: u32|
            is_seed(seed) && after.playlist == #[trigger] shuffled(before.playlist, seed)
        &&& after.playlist.to_multiset() == before.playlist.to_multiset()
        &&& after == (JukeboxView { playlist: after.playlist, ..before })
    } else {
        after == acted(before, action, ids, index, offset, gain)
    }
}

/// What is answered: the state, and the tracks whose songs go with it where they were asked for.
#[derive(Debug)]
pub struct JukeboxAnswer {
    pub status: JukeboxStatus,
    pub with_playlist: bool,
    pub ids: Vec<u64>,
}

proof fn lemma_shuffle_is_another()
    ensures
        "set"@ != "shuffle"@,
        "start"@ != "shuffle"@,
        "stop"@ != "shuffle"@,
        "skip"@ != "shuffle"@,
        "add"@ != "shuffle"@,
        "clear"@ != "shuffle"@,
        "remove"@ != "shuffle"@,
        "setGain"@ != "shuffle"@,
        "get"@ != "shuffle"@,
        "status"@ != "shuffle"@,
{
    reveal_strlit("shuffle");
    reveal_strlit("set");
    reveal_strlit("start");
    reveal_strlit("stop");
    reveal_strlit("skip");
    reveal_strlit("add");
    reveal_strlit("clear");
    reveal_strlit("remove");
    reveal_strlit("setGain");
    reveal_strlit("get");
    reveal_strlit("status");
    assert("shuffle"@.len() == 7);
    assert("set"@.len() == 3);
    assert("start"@.len() == 5);
    assert("stop"@.len() == 4);
    assert("skip"@.len() == 4);
    assert("add"@.len() == 3);
    assert("clear"@.len() == 5);
    assert("remove"@.len() == 6);
    assert("setGain"@.len() == 7);
    assert("get"@.len() == 3);
    assert("status"@.len() == 6);
    assert("setGain"@[0] == 's' && "setGain"@[1] == 'e' && "shuffle"@[1] == 'h');
}

/// No two actions have the same name.
proof fn lemma_actions_differ()
    ensures
        "set"@ != "start"@,
        "set"@ != "stop"@,
        "set"@ != "skip"@,
        "set"@ != "add"@,
        "set"@ != "clear"@,
        "set"@ != "remove"@,
        "set"@ != "shuffle"@,
        "set"@ != "setGain"@,
        "set"@ != "get"@,
        "set"@ != "status"@,
        "start"@ != "stop"@,
        "start"@ != "skip"@,
        "start"@ != "add"@,
        "start"@ != "clear"@,
        "start"@ != "remove"@,
        "start"@ != "shuffle"@,
        "start"@ != "setGain"@,
        "start"@ != "get"@,
        "start"@ != "status"@,
        "stop"@ != "skip"@,
        "stop"@ != "add"@,
        "stop"@ != "clear"@,
        "stop"@ != "remove"@,
        "stop"@ != "shuffle"@,
        "stop"@ != "setGain"@,
        "stop"@ != "get"@,
        "stop"@ != "status"@,
        "skip"@ != "add"@,
        "skip"@ != "clear"@,
        "skip"@ != "remove"@,
        "skip"@ != "shuffle"@,
        "skip"@ != "setGain"@,
        "skip"@ != "get"@,
        "skip"@ != "status"@,
        "add"@ != "clear"@,
        "add"@ != "remove"@,
        "add"@ != "shuffle"@,
        "add"@ != "setGain"@,
        "add"@ != "get"@,
        "add"@ != "status"@,
        "clear"@ != "remove"@,
        "clear"@ != "shuffle"@,
        "clear"@ != "setGain"@,
        "clear"@ != "get"@,
        "clear"@ != "status"@,
        "remove"@ != "shuffle"@,
        "remove"@ != "setGain"@,
        "remove"@ != "get"@,
        "remove"@ != "status"@,
        "shuffle"@ != "setGain"@,
        "shuffle"@ != "get"@,
        "shuffle"@ != "status"@,
        "setGain"@ != "get"@,
        "setGain"@ != "status"@,
        "get"@ != "status"@,
        "set"@.len() > 0,
        "start"@.len() > 0,
        "stop"@.len() > 0,
        "skip"@.len() > 0,
        "add"@.len() > 0,
        "clear"@.len() > 0,
        "remove"@.len() > 0,
        "shuffle"@.len() > 0,
        "setGain"@.len() > 0,
        "get"@.len() > 0,
        "status"@.len() > 0,
{
    reveal_strlit("set");
    reveal_strlit("start");
    reveal_strlit("stop");
    reveal_strlit("skip");
    reveal_strlit("add");
    reveal_strlit("clear");
    reveal_strlit("remove");
    reveal_strlit("shuffle");
    reveal_strlit("setGain");
    reveal_strlit("get");
    reveal_strlit("status");
    assert("set"@.len() == 3);
    assert("start"@.len() == 5);
    assert("stop"@.len() == 4);
    assert("skip"@.len() == 4);
    assert("add"@.len() == 3);
    assert("clear"@.len() == 5);
    assert("remove"@.len() == 6);
    assert("shuffle"@.len() == 7);
    assert("setGain"@.len() == 7);
    assert("get"@.len() == 3);
    assert("status"@.len() == 6);
    assert("set"@[0] == 's' && "add"@[0] == 'a');
    assert("set"@[0] == 's' && "get"@[0] == 'g');
    assert("start"@[0] == 's' && "clear"@[0] == 'c');
    assert("stop"@[1] == 't' && "skip"@[1] == 'k');
    assert("add"@[0] == 'a' && "get"@[0] == 'g');
    assert("remove"@[0] == 'r' && "status"@[0] == 's');
    assert("shuffle"@[1] == 'h' && "setGain"@[1] == 'e');
}

/// Does what parameters ask of the jukebox, and says what to answer. An action that the jukebox
/// does not know changes nothing.
pub fn jukebox_control(j: &mut Jukebox, q: &QueryParams, gain: Option<u32>) -> (r: Result<
    JukeboxAnswer,
    Failure,
>)
    requires
        action_of(*q) == "shuffle"@ ==> old(j).playlist@.len() <= u32::MAX,
    ensures
        r is Ok <==> is_action(action_of(*q)),
        match r {
            Ok(a) => {
                &&& jukebox_after(
                    old(j)@,
                    final(j)@,
                    action_of(*q),
                    texts(q.id.0@),
                    q.index,
                    q.offset,
                    gain,
                )
                &&& a.status.current_index == final(j).current_index
                &&& a.status.playing == final(j).playing
                &&& a.status.gain == final(j).gain
                &&& a.status.position == final(j).position
                &&& a.with_playlist == (action_of(*q) == "get"@ || action_of(*q) == "status"@)
                &&& a.ids@ == final(j).playlist@
            },
            Err(f) => f.is(0, "Unknown jukebox action"@) && final(j)@ == old(j)@,
        },
        q.action is None ==> r is Err,
        r is Ok ==> {
            let a = q.action->0@;
            ||| a == "set"@ || a == "start"@ || a == "stop"@ || a == "skip"@ || a == "add"@
            ||| a == "clear"@ || a == "remove"@ || a == "shuffle"@ || a == "setGain"@
            ||| a == "get"@ || a == "status"@
        },
        q.action is Some && q.action->0@ == "set"@ ==> {
            &&& r is Ok
            &&& final(j).playlist@ == tracks_in(texts(q.id.0@))
            &&& final(j).playlist@.len() == 0 || old(j).current_index < final(j).playlist@.len()
                <= 0x1_0000_0000
                ==> final(j).current_index == old(j).current_index
            &&& 0 < final(j).playlist@.len() <= old(j).current_index ==> final(j).current_index
                == final(j).playlist@.len() - 1
            &&& final(j).playing == old(j).playing && final(j).gain == old(j).gain && final(j).position == old(j).position
        },
        q.action is Some && q.action->0@ == "start"@ ==> r is Ok && final(j).playing && final(j).playlist@ == old(j).playlist@ && final(j).current_index == old(j).current_index
            && final(j).gain == old(j).gain && final(j).position == old(j).position,
        q.action is Some && q.action->0@ == "stop"@ ==> r is Ok && !final(j).playing && final(j).playlist@ == old(j).playlist@ && final(j).current_index == old(j).current_index
            && final(j).gain == old(j).gain && final(j).position == old(j).position,
        q.action is Some && q.action->0@ == "skip"@ ==> {
            &&& r is Ok
            &&& q.index is Some && q.index->0 < old(j).playlist@.len() <= 0x1_0000_0000 ==> final(j).current_index
                == q.index->0
            &&& q.index is Some && 0 < old(j).playlist@.len() <= q.index->0 ==> final(j).current_index == old(j).playlist@.len() - 1
            &&& q.index is None || old(j).playlist@.len() == 0 ==> final(j).current_index == old(j).current_index
            &&& q.offset is Some ==> final(j).position == q.offset->0
            &&& q.offset is None ==> final(j).position == old(j).position
            &&& final(j).playlist@ == old(j).playlist@ && final(j).playing == old(j).playing
                && final(j).gain == old(j).gain
        },
        q.action is Some && q.action->0@ == "add"@ ==> r is Ok && final(j).playlist@ == old(j).playlist@ + tracks_in(texts(q.id.0@)) && final(j).current_index == old(j).current_index && final(j).playing == old(j).playing && final(j).gain == old(j).gain
            && final(j).position == old(j).position,
        q.action is Some && q.action->0@ == "clear"@ ==> r is Ok && final(j).playlist@.len() == 0
            && final(j).current_index == 0 && !final(j).playing && final(j).gain == old(j).gain
            && final(j).position == 0,
        q.action is Some && q.action->0@ == "remove"@ ==> {
            &&& r is Ok
            &&& q.index is Some && q.index->0 < old(j).playlist@.len() ==> final(j).playlist@
                == old(j).playlist@.subrange(0, q.index->0 as int) + old(j).playlist@.subrange(
                q.index->0 + 1,
                old(j).playlist@.len() as int,
            )
            &&& q.index is None || q.index->0 >= old(j).playlist@.len() ==> final(j).playlist@
                == old(j).playlist@
            &&& final(j).current_index == old(j).current_index && final(j).playing == old(j).playing && final(j).gain == old(j).gain && final(j).position == old(j).position
        },
        q.action is Some && q.action->0@ == "shuffle"@ ==> r is Ok
            && final(j).playlist@.to_multiset() == old(j).playlist@.to_multiset() && final(j).current_index == old(j).current_index && final(j).playing == old(j).playing
            && final(j).gain == old(j).gain && final(j).position == old(j).position,
        q.action is Some && q.action->0@ == "setGain"@ ==> r is Ok && final(j).gain == (
        match gain {
            Some(g) => g,
            None => old(j).gain,
        }) && final(j).playlist@ == old(j).playlist@ && final(j).current_index == old(j).current_index && final(j).playing == old(j).playing && final(j).position == old(j).position,
        q.action is Some && (q.action->0@ == "get"@ || q.action->0@ == "status"@) ==> r is Ok
            && final(j)@ == old(j)@ && r->Ok_0.with_playlist,
        r is Ok && q.action->0@ != "get"@ && q.action->0@ != "status"@ ==> !r->Ok_0.with_playlist,
        r is Err ==> final(j)@ == old(j)@ && r->Err_0.code == 0 && r->Err_0.message@
            == "Unknown jukebox action"@,
{
    proof {
        reveal_strlit("");
        assert(""@ =~= Seq::empty());
    }
    proof {
        lemma_shuffle_is_another();
        lemma_actions_differ();
        if q.index is Some && q.index->0 < j.playlist@.len() {
            assert(j.playlist@.remove(q.index->0 as int) =~= j.playlist@.subrange(
                0,
                q.index->0 as int,
            ) + j.playlist@.subrange(q.index->0 + 1, j.playlist@.len() as int));
        }
    }
    let action = match &q.action {
        Some(a) => a.as_str(),
        None => "",
    };
    if text::same(action, "set") {
        j.playlist = read_tracks(&q.id.0);
        if j.playlist.len() > 0 {
            let last: u32 = ((j.playlist.len() - 1) as u64 % 0x1_0000_0000) as u32;
            if j.current_index > last {
                j.current_index = last;
            }
        }
    } else if text::same(action, "start") {
        j.playing = true;
    } else if text::same(action, "stop") {
        j.playing = false;
    } else if text::same(action, "skip") {
        if let Some(i) = q.index {
            if j.playlist.len() > 0 {
                let last: u32 = ((j.playlist.len() - 1) as u64 % 0x1_0000_0000) as u32;
                j.current_index = if i <= last {
                    i
                } else {
                    last
                };
            }
        }
        if let Some(p) = q.offset {
            j.position = p;
        }
    } else if text::same(action, "add") {
        let mut more = read_tracks(&q.id.0);
        j.playlist.append(&mut more);
    } else if text::same(action, "clear") {
        j.playlist.clear();
        j.current_index = 0;
        j.playing = false;
        j.position = 0;
        assert(j@.playlist =~= Seq::empty());
    } else if text::same(action, "remove") {
        if let Some(i) = q.index {
            if (i as u64) < j.playlist.len() as u64 {
                j.playlist.remove(i as usize);
            }
        }
    } else if text::same(action, "shuffle") {
        shuffle(&mut j.playlist);
    } else if text::same(action, "setGain") {
        if let Some(g) = gain {
            j.gain = g;
        }
    } else if text::same(action, "get") || text::same(action, "status") {
    } else {
        return Err(Failure { code: 0, message: "Unknown jukebox action" });
    }
    let mut list: Vec<u64> = Vec::new();
    let mut i: usize = 0;
    let ghost done = *j;
    while i < j.playlist.len()
        invariant
            i <= j.playlist@.len(),
            *j == done,
            list@ =~= j.playlist@.take(i as int),
        decreases j.playlist@.len() - i,
    {
        list.push(j.playlist[i]);
        i += 1;
    }
    assert(j.playlist@.take(i as int) =~= j.playlist@);
    Ok(
        JukeboxAnswer {
            status: JukeboxStatus {
                current_index: j.current_index,
                playing: j.playing,
                gain: j.gain,
                position: j.position,
            },
            with_playlist: text::same(action, "get") || text::same(action, "status"),
            ids: list,
        },
    )
}

/// Clearing stops the jukebox and empties it, and leaves the gain as it is. What is asked for
/// after it lists nothing and shows the same state.
pub proof fn law_clearing_empties_the_jukebox(
    before: JukeboxView,
    cleared: JukeboxView,
    asked: JukeboxView,
    ids: Seq<Seq<char>>,
    index: Option<u32>,
    offset: Option<u32>,
    gain: Option<u32>,
)
    requires
        jukebox_after(before, cleared, "clear"@, ids, index, offset, gain),
        jukebox_after(cleared, asked, "get"@, ids, index, offset, gain),
    ensures
        cleared.playlist.len() == 0,
        cleared.current_index == 0,
        !cleared.playing,
        cleared.position == 0,
        cleared.gain == before.gain,
        asked == cleared,
{
    lemma_shuffle_is_another();
    reveal_strlit("clear");
    reveal_strlit("get");
    reveal_strlit("set");
    reveal_strlit("start");
    reveal_strlit("stop");
    reveal_strlit("skip");
    reveal_strlit("add");
    reveal_strlit("remove");
    reveal_strlit("setGain");
    assert("clear"@[0] == 'c' && "start"@[0] == 's');
    assert("get"@[0] == 'g' && "set"@[0] == 's' && "add"@[0] == 'a');
}

/// The reply: the state, and the songs where they were asked for.
pub fn jukebox_reply(status: JukeboxStatus, with_playlist: bool, entries: Vec<Child>) -> (r:
    JukeboxControlResponse)
    ensures
        r.status == status,
        r.playlist == (if with_playlist {
            Some(JukeboxPlaylist { entry: entries })
        } else {
            None
        }),
{
    JukeboxControlResponse {
        status,
        playlist: if with_playlist {
            Some(JukeboxPlaylist { entry: entries })
        } else {
            None
        },
    }
}

/// A shuffled list ends with the item that the next random number picks, counted from the front,
/// and begins with the others shuffled on, where the last item has taken the place of that one.
/// The numbers are those of a xorshift generator.
pub proof fn law_the_seed_picks_the_last<T>(s: Seq<T>, seed: u32)
    requires
        s.len() > 1,
    ensures
        ({
            let a = seed ^ (seed << 13u32);
            let b = a ^ (a >> 17u32);
            let x = b ^ (b << 5u32);
            let k = x as int % s.len() as int;
            &&& shuffled(s, seed).last() == s[k]
            &&& k < s.len() - 1 ==> shuffled(s, seed).drop_last() == shuffled(
                s.subrange(0, k).push(s.last()) + s.subrange(k + 1, s.len() - 1),
                x,
            )
            &&& k == s.len() - 1 ==> shuffled(s, seed).drop_last() == shuffled(s.drop_last(), x)
        }),
{
    let x = next_random(seed);
    let k = x as int % s.len() as int;
    let rest = s.update(k, s.last()).drop_last();
    assert(shuffled(s, seed).drop_last() =~= shuffled(rest, x));
    if k < s.len() - 1 {
        assert(rest =~= s.subrange(0, k).push(s.last()) + s.subrange(k + 1, s.len() - 1));
    } else {
        assert(rest =~= s.drop_last());
    }
}

/// Identifiers are read one after the other: one that names a track gives it, in its place, and
/// one that names none gives nothing.
pub proof fn law_tracks_are_read_in_order(a: Seq<Seq<char>>, b: Seq<Seq<char>>, id: Seq<char>)
    ensures
        tracks_in(a + b) == tracks_in(a) + tracks_in(b),
        tracks_in(Seq::empty()).len() == 0,
        ids::track_of(id) is Some ==> tracks_in(seq![id]) == seq![ids::track_of(id)->0 as u64],
        ids::track_of(id) is None ==> tracks_in(seq![id]).len() == 0,
    decreases b.len(),
{
    assert(seq![id].drop_last() =~= Seq::<Seq<char>>::empty());
    assert(tracks_in(Seq::<Seq<char>>::empty()) =~= Seq::empty());
    if ids::track_of(id) is Some {
        assert(tracks_in(seq![id]) =~= seq![ids::track_of(id)->0 as u64]);
    }
    if b.len() == 0 {
        assert(a + b =~= a);
        assert(tracks_in(a) + tracks_in(b) =~= tracks_in(a));
    } else {
        law_tracks_are_read_in_order(a, b.drop_last(), id);
        assert((a + b).drop_last() =~= a + b.drop_last());
        assert((a + b).last() == b.last());
        assert(tracks_in(a + b) =~= tracks_in(a) + tracks_in(b));
    }
}

} // verus!
