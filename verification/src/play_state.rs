//! What is remembered of playback: the saved queue, the bookmarks, and how often albums were
//! played. The server has one user, so there is one of each.

use crate::json;
use crate::json::Json;
use crate::models::song::Child;
use crate::order::{comes_before, stable_order, Ranked, Then};
use std::collections::BTreeMap;
use vstd::std_specs::cmp::OrdSpec;
use vstd::std_specs::iter::IteratorSpec;
use vstd::prelude::*;

verus! {

broadcast use vstd::std_specs::btree::group_btree_axioms;

/// The saved queue.
///
/// The current song is held as its number and as its place in the queue: a place worked out
/// from the number would shift where songs repeat or are gone.
#[derive(Debug)]
pub struct PlayQueue {
    pub track_ids: Vec<u64>,
    pub current: Option<u64>,
    pub current_index: Option<usize>,
    pub position_ms: u64,
    pub username: String,
    pub changed_by: String,
    pub changed_ms: i64,
}

/// The queue as it is served: the numbers it was built from, the songs, and the places of the
/// numbers that have no song any more.
#[derive(Debug)]
pub struct ResolvedQueue {
    pub for_ids: Vec<u64>,
    pub entries: Vec<Child>,
    pub dropped_positions: Vec<usize>,
}

/// A place inside a track.
#[derive(Debug)]
pub struct Bookmark {
    pub track_id: u64,
    pub position_ms: u64,
    pub comment: String,
    pub username: String,
    pub created_ms: i64,
    pub changed_ms: i64,
}

impl Bookmark {
    /// The same bookmark again.
    pub fn copy(&self) -> (r: Bookmark)
        ensures
            r == *self,
    {
        Bookmark {
            track_id: self.track_id,
            position_ms: self.position_ms,
            comment: self.comment.clone(),
            username: self.username.clone(),
            created_ms: self.created_ms,
            changed_ms: self.changed_ms,
        }
    }
}

/// How often and when an album was played.
#[derive(Debug, Clone, Copy, PartialEq, Eq, Structural)]
pub struct PlayRecord {
    pub album_id: u64,
    pub play_count: u32,
    pub last_played_ms: i64,
}

/// How many albums are remembered before the one not played for longest is dropped.
pub const HISTORY_CAP: usize = 500;

/// What is kept over a restart: all but the songs of the queue, which are fetched again.
#[derive(Debug)]
pub struct Persisted {
    pub queue: Option<PlayQueue>,
    pub bookmarks: Vec<Bookmark>,
    pub history: Vec<PlayRecord>,
}

/// All that is remembered of playback.
#[derive(Debug)]
pub struct PlayState {
    pub queue: Option<PlayQueue>,
    pub resolved: Option<ResolvedQueue>,
    pub bookmarks: BTreeMap<u64, Bookmark>,
    pub history: BTreeMap<u64, PlayRecord>,
    /// Whether changes are kept over a restart.
    pub persist: bool,
    /// How many snapshots were taken.
    pub generation: u64,
}

impl PlayState {
    /// Everything is filed under its own number.
    pub open spec fn wf(&self) -> bool {
        &&& forall|k: u64| #[trigger]
            self.bookmarks@.contains_key(k) ==> self.bookmarks@[k].track_id == k
        &&& forall|k: u64| #[trigger]
            self.history@.contains_key(k) ==> self.history@[k].album_id == k
    }
}

/// The numbers that a map has something for, in ascending order.
fn sorted_keys<V>(m: &BTreeMap<u64, V>) -> (r: Vec<u64>)
    ensures
        r@.len() == m@.dom().len(),
        forall|i: int| 0 <= i < r@.len() ==> m@.contains_key(#[trigger] r@[i]),
        forall|i: int, j: int| 0 <= i < j < r@.len() ==> r@[i] < r@[j],
{
    let mut out: Vec<u64> = Vec::new();
    let entries = m.iter();
    let ghost all = IteratorSpec::remaining(&entries);
    let ghost keys = all.map_values(|e: (&u64, &V)| *e.0);
    proof {
        assert(vstd::std_specs::btree::increasing_seq(keys));
        assert forall|i: int, j: int| 0 <= i < j < all.len() implies *all[i].0 < *all[j].0 by {
            assert(keys[i].cmp_spec(&keys[j]) is Less);
        }
    }
    for e in it: entries
        invariant
            it.seq() == all,
            all.len() == m@.dom().len(),
            out@.len() == it.index(),
            forall|i: int| 0 <= i < all.len() ==> m@.contains_key(*(#[trigger] all[i]).0),
            forall|i: int, j: int| 0 <= i < j < all.len() ==> *all[i].0 < *all[j].0,
            forall|i: int| 0 <= i < it.index() ==> out@[i] == *all[i].0,
    {
        out.push(*e.0);
    }
    out
}

/// Nothing is remembered, and nothing is kept over a restart.
pub fn empty_state() -> (r: PlayState)
    ensures
        r.wf(),
        r.queue is None,
        r.resolved is None,
        r.bookmarks@ == Map::<u64, Bookmark>::empty(),
        r.history@ == Map::<u64, PlayRecord>::empty(),
        !r.persist,
        r.generation == 0,
{
    PlayState {
        queue: None,
        resolved: None,
        bookmarks: BTreeMap::new(),
        history: BTreeMap::new(),
        persist: false,
        generation: 0,
    }
}

/// The bookmarks of a list under their numbers; of two with one number the later counts.
pub open spec fn filed_bookmarks(v: Seq<Bookmark>) -> Map<u64, Bookmark>
    decreases v.len(),
{
    if v.len() == 0 {
        Map::empty()
    } else {
        filed_bookmarks(v.drop_last()).insert(v.last().track_id, v.last())
    }
}

/// The records of a list under their numbers; of two with one number the later counts.
pub open spec fn filed_records(v: Seq<PlayRecord>) -> Map<u64, PlayRecord>
    decreases v.len(),
{
    if v.len() == 0 {
        Map::empty()
    } else {
        filed_records(v.drop_last()).insert(v.last().album_id, v.last())
    }
}

/// Takes up what was kept over a restart, where there is something, and keeps changes from now
/// on.
pub fn init(stored: Option<Persisted>) -> (r: PlayState)
    ensures
        r.wf(),
        r.persist,
        r.generation == 0,
        r.resolved is None,
        match stored {
            Some(p) => {
                &&& r.queue == p.queue
                &&& r.bookmarks@ == filed_bookmarks(p.bookmarks@)
                &&& r.history@ == filed_records(p.history@)
            },
            None => {
                &&& r.queue is None
                &&& r.bookmarks@ == Map::<u64, Bookmark>::empty()
                &&& r.history@ == Map::<u64, PlayRecord>::empty()
            },
        },
{
    let mut state = empty_state();
    state.persist = true;
    match stored {
        Some(p) => {
            let mut i: usize = 0;
            assert(p.bookmarks@.take(0) =~= Seq::empty());
            while i < p.bookmarks.len()
                invariant
                    i <= p.bookmarks@.len(),
                    state.wf(),
                    state.persist,
                    state.generation == 0,
                    state.resolved is None,
                    state.bookmarks@ == filed_bookmarks(p.bookmarks@.take(i as int)),
                    state.history@ == Map::<u64, PlayRecord>::empty(),
                decreases p.bookmarks@.len() - i,
            {
                assert(p.bookmarks@.take(i + 1).drop_last() =~= p.bookmarks@.take(i as int));
                let b = p.bookmarks[i].copy();
                state.bookmarks.insert(b.track_id, b);
                i += 1;
            }
            assert(p.bookmarks@.take(p.bookmarks@.len() as int) =~= p.bookmarks@);
            let mut j: usize = 0;
            assert(p.history@.take(0) =~= Seq::empty());
            while j < p.history.len()
                invariant
                    j <= p.history@.len(),
                    state.wf(),
                    state.persist,
                    state.generation == 0,
                    state.resolved is None,
                    state.bookmarks@ == filed_bookmarks(p.bookmarks@),
                    state.history@ == filed_records(p.history@.take(j as int)),
                decreases p.history@.len() - j,
            {
                assert(p.history@.take(j + 1).drop_last() =~= p.history@.take(j as int));
                let h = p.history[j];
                state.history.insert(h.album_id, h);
                j += 1;
            }
            assert(p.history@.take(p.history@.len() as int) =~= p.history@);
            state.queue = p.queue;
        },
        None => {},
    }
    state
}

/// Saves the queue; an empty one clears what was saved.
pub fn save_queue(state: &mut PlayState, queue: PlayQueue)
    ensures
        final(state).queue == (if queue.track_ids@.len() == 0 {
            None
        } else {
            Some(queue)
        }),
        final(state).resolved == old(state).resolved,
        final(state).bookmarks == old(state).bookmarks,
        final(state).history == old(state).history,
        final(state).persist == old(state).persist,
        final(state).generation == old(state).generation,
{
    state.queue = if queue.track_ids.len() == 0 {
        None
    } else {
        Some(queue)
    };
}

/// The saved queue.
pub fn queue(state: &PlayState) -> (r: Option<&PlayQueue>)
    ensures
        r == (match state.queue {
            Some(q) => Some(&q),
            None => None,
        }),
{
    state.queue.as_ref()
}

/// Replaces the queue as it is served.
pub fn save_resolved(state: &mut PlayState, resolved: Option<ResolvedQueue>)
    ensures
        final(state).resolved == resolved,
        final(state).queue == old(state).queue,
        final(state).bookmarks == old(state).bookmarks,
        final(state).history == old(state).history,
        final(state).persist == old(state).persist,
        final(state).generation == old(state).generation,
{
    state.resolved = resolved;
}

/// The queue as it is served.
pub fn resolved(state: &PlayState) -> (r: Option<&ResolvedQueue>)
    ensures
        r == (match state.resolved {
            Some(q) => Some(&q),
            None => None,
        }),
{
    state.resolved.as_ref()
}

/// The bookmark that a change leaves: one that was there keeps the time it was made.
pub open spec fn changed_bookmark(
    before: Map<u64, Bookmark>,
    track_id: u64,
    position_ms: u64,
    comment: String,
    username: String,
    now: i64,
) -> Bookmark {
    Bookmark {
        track_id,
        position_ms,
        comment,
        username,
        created_ms: if before.contains_key(track_id) {
            before[track_id].created_ms
        } else {
            now
        },
        changed_ms: now,
    }
}

/// Makes a bookmark, or changes the one that is there.
pub fn upsert_bookmark(
    state: &mut PlayState,
    track_id: u64,
    position_ms: u64,
    comment: String,
    username: String,
    now: i64,
)
    requires
        old(state).wf(),
    ensures
        final(state).wf(),
        final(state).bookmarks@ == old(state).bookmarks@.insert(
            track_id,
            changed_bookmark(
                old(state).bookmarks@,
                track_id,
                position_ms,
                comment,
                username,
                now,
            ),
        ),
        final(state).bookmarks@.contains_key(track_id),
        final(state).bookmarks@[track_id].position_ms == position_ms,
        final(state).bookmarks@[track_id].comment == comment,
        final(state).bookmarks@[track_id].username == username,
        final(state).bookmarks@[track_id].changed_ms == now,
        old(state).bookmarks@.contains_key(track_id) ==> final(state).bookmarks@[track_id].created_ms
            == old(state).bookmarks@[track_id].created_ms,
        !old(state).bookmarks@.contains_key(track_id) ==> final(state).bookmarks@[track_id].created_ms
            == now,
        forall|k: u64|
            k != track_id ==> (#[trigger] final(state).bookmarks@.contains_key(k) <==> old(state).bookmarks@.contains_key(k)),
        forall|k: u64|
            k != track_id && old(state).bookmarks@.contains_key(k) ==> #[trigger] final(state).bookmarks@[k] == old(state).bookmarks@[k],
        final(state).queue == old(state).queue,
        final(state).resolved == old(state).resolved,
        final(state).history == old(state).history,
        final(state).persist == old(state).persist,
        final(state).generation == old(state).generation,
{
    let created_ms: i64 = match state.bookmarks.get(&track_id) {
        Some(b) => b.created_ms,
        None => now,
    };
    state.bookmarks.insert(
        track_id,
        Bookmark { track_id, position_ms, comment, username, created_ms, changed_ms: now },
    );
}

/// Removes a bookmark, and says whether there was one.
pub fn delete_bookmark(state: &mut PlayState, track_id: u64) -> (r: bool)
    requires
        old(state).wf(),
    ensures
        final(state).wf(),
        r == old(state).bookmarks@.contains_key(track_id),
        final(state).bookmarks@ == old(state).bookmarks@.remove(track_id),
        final(state).queue == old(state).queue,
        final(state).resolved == old(state).resolved,
        final(state).history == old(state).history,
        final(state).persist == old(state).persist,
        final(state).generation == old(state).generation,
{
    state.bookmarks.remove(&track_id).is_some()
}

/// The older of two bookmarks comes first, and the one with the smaller number of two that are
/// of the same age.
pub open spec fn older(a: Bookmark, b: Bookmark) -> bool {
    a.created_ms < b.created_ms || (a.created_ms == b.created_ms && a.track_id < b.track_id)
}

/// The list holds every bookmark once, oldest first.
pub open spec fn lists_bookmarks(m: Map<u64, Bookmark>, r: Seq<Bookmark>) -> bool {
    &&& r.len() == m.dom().len()
    &&& forall|i: int|
        0 <= i < r.len() ==> m.contains_key((#[trigger] r[i]).track_id) && m[r[i].track_id] == r[i]
    &&& forall|i: int, j: int| 0 <= i < j < r.len() ==> older(#[trigger] r[i], #[trigger] r[j])
}

/// All bookmarks, oldest first.
pub fn bookmarks(state: &PlayState) -> (r: Vec<Bookmark>)
    requires
        state.wf(),
    ensures
        lists_bookmarks(state.bookmarks@, r@),
        r@.len() == state.bookmarks@.dom().len(),
        forall|i: int|
            0 <= i < r@.len() ==> state.bookmarks@.contains_key((#[trigger] r@[i]).track_id)
                && state.bookmarks@[r@[i].track_id] == r@[i],
        forall|i: int, j: int|
            0 <= i < j < r@.len() ==> (#[trigger] r@[i]).created_ms <= (#[trigger] r@[j]).created_ms
                && r@[i].track_id != r@[j].track_id,
        forall|i: int, j: int|
            0 <= i < j < r@.len() && (#[trigger] r@[i]).created_ms == (#[trigger] r@[j]).created_ms
                ==> r@[i].track_id < r@[j].track_id,
{
    let ids = sorted_keys(&state.bookmarks);
    let mut keys: Vec<i128> = Vec::new();
    let mut i: usize = 0;
    while i < ids.len()
        invariant
            i <= ids@.len(),
            keys@.len() == i,
            forall|j: int| 0 <= j < ids@.len() ==> state.bookmarks@.contains_key(#[trigger] ids@[j]),
            forall|j: int|
                0 <= j < i ==> #[trigger] keys@[j] == state.bookmarks@[ids@[j]].created_ms,
        decreases ids@.len() - i,
    {
        assert(state.bookmarks@.contains_key(ids@[i as int]));
        match state.bookmarks.get(&ids[i]) {
            Some(b) => keys.push(b.created_ms as i128),
            None => {
                assert(false);
            },
        }
        i += 1;
    }
    let order = stable_order(&keys);
    let mut out: Vec<Bookmark> = Vec::new();
    let mut k: usize = 0;
    while k < order.len()
        invariant
            k <= order@.len(),
            out@.len() == k,
            order@.len() == ids@.len(),
            forall|j: int| 0 <= j < order@.len() ==> (#[trigger] order@[j]) < ids@.len(),
            forall|j: int| 0 <= j < ids@.len() ==> state.bookmarks@.contains_key(#[trigger] ids@[j]),
            forall|j: int|
                0 <= j < k ==> #[trigger] out@[j] == state.bookmarks@[ids@[order@[j] as int]],
        decreases order@.len() - k,
    {
        let id: u64 = ids[order[k]];
        assert(state.bookmarks@.contains_key(ids@[order@[k as int] as int]));
        match state.bookmarks.get(&id) {
            Some(b) => out.push(b.copy()),
            None => {
                assert(false);
            },
        }
        k += 1;
    }
    proof {
        assert forall|a: int, b: int| 0 <= a < b < out@.len() implies older(
            #[trigger] out@[a],
            #[trigger] out@[b],
        ) by {
            let x = order@[a] as int;
            let y = order@[b] as int;
            assert(order@[a] != order@[b] && comes_before(keys@, x, y));
            assert(keys@[x] <= keys@[y]);
            assert(state.bookmarks@.contains_key(ids@[x]) && state.bookmarks@.contains_key(ids@[y]));
            if keys@[x] == keys@[y] {
                assert(x < y);
                assert(ids@[x] < ids@[y]);
            }
        }
        assert forall|a: int, b: int| 0 <= a < b < out@.len() implies (
        #[trigger] out@[a]).created_ms <= (#[trigger] out@[b]).created_ms && out@[a].track_id
            != out@[b].track_id by {
            assert(older(out@[a], out@[b]));
            let x = order@[a] as int;
            let y = order@[b] as int;
            assert(state.bookmarks@.contains_key(ids@[x]) && state.bookmarks@.contains_key(ids@[y]));
        }
    }
    out
}

/// The record of an album after one more play.
pub open spec fn played_once_more(before: Map<u64, PlayRecord>, album_id: u64, now: i64) -> PlayRecord {
    let count = if before.contains_key(album_id) {
        before[album_id].play_count
    } else {
        0
    };
    PlayRecord {
        album_id,
        play_count: if count == u32::MAX {
            u32::MAX
        } else {
            (count + 1) as u32
        },
        last_played_ms: now,
    }
}

/// The album was not played for longest; of several such it has the smallest number.
pub open spec fn is_least_recent(m: Map<u64, PlayRecord>, k: u64) -> bool {
    &&& m.contains_key(k)
    &&& forall|o: u64| #[trigger]
        m.contains_key(o) ==> m[k].last_played_ms < m[o].last_played_ms || (m[k].last_played_ms
            == m[o].last_played_ms && k <= o)
}

/// The album not played for longest.
fn least_recent(m: &BTreeMap<u64, PlayRecord>) -> (r: u64)
    requires
        m@.dom().len() > 0,
    ensures
        is_least_recent(m@, r),
{
    let ids = sorted_keys(m);
    let mut best: u64 = ids[0];
    let mut i: usize = 1;
    assert(m@.contains_key(ids@[0]));
    while i < ids.len()
        invariant
            1 <= i <= ids@.len(),
            m@.contains_key(best),
            forall|j: int| 0 <= j < ids@.len() ==> m@.contains_key(#[trigger] ids@[j]),
            forall|a: int, b: int| 0 <= a < b < ids@.len() ==> ids@[a] < ids@[b],
            exists|j: int| 0 <= j < i && #[trigger] ids@[j] == best,
            forall|j: int|
                0 <= j < i ==> m@[best].last_played_ms < m@[#[trigger] ids@[j]].last_played_ms || (
                m@[best].last_played_ms == m@[ids@[j]].last_played_ms && best <= ids@[j]),
        decreases ids@.len() - i,
    {
        assert(m@.contains_key(ids@[i as int]));
        let candidate: u64 = ids[i];
        match (m.get(&candidate), m.get(&best)) {
            (Some(c), Some(b)) => {
                if c.last_played_ms < b.last_played_ms {
                    best = candidate;
                    assert(ids@[i as int] == best);
                }
            },
            _ => {
                assert(false);
            },
        }
        i += 1;
    }
    proof {
        assert forall|o: u64| #[trigger] m@.contains_key(o) implies m@[best].last_played_ms
            < m@[o].last_played_ms || (m@[best].last_played_ms == m@[o].last_played_ms && best
            <= o) by {
            lemma_all_listed(m@.dom(), ids@, o);
        }
    }
    best
}

/// A list of as many different members as a set has holds all of them.
proof fn lemma_all_listed(s: Set<u64>, v: Seq<u64>, o: u64)
    requires
        s.finite(),
        s.contains(o),
        v.len() == s.len(),
        forall|i: int| 0 <= i < v.len() ==> s.contains(#[trigger] v[i]),
        forall|i: int, j: int| 0 <= i < j < v.len() ==> v[i] < v[j],
    ensures
        exists|i: int| 0 <= i < v.len() && #[trigger] v[i] == o,
{
    assert(v.no_duplicates());
    v.unique_seq_to_set();
    let t = v.to_set();
    assert(t.subset_of(s));
    vstd::set_lib::lemma_subset_equality(t, s);
    assert(t.contains(o));
}

/// The history after an album was played: the album counts one play more, and past the limit
/// the album not played for longest is dropped.
pub open spec fn history_after(before: Map<u64, PlayRecord>, after: Map<u64, PlayRecord>, album_id: u64, now: i64) -> bool {
    let m = before.insert(album_id, played_once_more(before, album_id, now));
    if m.dom().len() > HISTORY_CAP {
        exists|k: u64| #[trigger] is_least_recent(m, k) && after == m.remove(k)
    } else {
        after == m
    }
}

/// Counts one play of an album.
pub fn record_play(state: &mut PlayState, album_id: u64, now: i64)
    requires
        old(state).wf(),
    ensures
        final(state).wf(),
        history_after(old(state).history@, final(state).history@, album_id, now),
        final(state).queue == old(state).queue,
        final(state).resolved == old(state).resolved,
        final(state).bookmarks == old(state).bookmarks,
        final(state).persist == old(state).persist,
        final(state).generation == old(state).generation,
{
    let count: u32 = match state.history.get(&album_id) {
        Some(h) => h.play_count,
        None => 0,
    };
    let play_count: u32 = if count == u32::MAX {
        count
    } else {
        count + 1
    };
    let record = PlayRecord { album_id, play_count, last_played_ms: now };
    state.history.insert(album_id, record);
    if state.history.len() > HISTORY_CAP {
        let oldest: u64 = least_recent(&state.history);
        state.history.remove(&oldest);
    }
}

/// Counts one play of the album of a track, where the track names one.
pub fn record_play_from_track(state: &mut PlayState, track: &Json, now: i64)
    requires
        old(state).wf(),
    ensures
        final(state).wf(),
        match json::number(json::field2(*track, "album"@, "id"@)) {
            Some(id) => history_after(old(state).history@, final(state).history@, id, now),
            None => final(state).history == old(state).history,
        },
        final(state).queue == old(state).queue,
        final(state).resolved == old(state).resolved,
        final(state).bookmarks == old(state).bookmarks,
        final(state).persist == old(state).persist,
        final(state).generation == old(state).generation,
{
    if let Some(id) = json::as_u64(track.get2("album", "id")) {
        record_play(state, id, now);
    }
}

/// The album played later comes first, and the one with the smaller number of two played at the
/// same time.
pub open spec fn more_recent(a: PlayRecord, b: PlayRecord) -> bool {
    a.last_played_ms > b.last_played_ms || (a.last_played_ms == b.last_played_ms && a.album_id
        < b.album_id)
}

/// The album played more often comes first, and the more recent of two played equally often.
pub open spec fn more_frequent(a: PlayRecord, b: PlayRecord) -> bool {
    a.play_count > b.play_count || (a.play_count == b.play_count && more_recent(a, b))
}

/// The list holds every record once.
pub open spec fn lists_records(m: Map<u64, PlayRecord>, r: Seq<PlayRecord>) -> bool {
    &&& r.len() == m.dom().len()
    &&& forall|i: int|
        0 <= i < r.len() ==> m.contains_key((#[trigger] r[i]).album_id) && m[r[i].album_id] == r[i]
}

/// The records in the order of their numbers.
fn records(state: &PlayState) -> (r: Vec<PlayRecord>)
    requires
        state.wf(),
    ensures
        lists_records(state.history@, r@),
        forall|i: int, j: int| 0 <= i < j < r@.len() ==> r@[i].album_id < r@[j].album_id,
{
    let ids = sorted_keys(&state.history);
    let mut out: Vec<PlayRecord> = Vec::new();
    let mut i: usize = 0;
    while i < ids.len()
        invariant
            i <= ids@.len(),
            out@.len() == i,
            state.wf(),
            forall|j: int| 0 <= j < ids@.len() ==> state.history@.contains_key(#[trigger] ids@[j]),
            forall|j: int|
                0 <= j < i ==> #[trigger] out@[j] == state.history@[ids@[j]] && out@[j].album_id
                    == ids@[j],
        decreases ids@.len() - i,
    {
        assert(state.history@.contains_key(ids@[i as int]));
        match state.history.get(&ids[i]) {
            Some(h) => out.push(*h),
            None => {
                assert(false);
            },
        }
        i += 1;
    }
    out
}

/// The records at these places.
fn in_order(all: &Vec<PlayRecord>, order: &Vec<usize>) -> (r: Vec<PlayRecord>)
    requires
        forall|j: int| 0 <= j < order@.len() ==> (#[trigger] order@[j]) < all@.len(),
    ensures
        r@.len() == order@.len(),
        forall|j: int| 0 <= j < r@.len() ==> #[trigger] r@[j] == all@[order@[j] as int],
{
    let mut out: Vec<PlayRecord> = Vec::new();
    let mut k: usize = 0;
    while k < order.len()
        invariant
            k <= order@.len(),
            out@.len() == k,
            forall|j: int| 0 <= j < order@.len() ==> (#[trigger] order@[j]) < all@.len(),
            forall|j: int| 0 <= j < k ==> #[trigger] out@[j] == all@[order@[j] as int],
        decreases order@.len() - k,
    {
        out.push(all[order[k]]);
        k += 1;
    }
    out
}

/// The albums that were played, the most recent first.
pub fn recent_albums(state: &PlayState) -> (r: Vec<PlayRecord>)
    requires
        state.wf(),
    ensures
        lists_records(state.history@, r@),
        forall|i: int, j: int|
            0 <= i < j < r@.len() ==> more_recent(#[trigger] r@[i], #[trigger] r@[j]),
        r@.len() == state.history@.dom().len(),
        forall|i: int|
            0 <= i < r@.len() ==> state.history@.contains_key((#[trigger] r@[i]).album_id)
                && state.history@[r@[i].album_id] == r@[i],
        forall|i: int, j: int|
            0 <= i < j < r@.len() ==> (#[trigger] r@[i]).last_played_ms >= (
            #[trigger] r@[j]).last_played_ms,
        forall|i: int, j: int|
            0 <= i < j < r@.len() && (#[trigger] r@[i]).last_played_ms == (
            #[trigger] r@[j]).last_played_ms ==> r@[i].album_id < r@[j].album_id,
{
    let all = records(state);
    let mut keys: Vec<i128> = Vec::new();
    let mut i: usize = 0;
    while i < all.len()
        invariant
            i <= all@.len(),
            keys@.len() == i,
            forall|j: int| 0 <= j < i ==> #[trigger] keys@[j] == -all@[j].last_played_ms,
        decreases all@.len() - i,
    {
        keys.push(-(all[i].last_played_ms as i128));
        i += 1;
    }
    let order = stable_order(&keys);
    let out = in_order(&all, &order);
    proof {
        assert forall|a: int, b: int| 0 <= a < b < out@.len() implies more_recent(
            #[trigger] out@[a],
            #[trigger] out@[b],
        ) by {
            let x = order@[a] as int;
            let y = order@[b] as int;
            assert(order@[a] != order@[b] && comes_before(keys@, x, y));
            assert(keys@[x] <= keys@[y]);
        }
    }
    out
}

/// The albums that were played, the most often played first.
pub fn frequent_albums(state: &PlayState) -> (r: Vec<PlayRecord>)
    requires
        state.wf(),
    ensures
        lists_records(state.history@, r@),
        forall|i: int, j: int|
            0 <= i < j < r@.len() ==> more_frequent(#[trigger] r@[i], #[trigger] r@[j]),
        r@.len() == state.history@.dom().len(),
        forall|i: int|
            0 <= i < r@.len() ==> state.history@.contains_key((#[trigger] r@[i]).album_id)
                && state.history@[r@[i].album_id] == r@[i],
        forall|i: int, j: int|
            0 <= i < j < r@.len() ==> (#[trigger] r@[i]).play_count >= (#[trigger] r@[j]).play_count,
        forall|i: int, j: int|
            0 <= i < j < r@.len() && (#[trigger] r@[i]).play_count == (#[trigger] r@[j]).play_count
                ==> r@[i].last_played_ms >= r@[j].last_played_ms,
        forall|i: int, j: int|
            0 <= i < j < r@.len() && (#[trigger] r@[i]).play_count == (#[trigger] r@[j]).play_count
                && r@[i].last_played_ms == r@[j].last_played_ms ==> r@[i].album_id < r@[j].album_id,
{
    let all = records(state);
    let mut keys: Vec<Then<i128, i128>> = Vec::new();
    let mut i: usize = 0;
    while i < all.len()
        invariant
            i <= all@.len(),
            keys@.len() == i,
            forall|j: int|
                0 <= j < i ==> (#[trigger] keys@[j]).0 == -all@[j].play_count && keys@[j].1
                    == -all@[j].last_played_ms,
        decreases all@.len() - i,
    {
        keys.push(Then(-(all[i].play_count as i128), -(all[i].last_played_ms as i128)));
        i += 1;
    }
    let order = stable_order(&keys);
    let out = in_order(&all, &order);
    proof {
        assert forall|a: int, b: int| 0 <= a < b < out@.len() implies more_frequent(
            #[trigger] out@[a],
            #[trigger] out@[b],
        ) by {
            let x = order@[a] as int;
            let y = order@[b] as int;
            assert(order@[a] != order@[b] && comes_before(keys@, x, y));
            assert(keys@[x].at_most(&keys@[y]));
            assert(keys@[x].0 <= keys@[y].0);
        }
    }
    out
}

/// How often an album was played.
pub open spec fn plays(m: Map<u64, PlayRecord>, album_id: u64) -> u32 {
    if m.contains_key(album_id) {
        m[album_id].play_count
    } else {
        0
    }
}

/// How often an album was played.
pub fn play_count(state: &PlayState, album_id: u64) -> (r: u32)
    ensures
        r == plays(state.history@, album_id),
        state.history@.contains_key(album_id) ==> r == state.history@[album_id].play_count,
        !state.history@.contains_key(album_id) ==> r == 0,
{
    match state.history.get(&album_id) {
        Some(h) => h.play_count,
        None => 0,
    }
}

/// Forgets the queue, the bookmarks and the history.
pub fn reset(state: &mut PlayState)
    ensures
        final(state).wf(),
        final(state).queue is None,
        final(state).resolved is None,
        final(state).bookmarks@ == Map::<u64, Bookmark>::empty(),
        final(state).history@ == Map::<u64, PlayRecord>::empty(),
        final(state).persist == old(state).persist,
        final(state).generation == old(state).generation,
{
    state.queue = None;
    state.resolved = None;
    state.bookmarks.clear();
    state.history.clear();
}

impl PlayQueue {
    /// The same queue, field by field.
    pub open spec fn same_as(self, other: PlayQueue) -> bool {
        &&& self.track_ids@ == other.track_ids@
        &&& self.current == other.current
        &&& self.current_index == other.current_index
        &&& self.position_ms == other.position_ms
        &&& self.username == other.username
        &&& self.changed_by == other.changed_by
        &&& self.changed_ms == other.changed_ms
    }

    /// The same queue again.
    pub fn copy(&self) -> (r: PlayQueue)
        ensures
            r.same_as(*self),
            r.track_ids@ == self.track_ids@,
            r.current == self.current,
            r.current_index == self.current_index,
            r.position_ms == self.position_ms,
            r.username == self.username,
            r.changed_by == self.changed_by,
            r.changed_ms == self.changed_ms,
    {
        let mut track_ids: Vec<u64> = Vec::new();
        let mut i: usize = 0;
        while i < self.track_ids.len()
            invariant
                i <= self.track_ids@.len(),
                track_ids@ =~= self.track_ids@.take(i as int),
            decreases self.track_ids@.len() - i,
        {
            track_ids.push(self.track_ids[i]);
            i += 1;
        }
        assert(self.track_ids@.take(i as int) =~= self.track_ids@);
        PlayQueue {
            track_ids,
            current: self.current,
            current_index: self.current_index,
            position_ms: self.position_ms,
            username: self.username.clone(),
            changed_by: self.changed_by.clone(),
            changed_ms: self.changed_ms,
        }
    }
}

/// An optional queue is the same as another.
pub open spec fn same_queue(a: Option<PlayQueue>, b: Option<PlayQueue>) -> bool {
    match (a, b) {
        (Some(x), Some(y)) => x.same_as(y),
        (None, None) => true,
        _ => false,
    }
}

/// The snapshot holds what is kept over a restart.
pub open spec fn is_snapshot(p: Persisted, state: PlayState) -> bool {
    &&& same_queue(p.queue, state.queue)
    &&& lists_bookmarks(state.bookmarks@, p.bookmarks@)
    &&& lists_records(state.history@, p.history@)
    &&& forall|i: int, j: int|
        0 <= i < j < p.history@.len() ==> p.history@[i].album_id < p.history@[j].album_id
}

/// Takes a snapshot to be kept over a restart, where that is wanted, with a number that is
/// greater than that of every earlier one.
pub fn persist(state: &mut PlayState) -> (r: Option<(u64, Persisted)>)
    requires
        old(state).wf(),
        old(state).generation < u64::MAX,
    ensures
        final(state).wf(),
        final(state).queue == old(state).queue,
        final(state).resolved == old(state).resolved,
        final(state).bookmarks == old(state).bookmarks,
        final(state).history == old(state).history,
        final(state).persist == old(state).persist,
        match r {
            Some((number, p)) => {
                &&& old(state).persist
                &&& number == old(state).generation + 1
                &&& final(state).generation == number
                &&& is_snapshot(p, *old(state))
            },
            None => !old(state).persist && final(state).generation == old(state).generation,
        },
        r is Some ==> {
            let (number, p) = r->0;
            &&& p.queue is Some <==> old(state).queue is Some
            &&& p.queue is Some ==> {
                &&& p.queue->0.track_ids@ == old(state).queue->0.track_ids@
                &&& p.queue->0.current == old(state).queue->0.current
                &&& p.queue->0.current_index == old(state).queue->0.current_index
                &&& p.queue->0.position_ms == old(state).queue->0.position_ms
                &&& p.queue->0.username == old(state).queue->0.username
                &&& p.queue->0.changed_by == old(state).queue->0.changed_by
                &&& p.queue->0.changed_ms == old(state).queue->0.changed_ms
            }
            &&& p.bookmarks@.len() == old(state).bookmarks@.dom().len()
            &&& p.history@.len() == old(state).history@.dom().len()
            &&& forall|i: int|
                0 <= i < p.bookmarks@.len() ==> old(state).bookmarks@.contains_key(
                    (#[trigger] p.bookmarks@[i]).track_id,
                ) && old(state).bookmarks@[p.bookmarks@[i].track_id] == p.bookmarks@[i]
            &&& forall|i: int|
                0 <= i < p.history@.len() ==> old(state).history@.contains_key(
                    (#[trigger] p.history@[i]).album_id,
                ) && old(state).history@[p.history@[i].album_id] == p.history@[i]
        },
{
    if !state.persist {
        return None;
    }
    let queue = match &state.queue {
        Some(q) => Some(q.copy()),
        None => None,
    };
    let bookmarks = bookmarks(state);
    let history = records(state);
    state.generation = state.generation + 1;
    Some((state.generation, Persisted { queue, bookmarks, history }))
}

/// Whether a snapshot is to be written, after one with the number `written` was. Writes may
/// finish out of order, so one that comes late is left out.
pub fn should_write(written: u64, number: u64) -> (r: bool)
    ensures
        r == (number > written),
{
    number > written
}

/// The number of the snapshot on disk after writes were tried in this order.
pub open spec fn written_after(start: u64, numbers: Seq<u64>) -> u64
    decreases numbers.len(),
{
    if numbers.len() == 0 {
        start
    } else {
        let before = written_after(start, numbers.drop_last());
        if numbers.last() > before {
            numbers.last()
        } else {
            before
        }
    }
}

/// In whatever order the writes run, the newest snapshot is the one that stays.
pub proof fn law_newest_snapshot_stays(start: u64, numbers: Seq<u64>)
    ensures
        written_after(start, numbers) >= start,
        forall|i: int| 0 <= i < numbers.len() ==> written_after(start, numbers) >= numbers[i],
        written_after(start, numbers) == start || numbers.contains(written_after(start, numbers)),
    decreases numbers.len(),
{
    if numbers.len() > 0 {
        let rest = numbers.drop_last();
        law_newest_snapshot_stays(start, rest);
        assert forall|i: int| 0 <= i < numbers.len() implies written_after(start, numbers)
            >= numbers[i] by {
            if i < rest.len() {
                assert(rest[i] == numbers[i]);
            }
        }
        let w = written_after(start, numbers);
        if w == numbers.last() {
            assert(numbers[numbers.len() - 1] == w);
        } else if rest.contains(w) {
            let i = choose|i: int| 0 <= i < rest.len() && rest[i] == w;
            assert(numbers[i] == w);
        }
    }
}

proof fn lemma_filed_bookmarks(v: Seq<Bookmark>)
    requires
        forall|i: int, j: int|
            0 <= i < j < v.len() ==> (#[trigger] v[i]).track_id != (#[trigger] v[j]).track_id,
    ensures
        filed_bookmarks(v).dom().finite(),
        filed_bookmarks(v).dom().len() == v.len(),
        forall|i: int|
            0 <= i < v.len() ==> filed_bookmarks(v).contains_key((#[trigger] v[i]).track_id)
                && filed_bookmarks(v)[v[i].track_id] == v[i],
        forall|k: u64| #[trigger]
            filed_bookmarks(v).contains_key(k) ==> exists|i: int|
                0 <= i < v.len() && (#[trigger] v[i]).track_id == k,
    decreases v.len(),
{
    if v.len() > 0 {
        let w = v.drop_last();
        lemma_filed_bookmarks(w);
        let last = v.last();
        assert(!filed_bookmarks(w).contains_key(last.track_id)) by {
            if filed_bookmarks(w).contains_key(last.track_id) {
                let i = choose|i: int|
                    0 <= i < w.len() && (#[trigger] w[i]).track_id == last.track_id;
                assert(v[i].track_id == v[v.len() - 1].track_id);
            }
        }
        assert forall|i: int| 0 <= i < v.len() implies filed_bookmarks(v).contains_key(
            (#[trigger] v[i]).track_id,
        ) && filed_bookmarks(v)[v[i].track_id] == v[i] by {
            if i < w.len() {
                assert(w[i] == v[i]);
                assert(v[i].track_id != v[v.len() - 1].track_id);
            }
        }
        assert forall|k: u64| #[trigger] filed_bookmarks(v).contains_key(k) implies exists|i: int|
            0 <= i < v.len() && (#[trigger] v[i]).track_id == k by {
            if k == last.track_id {
                assert(v[v.len() - 1].track_id == k);
            } else {
                let i = choose|i: int| 0 <= i < w.len() && (#[trigger] w[i]).track_id == k;
                assert(v[i].track_id == k);
            }
        }
    }
}

proof fn lemma_filed_records(v: Seq<PlayRecord>)
    requires
        forall|i: int, j: int|
            0 <= i < j < v.len() ==> (#[trigger] v[i]).album_id != (#[trigger] v[j]).album_id,
    ensures
        filed_records(v).dom().finite(),
        filed_records(v).dom().len() == v.len(),
        forall|i: int|
            0 <= i < v.len() ==> filed_records(v).contains_key((#[trigger] v[i]).album_id)
                && filed_records(v)[v[i].album_id] == v[i],
        forall|k: u64| #[trigger]
            filed_records(v).contains_key(k) ==> exists|i: int|
                0 <= i < v.len() && (#[trigger] v[i]).album_id == k,
    decreases v.len(),
{
    if v.len() > 0 {
        let w = v.drop_last();
        lemma_filed_records(w);
        let last = v.last();
        assert(!filed_records(w).contains_key(last.album_id)) by {
            if filed_records(w).contains_key(last.album_id) {
                let i = choose|i: int|
                    0 <= i < w.len() && (#[trigger] w[i]).album_id == last.album_id;
                assert(v[i].album_id == v[v.len() - 1].album_id);
            }
        }
        assert forall|i: int| 0 <= i < v.len() implies filed_records(v).contains_key(
            (#[trigger] v[i]).album_id,
        ) && filed_records(v)[v[i].album_id] == v[i] by {
            if i < w.len() {
                assert(w[i] == v[i]);
                assert(v[i].album_id != v[v.len() - 1].album_id);
            }
        }
        assert forall|k: u64| #[trigger] filed_records(v).contains_key(k) implies exists|i: int|
            0 <= i < v.len() && (#[trigger] v[i]).album_id == k by {
            if k == last.album_id {
                assert(v[v.len() - 1].album_id == k);
            } else {
                let i = choose|i: int| 0 <= i < w.len() && (#[trigger] w[i]).album_id == k;
                assert(v[i].album_id == k);
            }
        }
    }
}

/// What a restart takes up from a snapshot is what was there when it was taken: the queue, every
/// bookmark and every record.
pub proof fn law_snapshot_restores(state: PlayState, p: Persisted)
    requires
        state.wf(),
        state.bookmarks@.dom().finite(),
        state.history@.dom().finite(),
        is_snapshot(p, state),
    ensures
        same_queue(p.queue, state.queue),
        filed_bookmarks(p.bookmarks@) == state.bookmarks@,
        filed_records(p.history@) == state.history@,
{
    let b = p.bookmarks@;
    let h = p.history@;
    assert forall|i: int, j: int| 0 <= i < j < b.len() implies (#[trigger] b[i]).track_id != (
    #[trigger] b[j]).track_id by {
        assert(older(b[i], b[j]));
        if b[i].track_id == b[j].track_id {
            assert(b[i] == b[j]);
        }
    }
    lemma_filed_bookmarks(b);
    lemma_filed_records(h);
    let fb = filed_bookmarks(b);
    let fh = filed_records(h);
    assert(fb.dom().subset_of(state.bookmarks@.dom()));
    assert(fh.dom().subset_of(state.history@.dom()));
    vstd::set_lib::lemma_subset_equality(fb.dom(), state.bookmarks@.dom());
    vstd::set_lib::lemma_subset_equality(fh.dom(), state.history@.dom());
    assert forall|k: u64| #[trigger] fb.contains_key(k) implies fb[k] == state.bookmarks@[k] by {
        let i = choose|i: int| 0 <= i < b.len() && (#[trigger] b[i]).track_id == k;
        assert(b[i].track_id == k);
    }
    assert forall|k: u64| #[trigger] fh.contains_key(k) implies fh[k] == state.history@[k] by {
        let i = choose|i: int| 0 <= i < h.len() && (#[trigger] h[i]).album_id == k;
        assert(h[i].album_id == k);
    }
    assert(fb =~= state.bookmarks@);
    assert(fh =~= state.history@);
}

/// The history never grows past its limit.
pub proof fn law_history_stays_bounded(
    before: Map<u64, PlayRecord>,
    after: Map<u64, PlayRecord>,
    album_id: u64,
    now: i64,
)
    requires
        before.dom().finite(),
        before.dom().len() <= HISTORY_CAP,
        history_after(before, after, album_id, now),
    ensures
        after.dom().finite(),
        after.dom().len() <= HISTORY_CAP,
{
    let m = before.insert(album_id, played_once_more(before, album_id, now));
    assert(m.dom() =~= before.dom().insert(album_id));
    if m.dom().len() > HISTORY_CAP {
        let k = choose|k: u64| #[trigger] is_least_recent(m, k) && after == m.remove(k);
        assert(after.dom() =~= m.dom().remove(k));
    }
}

/// A play counts for its album alone: the album counts one play more, every other album counts
/// what it did, and at most one album is dropped, for being the one not played for longest.
pub proof fn law_a_play_counts_once(
    before: Map<u64, PlayRecord>,
    after: Map<u64, PlayRecord>,
    album_id: u64,
    now: i64,
    other: u64,
)
    requires
        history_after(before, after, album_id, now),
    ensures
        after.contains_key(album_id) ==> after[album_id].last_played_ms == now,
        after.contains_key(album_id) && plays(before, album_id) < u32::MAX ==> plays(
            after,
            album_id,
        ) == plays(before, album_id) + 1,
        other != album_id && after.contains_key(other) ==> before.contains_key(other)
            && after[other] == before[other],
        other != album_id && before.contains_key(other) && !after.contains_key(other)
            ==> is_least_recent(
            before.insert(album_id, played_once_more(before, album_id, now)),
            other,
        ),
{
    let m = before.insert(album_id, played_once_more(before, album_id, now));
    if m.dom().len() > HISTORY_CAP {
        let k = choose|k: u64| #[trigger] is_least_recent(m, k) && after == m.remove(k);
        assert(is_least_recent(m, k));
        if other == k {
            assert(is_least_recent(m, other));
        }
    }
}

/// However often a bookmark is changed, it keeps the time it was first made.
pub proof fn law_changes_keep_the_time_made(
    before: Map<u64, Bookmark>,
    first: Bookmark,
    position_ms: u64,
    comment: String,
    username: String,
    now: i64,
)
    requires
        before.contains_key(first.track_id),
        before[first.track_id] == first,
    ensures
        changed_bookmark(
            before,
            first.track_id,
            position_ms,
            comment,
            username,
            now,
        ).created_ms == first.created_ms,
{
}

/// Taking a bookmark away undoes making it, where the track had none, and leaves every other
/// bookmark as it is.
pub proof fn law_deleting_undoes_bookmarking(
    before: Map<u64, Bookmark>,
    track_id: u64,
    position_ms: u64,
    comment: String,
    username: String,
    now: i64,
    other: u64,
)
    requires
        !before.contains_key(track_id),
        other != track_id,
    ensures
        ({
            let made = changed_bookmark(before, track_id, position_ms, comment, username, now);
            let after = before.insert(track_id, made);
            &&& after.remove(track_id) == before
            &&& after.contains_key(other) == before.contains_key(other)
            &&& after[other] == before[other]
        }),
{
    let made = changed_bookmark(before, track_id, position_ms, comment, username, now);
    assert(before.insert(track_id, made).remove(track_id) =~= before);
}

/// What a play leaves of the history. While there is room nothing is dropped; at the limit of five
/// hundred albums one is, and every album that stays was played after it, or at the same time and
/// has the greater number. The album that was played counts one play more, as far as that can be
/// counted, and every other one stays as it was.
pub proof fn law_a_play_drops_one_album_at_most(
    before: Map<u64, PlayRecord>,
    after: Map<u64, PlayRecord>,
    album_id: u64,
    now: i64,
)
    requires
        before.dom().finite(),
        before.dom().len() <= 500,
        history_after(before, after, album_id, now),
    ensures
        before.dom().len() < 500 || before.contains_key(album_id) ==> after.dom()
            == before.dom().insert(album_id),
        before.dom().len() == 500 && !before.contains_key(album_id) ==> exists|k: u64|
            (before.contains_key(k) || k == album_id) && #[trigger] before.dom().insert(
                album_id,
            ).remove(k) == after.dom(),
        after.contains_key(album_id) ==> {
            let was = if before.contains_key(album_id) {
                before[album_id].play_count as int
            } else {
                0
            };
            &&& after[album_id].album_id == album_id
            &&& after[album_id].last_played_ms == now
            &&& was < u32::MAX ==> after[album_id].play_count == was + 1
            &&& was == u32::MAX ==> after[album_id].play_count == was
        },
        forall|k: u64|
            k != album_id && #[trigger] after.contains_key(k) ==> before.contains_key(k) && after[k]
                == before[k],
        forall|k: u64, o: u64|
            k != album_id && #[trigger] before.contains_key(k) && !after.contains_key(k)
                && #[trigger] after.contains_key(o) ==> before[k].last_played_ms
                < after[o].last_played_ms || (before[k].last_played_ms == after[o].last_played_ms && k
                < o),
        forall|o: u64|
            !after.contains_key(album_id) && #[trigger] after.contains_key(o) ==> now
                < after[o].last_played_ms || (now == after[o].last_played_ms && album_id < o),
{
    let m = before.insert(album_id, played_once_more(before, album_id, now));
    assert(m.dom() =~= before.dom().insert(album_id));
    if m.dom().len() > HISTORY_CAP {
        let k = choose|k: u64| #[trigger] is_least_recent(m, k) && after == m.remove(k);
        assert(is_least_recent(m, k));
        assert(after.dom() =~= before.dom().insert(album_id).remove(k));
        assert forall|o: u64| #[trigger] after.contains_key(o) implies m[k].last_played_ms
            < after[o].last_played_ms || (m[k].last_played_ms == after[o].last_played_ms && k
            < o) by {
            assert(m.contains_key(o));
        }
    }
}

/// What was kept is filed under its numbers, and where a number comes several times the last one
/// counts.
pub proof fn law_kept_bookmarks_are_filed(v: Seq<Bookmark>)
    ensures
        forall|i: int|
            0 <= i < v.len() && (forall|j: int|
                i < j < v.len() ==> (#[trigger] v[j]).track_id != v[i].track_id)
                ==> filed_bookmarks(v).contains_key((#[trigger] v[i]).track_id) && filed_bookmarks(
                v,
            )[v[i].track_id] == v[i],
        forall|k: u64| #[trigger]
            filed_bookmarks(v).contains_key(k) ==> exists|i: int|
                0 <= i < v.len() && (#[trigger] v[i]).track_id == k,
    decreases v.len(),
{
    if v.len() > 0 {
        let w = v.drop_last();
        law_kept_bookmarks_are_filed(w);
        assert forall|i: int|
            0 <= i < v.len() && (forall|j: int|
                i < j < v.len() ==> (#[trigger] v[j]).track_id
                    != v[i].track_id) implies filed_bookmarks(v).contains_key(
            (#[trigger] v[i]).track_id,
        ) && filed_bookmarks(v)[v[i].track_id] == v[i] by {
            if i < w.len() {
                assert(w[i] == v[i]);
                assert(v[v.len() - 1].track_id != v[i].track_id);
                assert forall|j: int| i < j < w.len() implies (#[trigger] w[j]).track_id
                    != w[i].track_id by {
                    assert(w[j] == v[j]);
                }
            }
        }
        assert forall|k: u64| #[trigger] filed_bookmarks(v).contains_key(k) implies exists|i: int|
            0 <= i < v.len() && (#[trigger] v[i]).track_id == k by {
            if k == v.last().track_id {
                assert(v[v.len() - 1].track_id == k);
            } else {
                assert(filed_bookmarks(w).contains_key(k));
                let i = choose|i: int| 0 <= i < w.len() && (#[trigger] w[i]).track_id == k;
                assert(v[i].track_id == k);
            }
        }
    }
}

/// The same of the records of what was played.
pub proof fn law_kept_records_are_filed(v: Seq<PlayRecord>)
    ensures
        forall|i: int|
            0 <= i < v.len() && (forall|j: int|
                i < j < v.len() ==> (#[trigger] v[j]).album_id != v[i].album_id)
                ==> filed_records(v).contains_key((#[trigger] v[i]).album_id) && filed_records(
                v,
            )[v[i].album_id] == v[i],
        forall|k: u64| #[trigger]
            filed_records(v).contains_key(k) ==> exists|i: int|
                0 <= i < v.len() && (#[trigger] v[i]).album_id == k,
    decreases v.len(),
{
    if v.len() > 0 {
        let w = v.drop_last();
        law_kept_records_are_filed(w);
        assert forall|i: int|
            0 <= i < v.len() && (forall|j: int|
                i < j < v.len() ==> (#[trigger] v[j]).album_id
                    != v[i].album_id) implies filed_records(v).contains_key(
            (#[trigger] v[i]).album_id,
        ) && filed_records(v)[v[i].album_id] == v[i] by {
            if i < w.len() {
                assert(w[i] == v[i]);
                assert(v[v.len() - 1].album_id != v[i].album_id);
                assert forall|j: int| i < j < w.len() implies (#[trigger] w[j]).album_id
                    != w[i].album_id by {
                    assert(w[j] == v[j]);
                }
            }
        }
        assert forall|k: u64| #[trigger] filed_records(v).contains_key(k) implies exists|i: int|
            0 <= i < v.len() && (#[trigger] v[i]).album_id == k by {
            if k == v.last().album_id {
                assert(v[v.len() - 1].album_id == k);
            } else {
                assert(filed_records(w).contains_key(k));
                let i = choose|i: int| 0 <= i < w.len() && (#[trigger] w[i]).album_id == k;
                assert(v[i].album_id == k);
            }
        }
    }
}

} // verus!
