//! The queue of songs that a client saves and takes up again.

use crate::calendar::{iso8601_z, moment_or_epoch, rfc3339};
use crate::handlers::lyrics::wrap32;
use crate::handlers::playlist::{all_tracks, parse_song_ids, tracks_of};
use crate::handlers::{is_missing, missing, not_found, or_empty, text_or_empty, Failure};
use crate::ids;
use crate::ids::{track_of, IdKind};
use crate::lists::{found, law_all_that_is_there_is_kept, somes};
use crate::models::queue::{PlayQueue, PlayQueueByIndex};
use crate::models::song::Child;
use crate::params::QueryParams;
use crate::play_state;
use crate::text::{opt_text, texts};
use vstd::prelude::*;

verus! {

/// The first place of a number in a list.
pub open spec fn place_in(v: Seq<u64>, n: u64) -> Option<int>
    decreases v.len(),
{
    if v.len() == 0 {
        None
    } else if v[0] == n {
        Some(0)
    } else {
        match place_in(v.drop_first(), n) {
            Some(i) => Some(i + 1),
            None => None,
        }
    }
}

/// Looks for the first place of a number in a list.
fn find_place(v: &Vec<u64>, n: u64) -> (r: Option<usize>)
    ensures
        match r {
            Some(i) => place_in(v@, n) == Some(i as int) && i < v@.len() && v@[i as int] == n,
            None => place_in(v@, n) is None,
        },
        r is Some ==> forall|j: int| 0 <= j < r->0 ==> v@[j] != n,
        r is None ==> !v@.contains(n),
{
    let mut i: usize = 0;
    assert(v@.subrange(0, v@.len() as int) =~= v@);
    while i < v.len()
        invariant
            i <= v@.len(),
            forall|j: int| 0 <= j < i ==> v@[j] != n,
            match place_in(v@.subrange(i as int, v@.len() as int), n) {
                Some(k) => place_in(v@, n) == Some(k + i),
                None => place_in(v@, n) is None,
            },
        decreases v@.len() - i,
    {
        let ghost rest = v@.subrange(i as int, v@.len() as int);
        assert(rest[0] == v@[i as int]);
        assert(rest.drop_first() =~= v@.subrange(i + 1, v@.len() as int));
        if v[i] == n {
            return Some(i);
        }
        i += 1;
    }
    None
}

/// The queue holds these tracks, and says who saved it, where and when.
pub open spec fn is_saved(
    s: play_state::PlayQueue,
    q: QueryParams,
    tracks: Seq<u64>,
    current: Option<u64>,
    current_index: Option<int>,
    position_ms: u64,
    now: i64,
) -> bool {
    &&& s.track_ids@ == tracks
    &&& s.current == current
    &&& (match s.current_index {
        Some(i) => current_index == Some(i as int),
        None => current_index is None,
    })
    &&& s.position_ms == position_ms
    &&& s.username@ == text_or_empty(q.u)
    &&& s.changed_by@ == text_or_empty(q.c)
    &&& s.changed_ms == now
}

/// What a saved queue leads to with the service, which keeps one of its own.
#[derive(Debug, Clone, Copy, PartialEq, Eq, Structural)]
pub enum QueueSync {
    Clear,
    /// The queue with this song as the current one.
    Push(u64),
    /// The queue has no song that could be the current one.
    Leave,
}

/// What is told to the service.
pub open spec fn sync_of(tracks: Seq<u64>, current: Option<u64>) -> QueueSync {
    if tracks.len() == 0 {
        QueueSync::Clear
    } else {
        match current {
            Some(n) => if tracks.contains(n) {
                QueueSync::Push(n)
            } else {
                QueueSync::Leave
            },
            None => QueueSync::Leave,
        }
    }
}

proof fn lemma_place_in(v: Seq<u64>, n: u64)
    ensures
        place_in(v, n) is Some <==> v.contains(n),
    decreases v.len(),
{
    if v.len() > 0 {
        lemma_place_in(v.drop_first(), n);
        if v.contains(n) && v[0] != n {
            let i = choose|i: int| 0 <= i < v.len() && v[i] == n;
            assert(v.drop_first()[i - 1] == n);
        }
        if v.drop_first().contains(n) {
            let i = choose|i: int| 0 <= i < v.drop_first().len() && v.drop_first()[i] == n;
            assert(v[i + 1] == n);
        }
        if v[0] == n {
            assert(v.contains(n));
        }
    }
}

/// Decides what is told to the service.
pub fn sync_saved_queue(track_ids: &Vec<u64>, current: Option<u64>) -> (r: QueueSync)
    ensures
        r == sync_of(track_ids@, current),
        track_ids@.len() == 0 ==> r == QueueSync::Clear,
        track_ids@.len() > 0 && current is Some && track_ids@.contains(current->0) ==> r
            == QueueSync::Push(current->0),
        track_ids@.len() > 0 && (current is None || !track_ids@.contains(current->0)) ==> r
            == QueueSync::Leave,
{
    if track_ids.len() == 0 {
        return QueueSync::Clear;
    }
    match current {
        Some(n) => {
            proof {
                lemma_place_in(track_ids@, n);
            }
            if find_place(track_ids, n).is_some() {
                QueueSync::Push(n)
            } else {
                QueueSync::Leave
            }
        },
        None => QueueSync::Leave,
    }
}

/// Builds a queue.
fn make_queue(
    q: &QueryParams,
    track_ids: Vec<u64>,
    current: Option<u64>,
    current_index: Option<usize>,
    position_ms: u64,
    now: i64,
) -> (r: play_state::PlayQueue)
    ensures
        is_saved(
            r,
            *q,
            track_ids@,
            current,
            match current_index {
                Some(i) => Some(i as int),
                None => None,
            },
            position_ms,
            now,
        ),
        r.track_ids@ == track_ids@,
        r.current == current,
        r.current_index == current_index,
        r.position_ms == position_ms,
        q.u is Some ==> r.username@ == q.u->0@,
        q.u is None ==> r.username@.len() == 0,
        q.c is Some ==> r.changed_by@ == q.c->0@,
        q.c is None ==> r.changed_by@.len() == 0,
        r.changed_ms == now,
{
    play_state::PlayQueue {
        track_ids,
        current,
        current_index,
        position_ms,
        username: or_empty(&q.u),
        changed_by: or_empty(&q.c),
        changed_ms: now,
    }
}

/// The place of a queue that playback has reached.
pub open spec fn position_of(q: QueryParams) -> u64 {
    match q.position {
        Some(p) => p,
        None => 0,
    }
}

/// The queue that a request saves, with the current song by its identifier. A queue without
/// songs needs no current song; it clears the one that is saved.
pub fn save_play_queue(q: &QueryParams, now: i64) -> (r: Result<play_state::PlayQueue, Failure>)
    ensures
        ({
            let ids = texts(q.id.0@);
            if !all_tracks(ids) {
                r matches Err(f) && f.is(70, "Song not found"@)
            } else if ids.len() == 0 {
                r matches Ok(s) && is_saved(s, *q, Seq::empty(), None, None, 0, now)
            } else {
                match q.current {
                    Some(c) => match track_of(c@) {
                        Some(n) => r matches Ok(s) && is_saved(
                            s,
                            *q,
                            tracks_of(ids),
                            Some(n as u64),
                            place_in(tracks_of(ids), n as u64),
                            position_of(*q),
                            now,
                        ),
                        None => r matches Err(f) && f.is(70, "Song not found"@),
                    },
                    None => r matches Err(f) && is_missing(f),
                }
            }
        }),
        r is Ok ==> {
            let s = r->Ok_0;
            &&& s.track_ids@.len() == q.id.0@.len()
            &&& forall|i: int|
                0 <= i < q.id.0@.len() ==> track_of(q.id.0@[i]@) == Some(#[trigger] s.track_ids@[i] as nat)
            &&& q.u is Some ==> s.username@ == q.u->0@
            &&& q.u is None ==> s.username@.len() == 0
            &&& q.c is Some ==> s.changed_by@ == q.c->0@
            &&& q.c is None ==> s.changed_by@.len() == 0
            &&& s.changed_ms == now
            &&& s.position_ms == (if q.id.0@.len() > 0 && q.position is Some {
                q.position->0
            } else {
                0
            })
            &&& s.current_index is Some ==> s.current_index->0 < s.track_ids@.len() && s.current == Some(
                s.track_ids@[s.current_index->0 as int],
            )
            &&& q.id.0@.len() == 0 ==> s.current is None && s.current_index is None
            &&& q.id.0@.len() > 0 ==> q.current is Some && s.current is Some && track_of(q.current->0@)
                == Some(s.current->0 as nat)
            &&& s.current_index is Some ==> forall|j: int|
                0 <= j < s.current_index->0 ==> Some(#[trigger] s.track_ids@[j]) != s.current
            &&& s.current is Some && s.current_index is None ==> !s.track_ids@.contains(s.current->0)
        },
        r is Ok <==> (forall|i: int|
            0 <= i < q.id.0@.len() ==> track_of((#[trigger] q.id.0@[i])@) is Some) && (q.id.0@.len() == 0
            || (q.current is Some && track_of(q.current->0@) is Some)),
{
    proof {
        assert(texts(q.id.0@).len() == q.id.0@.len());
        assert forall|i: int| 0 <= i < q.id.0@.len() implies texts(q.id.0@)[i] == (
        #[trigger] q.id.0@[i])@ by {}
        assert(all_tracks(texts(q.id.0@)) ==> forall|i: int|
            0 <= i < q.id.0@.len() ==> track_of((#[trigger] q.id.0@[i])@) is Some) by {
            if all_tracks(texts(q.id.0@)) {
                assert forall|i: int| 0 <= i < q.id.0@.len() implies track_of(
                    (#[trigger] q.id.0@[i])@,
                ) is Some by {
                    assert(track_of(texts(q.id.0@)[i]) is Some);
                }
            }
        }
    }
    let track_ids = match parse_song_ids(&q.id) {
        Ok(v) => v,
        Err(m) => {
            return Err(Failure { code: 70, message: m });
        },
    };
    if track_ids.len() == 0 {
        assert(track_ids@ =~= Seq::empty());
        return Ok(make_queue(q, track_ids, None, None, 0, now));
    }
    let current: u64 = match &q.current {
        Some(c) => match ids::parse_track_id(c.as_str()) {
            Some(n) => n,
            None => {
                return Err(not_found(IdKind::Track));
            },
        },
        None => {
            return Err(missing());
        },
    };
    let index = find_place(&track_ids, current);
    let position: u64 = match q.position {
        Some(p) => p,
        None => 0,
    };
    Ok(make_queue(q, track_ids, Some(current), index, position, now))
}

/// The place of the current song that a request names, where the queue has such a place.
pub open spec fn index_in(q: QueryParams, len: nat) -> Option<int> {
    match q.current_index {
        Some(i) => if 0 <= i < len {
            Some(i as int)
        } else {
            None
        },
        None => None,
    }
}

/// The queue that a request saves, with the current song by its place. A place that the queue
/// has not means that there is no current song.
pub fn save_play_queue_by_index(q: &QueryParams, now: i64) -> (r: Result<
    play_state::PlayQueue,
    Failure,
>)
    ensures
        ({
            let ids = texts(q.id.0@);
            let tracks = tracks_of(ids);
            if !all_tracks(ids) {
                r matches Err(f) && f.is(70, "Song not found"@)
            } else if ids.len() == 0 {
                r matches Ok(s) && is_saved(s, *q, Seq::empty(), None, None, 0, now)
            } else {
                r matches Ok(s) && is_saved(
                    s,
                    *q,
                    tracks,
                    match index_in(*q, tracks.len()) {
                        Some(i) => Some(tracks[i]),
                        None => None,
                    },
                    index_in(*q, tracks.len()),
                    position_of(*q),
                    now,
                )
            }
        }),
        r is Ok ==> {
            let s = r->Ok_0;
            &&& s.track_ids@.len() == q.id.0@.len()
            &&& forall|i: int|
                0 <= i < q.id.0@.len() ==> track_of(q.id.0@[i]@) == Some(#[trigger] s.track_ids@[i] as nat)
            &&& q.u is Some ==> s.username@ == q.u->0@
            &&& q.u is None ==> s.username@.len() == 0
            &&& q.c is Some ==> s.changed_by@ == q.c->0@
            &&& q.c is None ==> s.changed_by@.len() == 0
            &&& s.changed_ms == now
            &&& s.position_ms == (if q.id.0@.len() > 0 && q.position is Some {
                q.position->0
            } else {
                0
            })
            &&& s.current_index is Some ==> s.current_index->0 < s.track_ids@.len() && s.current == Some(
                s.track_ids@[s.current_index->0 as int],
            )
            &&& s.current_index is Some <==> q.current_index is Some && 0 <= q.current_index->0
                < q.id.0@.len()
            &&& s.current_index is Some ==> s.current_index->0 == q.current_index->0
            &&& s.current_index is None ==> s.current is None
        },
        r is Ok <==> (forall|i: int|
            0 <= i < q.id.0@.len() ==> track_of((#[trigger] q.id.0@[i])@) is Some),
{
    proof {
        assert(texts(q.id.0@).len() == q.id.0@.len());
        assert forall|i: int| 0 <= i < q.id.0@.len() implies texts(q.id.0@)[i] == (
        #[trigger] q.id.0@[i])@ by {}
        assert(all_tracks(texts(q.id.0@)) ==> forall|i: int|
            0 <= i < q.id.0@.len() ==> track_of((#[trigger] q.id.0@[i])@) is Some) by {
            if all_tracks(texts(q.id.0@)) {
                assert forall|i: int| 0 <= i < q.id.0@.len() implies track_of(
                    (#[trigger] q.id.0@[i])@,
                ) is Some by {
                    assert(track_of(texts(q.id.0@)[i]) is Some);
                }
            }
        }
    }
    let track_ids = match parse_song_ids(&q.id) {
        Ok(v) => v,
        Err(m) => {
            return Err(Failure { code: 70, message: m });
        },
    };
    if track_ids.len() == 0 {
        assert(track_ids@ =~= Seq::empty());
        return Ok(make_queue(q, track_ids, None, None, 0, now));
    }
    let index: Option<usize> = match q.current_index {
        Some(i) => if i >= 0 && (i as u64) < track_ids.len() as u64 {
            Some(i as usize)
        } else {
            None
        },
        None => None,
    };
    let current: Option<u64> = match index {
        Some(i) => Some(track_ids[i]),
        None => None,
    };
    let position: u64 = match q.position {
        Some(p) => p,
        None => 0,
    };
    Ok(make_queue(q, track_ids, current, index, position, now))
}

/// The queue to serve: the saved one where it has songs, and otherwise that of the service, which
/// knows no place within the song.
pub fn restore_queue(
    saved: Option<play_state::PlayQueue>,
    remote: Option<(Vec<u64>, Option<u64>)>,
    now: i64,
) -> (r: play_state::PlayQueue)
    ensures
        if saved is Some && saved->0.track_ids@.len() > 0 {
            r == saved->0
        } else {
            &&& r.position_ms == 0
            &&& r.username@.len() == 0
            &&& r.changed_by@.len() == 0
            &&& r.changed_ms == now
            &&& match remote {
                Some((ids, current)) => if ids@.len() > 0 {
                    &&& r.track_ids == ids
                    &&& r.current == current
                    &&& match (current, r.current_index) {
                        (Some(n), Some(i)) => place_in(ids@, n) == Some(i as int),
                        (Some(n), None) => place_in(ids@, n) is None,
                        (None, x) => x is None,
                    }
                } else {
                    r.track_ids@.len() == 0 && r.current is None && r.current_index is None
                },
                None => r.track_ids@.len() == 0 && r.current is None && r.current_index is None,
            }
        },
        r.current_index is Some && !(saved is Some && saved->0.track_ids@.len() > 0)
            ==> r.current_index->0 < r.track_ids@.len() && r.current == Some(
            r.track_ids@[r.current_index->0 as int],
        ) && forall|j: int| 0 <= j < r.current_index->0 ==> Some(#[trigger] r.track_ids@[j]) != r.current,
        r.current is Some && r.current_index is None && !(saved is Some && saved->0.track_ids@.len()
            > 0) ==> !r.track_ids@.contains(r.current->0),
{
    if let Some(q) = saved {
        if q.track_ids.len() > 0 {
            return q;
        }
    }
    let mut fresh = play_state::PlayQueue {
        track_ids: Vec::new(),
        current: None,
        current_index: None,
        position_ms: 0,
        username: String::new(),
        changed_by: String::new(),
        changed_ms: now,
    };
    if let Some((ids, current)) = remote {
        if ids.len() > 0 {
            fresh.current = current;
            fresh.current_index = match current {
                Some(n) => find_place(&ids, n),
                None => None,
            };
            fresh.track_ids = ids;
        }
    }
    fresh
}

/// The queue as it is served, with the current song by its identifier. Songs that there are no
/// more are left out.
pub fn get_play_queue(saved: play_state::PlayQueue, songs: Vec<Option<Child>>) -> (r: PlayQueue)
    ensures
        opt_text(r.current) == (match saved.current {
            Some(n) => Some(ids::encoded(IdKind::Track, n as nat)),
            None => None,
        }),
        r.position == saved.position_ms,
        r.username == saved.username,
        r.changed@ == moment_or_epoch(rfc3339(saved.changed_ms as int)),
        r.changed_by == saved.changed_by,
        r.entry@ == somes(songs@),
{
    PlayQueue {
        current: match saved.current {
            Some(n) => Some(ids::encode_track(n)),
            None => None,
        },
        position: saved.position_ms,
        username: saved.username,
        changed: iso8601_z(saved.changed_ms),
        changed_by: saved.changed_by,
        entry: found(songs),
    }
}

/// The queue as it is served, with the current song by its place, as it was saved.
pub fn get_play_queue_by_index(saved: play_state::PlayQueue, songs: Vec<Option<Child>>) -> (r:
    PlayQueueByIndex)
    ensures
        r.current_index == (match saved.current_index {
            Some(i) => Some(wrap32(i as int)),
            None => None,
        }),
        r.position == saved.position_ms,
        r.username == saved.username,
        r.changed@ == moment_or_epoch(rfc3339(saved.changed_ms as int)),
        r.changed_by == saved.changed_by,
        r.entry@ == somes(songs@),
{
    PlayQueueByIndex {
        current_index: match saved.current_index {
            Some(i) => Some((i as u64 % 0x1_0000_0000) as u32),
            None => None,
        },
        position: saved.position_ms,
        username: saved.username,
        changed: iso8601_z(saved.changed_ms),
        changed_by: saved.changed_by,
        entry: found(songs),
    }
}

/// A place that was saved is the place that is served, wherever the reply can hold it, though
/// the queue may hold the same song more than once: nothing is worked out from the song. And
/// where every song is found, all are served in the order in which they were saved.
pub proof fn law_the_place_comes_back(
    q: QueryParams,
    saved: play_state::PlayQueue,
    tracks: Seq<u64>,
    now: i64,
    songs: Seq<Option<Child>>,
)
    requires
        is_saved(
            saved,
            q,
            tracks,
            match index_in(q, tracks.len()) {
                Some(i) => Some(tracks[i]),
                None => None,
            },
            index_in(q, tracks.len()),
            position_of(q),
            now,
        ),
        q.current_index is Some,
        0 <= q.current_index->0 < tracks.len(),
        q.current_index->0 <= u32::MAX,
        songs.len() == tracks.len(),
        forall|i: int| 0 <= i < songs.len() ==> (#[trigger] songs[i]) is Some,
    ensures
        saved.current_index is Some,
        wrap32(saved.current_index->0 as int) == q.current_index->0,
        saved.current == Some(tracks[q.current_index->0 as int]),
        somes(songs).len() == tracks.len(),
        forall|i: int| 0 <= i < tracks.len() ==> Some(#[trigger] somes(songs)[i]) == songs[i],
{
    law_all_that_is_there_is_kept(songs);
}

/// The place of a number in a list is the first that holds it, and there is one where the list
/// holds it at all.
pub proof fn law_the_first_place_counts(before: Seq<u64>, n: u64, after: Seq<u64>)
    requires
        !before.contains(n),
    ensures
        place_in(before + seq![n] + after, n) == Some(before.len() as int),
        place_in(before, n) is None,
    decreases before.len(),
{
    let v = before + seq![n] + after;
    lemma_place_in(before, n);
    if before.len() == 0 {
        assert(v[0] == n);
    } else {
        let b = before.drop_first();
        assert(before[0] != n);
        assert(!b.contains(n)) by {
            if b.contains(n) {
                let i = choose|i: int| 0 <= i < b.len() && b[i] == n;
                assert(before[i + 1] == n);
            }
        }
        law_the_first_place_counts(b, n, after);
        assert(v.drop_first() =~= b + seq![n] + after);
    }
}

} // verus!
