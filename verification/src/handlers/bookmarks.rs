//! Bookmarks: places inside tracks.

use crate::calendar::{iso8601_z, moment_or_epoch, rfc3339};
use crate::handlers::{first_id_of, is_missing, missing, numbered, or_empty, requested,
    text_or_empty, Failure};
use crate::ids::IdKind;
use crate::models::queue::Bookmark;
use crate::models::song::Child;
use crate::params::QueryParams;
use crate::play_state;
use crate::play_state::PlayState;
use vstd::prelude::*;

verus! {

/// What a request to make a bookmark makes of the state.
pub open spec fn bookmarked(
    before: PlayState,
    after: PlayState,
    q: QueryParams,
    track_id: u64,
    now: i64,
) -> bool {
    exists|comment: String, username: String|
        comment@ == text_or_empty(q.comment) && username@ == text_or_empty(q.u) && q.position is Some
            && after.bookmarks@ == before.bookmarks@.insert(
            track_id,
            #[trigger] play_state::changed_bookmark(
                before.bookmarks@,
                track_id,
                q.position->0,
                comment,
                username,
                now,
            ),
        )
}

/// Makes the bookmark that a request is for.
pub fn create_bookmark(state: &mut PlayState, q: &QueryParams, now: i64) -> (r: Result<(), Failure>)
    requires
        old(state).wf(),
    ensures
        final(state).wf(),
        final(state).queue == old(state).queue,
        final(state).resolved == old(state).resolved,
        final(state).history == old(state).history,
        final(state).persist == old(state).persist,
        final(state).generation == old(state).generation,
        match r {
            Ok(_) => first_id_of(*q) is Some && numbered(IdKind::Track, first_id_of(*q)->0) is Some
                && bookmarked(
                *old(state),
                *final(state),
                *q,
                numbered(IdKind::Track, first_id_of(*q)->0)->0 as u64,
                now,
            ),
            Err(f) => final(state).bookmarks == old(state).bookmarks && (match first_id_of(*q) {
                Some(id) => if numbered(IdKind::Track, id) is None {
                    f.is(70, "Song not found"@)
                } else {
                    q.position is None && is_missing(f)
                },
                None => is_missing(f),
            }),
        },
        q.id.0@.len() > 0 && q.position is Some && numbered(IdKind::Track, q.id.0@[0]@) is Some ==> {
            let n = numbered(IdKind::Track, q.id.0@[0]@)->0 as u64;
            let b = final(state).bookmarks@[n];
            &&& r is Ok
            &&& final(state).bookmarks@.dom() == old(state).bookmarks@.dom().insert(n)
            &&& b.track_id == n
            &&& b.position_ms == q.position->0
            &&& q.comment is Some ==> b.comment@ == q.comment->0@
            &&& q.comment is None ==> b.comment@.len() == 0
            &&& q.u is Some ==> b.username@ == q.u->0@
            &&& q.u is None ==> b.username@.len() == 0
            &&& b.changed_ms == now
            &&& b.created_ms == (if old(state).bookmarks@.contains_key(n) {
                old(state).bookmarks@[n].created_ms
            } else {
                now
            })
            &&& forall|k: u64|
                k != n && old(state).bookmarks@.contains_key(k) ==> #[trigger] final(state).bookmarks@[k]
                    == old(state).bookmarks@[k]
        },
        q.id.0@.len() == 0 || q.position is None || numbered(IdKind::Track, q.id.0@[0]@) is None ==> r
            is Err,
{
    let track_id: u64 = match requested(q, IdKind::Track) {
        Ok(n) => n,
        Err(f) => {
            return Err(f);
        },
    };
    let position: u64 = match q.position {
        Some(p) => p,
        None => {
            return Err(missing());
        },
    };
    let comment = or_empty(&q.comment);
    let username = or_empty(&q.u);
    play_state::upsert_bookmark(state, track_id, position, comment, username, now);
    assert(state.bookmarks@ == old(state).bookmarks@.insert(
        track_id,
        play_state::changed_bookmark(
            old(state).bookmarks@,
            track_id,
            position,
            comment,
            username,
            now,
        ),
    ));
    Ok(())
}

/// Removes the bookmark that a request is for; that there is none is no error.
pub fn delete_bookmark(state: &mut PlayState, q: &QueryParams) -> (r: Result<bool, Failure>)
    requires
        old(state).wf(),
    ensures
        final(state).wf(),
        final(state).queue == old(state).queue,
        final(state).resolved == old(state).resolved,
        final(state).history == old(state).history,
        final(state).persist == old(state).persist,
        final(state).generation == old(state).generation,
        match first_id_of(*q) {
            Some(id) => match numbered(IdKind::Track, id) {
                Some(n) => r matches Ok(removed) && removed == old(state).bookmarks@.contains_key(n as u64) && final(state).bookmarks@ == old(state).bookmarks@.remove(n as u64),
                None => (r matches Err(f) && f.is(70, "Song not found"@)) && final(state).bookmarks
                    == old(state).bookmarks,
            },
            None => (r matches Err(f) && is_missing(f)) && final(state).bookmarks == old(state).bookmarks,
        },
{
    match requested(q, IdKind::Track) {
        Ok(n) => Ok(play_state::delete_bookmark(state, n)),
        Err(f) => Err(f),
    }
}

/// A bookmark as it is served, with its song.
pub open spec fn is_served(r: Bookmark, b: play_state::Bookmark, song: Child) -> bool {
    &&& r.entry == song
    &&& r.position == b.position_ms
    &&& r.username == b.username
    &&& r.comment == b.comment
    &&& r.created@ == moment_or_epoch(rfc3339(b.created_ms as int))
    &&& r.changed@ == moment_or_epoch(rfc3339(b.changed_ms as int))
}

/// The bookmarks whose songs there still are, each with its song.
pub open spec fn serves(
    r: Seq<Bookmark>,
    saved: Seq<play_state::Bookmark>,
    songs: Seq<Option<Child>>,
) -> bool
    decreases songs.len(),
{
    if songs.len() == 0 {
        r.len() == 0
    } else {
        match songs.last() {
            Some(s) => {
                &&& r.len() > 0
                &&& is_served(r.last(), saved[songs.len() - 1], s)
                &&& serves(r.drop_last(), saved, songs.drop_last())
            },
            None => serves(r, saved, songs.drop_last()),
        }
    }
}

/// Serves the bookmarks; one whose song there is no more is left out.
pub fn get_bookmarks(saved: &Vec<play_state::Bookmark>, songs: Vec<Option<Child>>) -> (r: Vec<
    Bookmark,
>)
    requires
        saved@.len() == songs@.len(),
    ensures
        serves(r@, saved@, songs@),
        r@.len() <= songs@.len(),
        (forall|i: int| 0 <= i < songs@.len() ==> (#[trigger] songs@[i]) is Some) ==> r@.len()
            == saved@.len() && forall|i: int|
            0 <= i < r@.len() ==> Some((#[trigger] r@[i]).entry) == songs@[i] && r@[i].position
                == saved@[i].position_ms && r@[i].username == saved@[i].username && r@[i].comment
                == saved@[i].comment && r@[i].created@ == moment_or_epoch(
                rfc3339(saved@[i].created_ms as int),
            ) && r@[i].changed@ == moment_or_epoch(rfc3339(saved@[i].changed_ms as int)),
{
    let ghost all = songs@;
    let len: usize = saved.len();
    let mut out: Vec<Bookmark> = Vec::new();
    let mut i: usize = 0;
    assert(all.take(0) =~= Seq::empty());
    for s in it: songs
        invariant
            it.seq() == all,
            i == it.index(),
            all.len() == saved@.len(),
            all.len() == len,
            serves(out@, saved@, all.take(i as int)),
    {
        assert(all.take(i + 1).drop_last() =~= all.take(i as int));
        assert(all.take(i + 1).last() == s);
        let ghost before = out@;
        if let Some(entry) = s {
            let b = &saved[i];
            out.push(
                Bookmark {
                    entry,
                    position: b.position_ms,
                    username: b.username.clone(),
                    comment: b.comment.clone(),
                    created: iso8601_z(b.created_ms),
                    changed: iso8601_z(b.changed_ms),
                },
            );
            assert(out@.drop_last() =~= before);
        }
        i += 1;
    }
    assert(all.take(all.len() as int) =~= all);
    proof {
        lemma_served(out@, saved@, all);
    }
    out
}

/// The bookmarks that are served are no more than there are songs, and where every song is there,
/// each bookmark is served in its place with its song.
proof fn lemma_served(r: Seq<Bookmark>, saved: Seq<play_state::Bookmark>, songs: Seq<Option<Child>>)
    requires
        serves(r, saved, songs),
        songs.len() <= saved.len(),
    ensures
        r.len() <= songs.len(),
        (forall|i: int| 0 <= i < songs.len() ==> (#[trigger] songs[i]) is Some) ==> r.len()
            == songs.len() && forall|i: int|
            0 <= i < r.len() ==> is_served(#[trigger] r[i], saved[i], songs[i]->0),
    decreases songs.len(),
{
    if songs.len() > 0 {
        let rest = songs.drop_last();
        match songs.last() {
            Some(s) => {
                lemma_served(r.drop_last(), saved, rest);
                if forall|i: int| 0 <= i < songs.len() ==> (#[trigger] songs[i]) is Some {
                    assert forall|i: int| 0 <= i < rest.len() implies (
                    #[trigger] rest[i]) is Some by {
                        assert(rest[i] == songs[i]);
                    }
                    assert forall|i: int| 0 <= i < r.len() implies is_served(
                        #[trigger] r[i],
                        saved[i],
                        songs[i]->0,
                    ) by {
                        if i < rest.len() {
                            assert(r.drop_last()[i] == r[i]);
                            assert(rest[i] == songs[i]);
                        }
                    }
                }
            },
            None => {
                lemma_served(r, saved, rest);
                assert(songs[songs.len() - 1] is None);
            },
        }
    }
}

/// A bookmark whose song is gone is passed over, wherever it stands, and the others are served as
/// if it had not been there.
pub proof fn law_bookmarks_without_a_song_are_left_out(
    r: Seq<Bookmark>,
    saved: Seq<play_state::Bookmark>,
    songs: Seq<Option<Child>>,
    b: Bookmark,
    s: Child,
)
    requires
        serves(r, saved, songs),
        songs.len() < saved.len(),
    ensures
        serves(r, saved, songs.push(None)),
        b.entry == s && b.position == saved[songs.len() as int].position_ms && b.username
            == saved[songs.len() as int].username && b.comment == saved[songs.len() as int].comment
            && b.created@ == moment_or_epoch(rfc3339(saved[songs.len() as int].created_ms as int))
            && b.changed@ == moment_or_epoch(rfc3339(saved[songs.len() as int].changed_ms as int))
            <==> serves(r.push(b), saved, songs.push(Some(s))),
{
    assert(songs.push(None).drop_last() =~= songs);
    assert(songs.push(Some(s)).drop_last() =~= songs);
    assert(r.push(b).drop_last() =~= r);
}

} // verus!
