//! Reports of clients on what they play, and ratings.

use crate::handlers::jukebox::{read_tracks, tracks_in};
use crate::handlers::{first_id_of, is_missing, missing, numbered, requested, Failure};
use crate::ids;
use crate::ids::{track_of, IdKind};
use crate::params::QueryParams;
use crate::text::texts;
use vstd::prelude::*;

verus! {

/// What a report leads to.
#[derive(Debug)]
pub enum Report {
    /// This track is playing; none where the report names no track.
    Playing(Option<u64>),
    /// These tracks were played at this time.
    Played(Vec<u64>, i64),
}

/// Decides what a report leads to: a notice of what is playing, of which the last track counts,
/// or plays of all its tracks. What names no track is passed over. A report without a time is
/// one of `now`.
pub fn scrobble(q: &QueryParams, now: i64) -> (r: Result<Report, Failure>)
    ensures
        ({
            let ids = texts(q.id.0@);
            if ids.len() == 0 {
                r matches Err(f) && is_missing(f)
            } else if q.submission == Some(false) {
                r matches Ok(Report::Playing(t)) && (match track_of(ids.last()) {
                    Some(n) => t == Some(n as u64),
                    None => t is None,
                })
            } else {
                r matches Ok(Report::Played(v, time)) && v@ == tracks_in(ids) && time == (
                match q.time {
                    Some(t) => t,
                    None => now,
                })
            }
        }),
        r is Err <==> q.id.0@.len() == 0,
        r is Err ==> r->Err_0.code == 10,
        r is Ok ==> (r->Ok_0 is Playing <==> q.submission == Some(false)),
        r is Ok && q.submission == Some(false) ==> (r->Ok_0 matches Report::Playing(t) && (match track_of(
            q.id.0@[q.id.0@.len() - 1]@,
        ) {
            Some(n) => t is Some && t->0 == n,
            None => t is None,
        })),
        r is Ok && q.submission != Some(false) ==> (r->Ok_0 matches Report::Played(v, time) && (q.time
            is Some ==> time == q.time->0) && (q.time is None ==> time == now)),
{
    let ids = &q.id.0;
    if ids.len() == 0 {
        return Err(missing());
    }
    let submission = match q.submission {
        Some(b) => b,
        None => true,
    };
    if !submission {
        assert(texts(ids@).last() == ids@[ids@.len() - 1]@);
        return Ok(Report::Playing(ids::parse_track_id(ids[ids.len() - 1].as_str())));
    }
    let time: i64 = match q.time {
        Some(t) => t,
        None => now,
    };
    Ok(Report::Played(read_tracks(ids), time))
}

/// Checks a rating: it needs a song and a number up to five, of which zero takes it back. Nothing
/// is kept of it.
pub fn set_rating(q: &QueryParams) -> (r: Result<(), Failure>)
    ensures
        match first_id_of(*q) {
            Some(id) => if numbered(IdKind::Track, id) is None {
                r matches Err(f) && f.is(70, "Song not found"@)
            } else {
                match q.rating {
                    Some(n) => if n > 5 {
                        r matches Err(f) && f.is(70, "Invalid rating"@)
                    } else {
                        r is Ok
                    },
                    None => r matches Err(f) && is_missing(f),
                }
            },
            None => r matches Err(f) && is_missing(f),
        },
        r is Ok <==> q.id.0@.len() > 0 && numbered(IdKind::Track, q.id.0@[0]@) is Some && q.rating is Some
            && q.rating->0 <= 5,
        q.id.0@.len() == 0 ==> r is Err && r->Err_0.code == 10,
        q.id.0@.len() > 0 && numbered(IdKind::Track, q.id.0@[0]@) is Some && q.rating is None ==> r is Err
            && r->Err_0.code == 10,
        q.rating is Some && q.rating->0 > 5 && q.id.0@.len() > 0 ==> r is Err && r->Err_0.code == 70,
{
    if let Err(f) = requested(q, IdKind::Track) {
        return Err(f);
    }
    match q.rating {
        Some(n) => if n > 5 {
            Err(Failure { code: 70, message: "Invalid rating" })
        } else {
            Ok(())
        },
        None => Err(missing()),
    }
}

} // verus!
