//! What is playing now, as clients report it and ask for it.

use crate::handlers::{first_id, first_id_of, is_missing, is_requested, missing, not_found, or_empty,
    requested, text_or_empty, Failure};
use crate::ids;
use crate::ids::{track_of, IdKind};
use crate::models::song::{Child, NowPlayingEntry};
use crate::now_playing::{minutes_ago, minutes_since, position_at, NowPlaying};
use crate::params::QueryParams;
use crate::text;
use vstd::prelude::*;

verus! {

/// The track that a request reports as playing, and the name of its user.
pub fn update_now_playing(q: &QueryParams) -> (r: Result<(u64, String), Failure>)
    ensures
        match r {
            Ok((n, u)) => is_requested(Ok(n), *q, IdKind::Track) && u@ == text_or_empty(q.u),
            Err(f) => is_requested(Err(f), *q, IdKind::Track),
        },
        q.id.0@.len() == 0 ==> r is Err && r->Err_0.code == 10,
        q.id.0@.len() > 0 ==> (r is Ok <==> crate::handlers::numbered(IdKind::Track, q.id.0@[0]@) is Some),
        q.id.0@.len() > 0 && r is Err ==> r->Err_0.code == 70,
        r is Ok ==> {
            let (n, u) = r->Ok_0;
            &&& crate::handlers::numbered(IdKind::Track, q.id.0@[0]@) == Some(n as nat)
            &&& q.u is Some ==> u@ == q.u->0@
            &&& q.u is None ==> u@.len() == 0
        },
{
    match requested(q, IdKind::Track) {
        Ok(n) => Ok((n, or_empty(&q.u))),
        Err(f) => Err(f),
    }
}

/// The states of playback that a client may report.
pub open spec fn is_state(s: Seq<char>) -> bool {
    s == "starting"@ || s == "playing"@ || s == "paused"@ || s == "stopped"@
}

/// Reads the state of playback that a client reports.
fn read_state(s: &str) -> (r: Option<&'static str>)
    ensures
        match r {
            Some(t) => is_state(s@) && t@ == s@,
            None => !is_state(s@),
        },
        r is Some <==> s@ == "starting"@ || s@ == "playing"@ || s@ == "paused"@ || s@ == "stopped"@,
{
    if text::same(s, "starting") {
        Some("starting")
    } else if text::same(s, "playing") {
        Some("playing")
    } else if text::same(s, "paused") {
        Some("paused")
    } else if text::same(s, "stopped") {
        Some("stopped")
    } else {
        None
    }
}

/// A report of playback.
#[derive(Debug)]
pub struct PlaybackReport {
    pub track_id: u64,
    pub username: String,
    pub state: &'static str,
    pub position_ms: u64,
    /// Whether the services that plays are reported to are told of it.
    pub announce: bool,
}

/// The identifier that a report of playback names.
pub open spec fn media_of(q: QueryParams) -> Option<Seq<char>> {
    match q.media_id {
        Some(m) => Some(m@),
        None => first_id_of(q),
    }
}

/// The report of playback that a request holds. The services are told of a track that starts or
/// plays, unless the request asks for silence.
pub fn report_playback(q: &QueryParams) -> (r: Result<PlaybackReport, Failure>)
    ensures
        match media_of(*q) {
            Some(id) => match track_of(id) {
                Some(n) => if q.state is Some && is_state(q.state->0@) {
                    r matches Ok(p) && p.track_id == n && p.username@ == text_or_empty(q.u)
                        && p.state@ == q.state->0@ && p.position_ms == (match q.position_ms {
                        Some(ms) => ms,
                        None => 0,
                    }) && p.announce == ((p.state@ == "starting"@ || p.state@ == "playing"@)
                        && q.ignore_scrobble != Some(true))
                } else {
                    r matches Err(f) && is_missing(f)
                },
                None => r matches Err(f) && f.is(70, "Song not found"@),
            },
            None => r matches Err(f) && is_missing(f),
        },
        r is Ok ==> q.state is Some && (q.state->0@ == "starting"@ || q.state->0@ == "playing"@
            || q.state->0@ == "paused"@ || q.state->0@ == "stopped"@),
        r is Ok && q.media_id is Some ==> track_of(q.media_id->0@) == Some(r->Ok_0.track_id as nat),
        r is Ok && q.media_id is None ==> q.id.0@.len() > 0 && track_of(q.id.0@[0]@) == Some(
            r->Ok_0.track_id as nat,
        ),
        r is Ok && q.u is Some ==> r->Ok_0.username@ == q.u->0@,
        r is Ok && q.u is None ==> r->Ok_0.username@.len() == 0,
        q.state is Some && (q.state->0@ == "starting"@ || q.state->0@ == "playing"@ || q.state->0@
            == "paused"@ || q.state->0@ == "stopped"@) && q.media_id is Some && track_of(q.media_id->0@)
            is Some ==> r is Ok,
        q.state is Some && (q.state->0@ == "starting"@ || q.state->0@ == "playing"@ || q.state->0@
            == "paused"@ || q.state->0@ == "stopped"@) && q.media_id is None && q.id.0@.len() > 0
            && track_of(q.id.0@[0]@) is Some ==> r is Ok,
{
    let id = match &q.media_id {
        Some(m) => m.as_str(),
        None => match first_id(q) {
            Some(s) => s,
            None => {
                return Err(missing());
            },
        },
    };
    let track_id: u64 = match ids::parse_track_id(id) {
        Some(n) => n,
        None => {
            return Err(not_found(IdKind::Track));
        },
    };
    let state = match &q.state {
        Some(s) => match read_state(s.as_str()) {
            Some(t) => t,
            None => {
                return Err(missing());
            },
        },
        None => {
            return Err(missing());
        },
    };
    let silent = match q.ignore_scrobble {
        Some(b) => b,
        None => false,
    };
    Ok(
        PlaybackReport {
            track_id,
            username: or_empty(&q.u),
            state,
            position_ms: match q.position_ms {
                Some(ms) => ms,
                None => 0,
            },
            announce: (text::same(state, "starting") || text::same(state, "playing")) && !silent,
        },
    )
}

/// What is playing as it is served, with its song. The song was started so many minutes ago, and
/// playback has run on by `advanced` milliseconds since the last report.
pub fn get_now_playing(n: NowPlaying, song: Child, now: i64, advanced: u64) -> (r: NowPlayingEntry)
    requires
        n.position_ms + advanced <= u64::MAX,
    ensures
        r.song == song,
        r.username == n.username,
        r.minutes_ago == minutes_since(n.started_ms as int, now as int),
        r.player_id == 0,
        r.state@ == n.state@,
        r.position_ms == (if n.state@ == "playing"@ {
            n.position_ms + advanced
        } else {
            n.position_ms as int
        }),
        r.playback_rate == n.playback_rate,
        now <= n.started_ms ==> r.minutes_ago == 0,
        n.started_ms < now < n.started_ms + 60_000 * 0x1_0000_0000 ==> r.minutes_ago * 60_000 <= now
            - n.started_ms < (r.minutes_ago + 1) * 60_000,
{
    let ago: u32 = minutes_ago(&n, now);
    let position: u64 = position_at(&n, advanced);
    NowPlayingEntry {
        song,
        username: n.username,
        minutes_ago: ago,
        player_id: 0,
        state: n.state,
        position_ms: position,
        playback_rate: n.playback_rate,
    }
}

} // verus!
