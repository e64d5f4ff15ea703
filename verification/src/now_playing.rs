//! What is playing now. The server has one user, so there is one slot: each report replaces it,
//! and it runs out ten minutes after the last report.

use crate::clock;
use crate::text;
use vstd::prelude::*;

verus! {

/// How long a report counts.
pub const STALE_MS: i64 = 600_000;

/// A song that is playing, starting or paused.
#[derive(Debug)]
pub struct NowPlaying {
    pub track_id: u64,
    pub username: String,
    /// One of `starting`, `playing` and `paused`; a song that stopped leaves the slot.
    pub state: &'static str,
    pub position_ms: u64,
    /// The bits of the speed as a double; nothing here reads it.
    pub playback_rate: u64,
    /// When the last report came.
    pub last_report_ms: i64,
    /// When the song was started.
    pub started_ms: i64,
}

/// The bits of the normal speed as a double.
pub const NORMAL_RATE: u64 = 0x3ff0_0000_0000_0000;

/// The slot holds a song that plays from its start at normal speed.
pub open spec fn plays_from_start(
    slot: Option<NowPlaying>,
    track_id: u64,
    username: String,
    now: i64,
) -> bool {
    match slot {
        Some(n) => {
            &&& n.track_id == track_id
            &&& n.username == username
            &&& n.state@ == "playing"@
            &&& n.position_ms == 0
            &&& n.playback_rate == NORMAL_RATE
            &&& n.last_report_ms == now
            &&& n.started_ms == now
        },
        None => false,
    }
}

/// A report without a position: the song plays from its start at normal speed.
pub fn report(slot: &mut Option<NowPlaying>, track_id: u64, username: String)
    ensures
        exists|now: i64| plays_from_start(*final(slot), track_id, username, now),
{
    let now: i64 = clock::now_ms();
    report_at(slot, track_id, username, now);
    assert(plays_from_start(*slot, track_id, username, now));
}

/// A report without a position, at a given time.
pub fn report_at(slot: &mut Option<NowPlaying>, track_id: u64, username: String, now: i64)
    ensures
        plays_from_start(*final(slot), track_id, username, now),
        *final(slot) is Some,
        final(slot)->0.track_id == track_id,
        final(slot)->0.username == username,
        final(slot)->0.state@ == "playing"@,
        final(slot)->0.position_ms == 0,
        final(slot)->0.playback_rate == 0x3ff0_0000_0000_0000u64,
        final(slot)->0.last_report_ms == now,
        final(slot)->0.started_ms == now,
{
    *slot = Some(
        NowPlaying {
            track_id,
            username,
            state: "playing",
            position_ms: 0,
            playback_rate: NORMAL_RATE,
            last_report_ms: now,
            started_ms: now,
        },
    );
}

/// When the song of a report was started: now, where the report says that it starts or where
/// another song or none was playing, and otherwise when it was.
pub open spec fn session_start(
    before: Option<NowPlaying>,
    track_id: u64,
    play_state: Seq<char>,
    now: i64,
) -> i64 {
    match before {
        Some(n) => if play_state == "starting"@ || n.track_id != track_id {
            now
        } else {
            n.started_ms
        },
        None => now,
    }
}

/// What a report makes of the slot.
pub open spec fn reported(
    before: Option<NowPlaying>,
    after: Option<NowPlaying>,
    track_id: u64,
    username: String,
    play_state: Seq<char>,
    position_ms: u64,
    playback_rate: u64,
    now: i64,
) -> bool {
    if play_state == "stopped"@ {
        after is None
    } else {
        match after {
            Some(n) => {
                &&& n.track_id == track_id
                &&& n.username == username
                &&& n.state@ == play_state
                &&& n.position_ms == position_ms
                &&& n.playback_rate == playback_rate
                &&& n.last_report_ms == now
                &&& n.started_ms == session_start(before, track_id, play_state, now)
            },
            None => false,
        }
    }
}

/// A report on the playback of a song.
pub fn report_playback(
    slot: &mut Option<NowPlaying>,
    track_id: u64,
    username: String,
    play_state: &'static str,
    position_ms: u64,
    playback_rate: u64,
)
    ensures
        exists|now: i64|
            reported(
                *old(slot),
                *final(slot),
                track_id,
                username,
                play_state@,
                position_ms,
                playback_rate,
                now,
            ),
{
    let now: i64 = clock::now_ms();
    report_playback_at(slot, track_id, username, play_state, position_ms, playback_rate, now);
    assert(reported(
        *old(slot),
        *slot,
        track_id,
        username,
        play_state@,
        position_ms,
        playback_rate,
        now,
    ));
}

/// A report on the playback of a song, at a given time.
pub fn report_playback_at(
    slot: &mut Option<NowPlaying>,
    track_id: u64,
    username: String,
    play_state: &'static str,
    position_ms: u64,
    playback_rate: u64,
    now: i64,
)
    ensures
        reported(
            *old(slot),
            *final(slot),
            track_id,
            username,
            play_state@,
            position_ms,
            playback_rate,
            now,
        ),
        *final(slot) is None <==> play_state@ == "stopped"@,
        play_state@ != "stopped"@ ==> {
            &&& final(slot)->0.track_id == track_id
            &&& final(slot)->0.username == username
            &&& final(slot)->0.state@ == play_state@
            &&& final(slot)->0.position_ms == position_ms
            &&& final(slot)->0.playback_rate == playback_rate
            &&& final(slot)->0.last_report_ms == now
        },
        play_state@ != "stopped"@ && *old(slot) is Some && old(slot)->0.track_id == track_id
            && play_state@ != "starting"@ ==> final(slot)->0.started_ms == old(slot)->0.started_ms,
        play_state@ != "stopped"@ && (*old(slot) is None || old(slot)->0.track_id != track_id
            || play_state@ == "starting"@) ==> final(slot)->0.started_ms == now,
{
    if text::same(play_state, "stopped") {
        *slot = None;
        return ;
    }
    let starting = text::same(play_state, "starting");
    let started_ms: i64 = match slot.as_ref() {
        Some(n) => if starting || n.track_id != track_id {
            now
        } else {
            n.started_ms
        },
        None => now,
    };
    *slot = Some(
        NowPlaying {
            track_id,
            username,
            state: play_state,
            position_ms,
            playback_rate,
            last_report_ms: now,
            started_ms,
        },
    );
}

/// The slot holds a song whose last report still counts.
pub open spec fn is_current(slot: Option<NowPlaying>, now: int) -> bool {
    match slot {
        Some(n) => now - n.last_report_ms <= STALE_MS,
        None => false,
    }
}

/// What is playing now, as far as the reports tell.
pub fn current(slot: &Option<NowPlaying>) -> (r: Option<&NowPlaying>)
    ensures
        r is Some ==> slot == &Some(*r->0),
        exists|now: i64| now >= 0 && (r is Some <==> #[trigger] is_current(*slot, now as int)),
{
    let now: i64 = clock::now_ms();
    let r = current_at(slot, now);
    assert(r is Some <==> is_current(*slot, now as int));
    r
}

/// What is playing at a given time.
pub fn current_at(slot: &Option<NowPlaying>, now: i64) -> (r: Option<&NowPlaying>)
    ensures
        match r {
            Some(n) => is_current(*slot, now as int) && slot == &Some(*n),
            None => !is_current(*slot, now as int),
        },
        r is Some <==> *slot is Some && now - slot->0.last_report_ms <= 600_000,
        r is Some ==> slot == &Some(*r->0),
{
    match slot.as_ref() {
        Some(n) => if now as i128 - n.last_report_ms as i128 <= STALE_MS as i128 {
            Some(n)
        } else {
            None
        },
        None => None,
    }
}

/// The milliseconds since the last report, none where the clock was set back.
pub fn since_report(n: &NowPlaying, now: i64) -> (r: u64)
    ensures
        r == (if now >= n.last_report_ms {
            now - n.last_report_ms
        } else {
            0
        }),
{
    if now >= n.last_report_ms {
        (now as i128 - n.last_report_ms as i128) as u64
    } else {
        0
    }
}

/// The place in the song that playback has reached, where it has run on by `advanced`
/// milliseconds since the last report: a song that does not play stays where it is.
pub fn position_at(n: &NowPlaying, advanced: u64) -> (r: u64)
    requires
        n.position_ms + advanced <= u64::MAX,
    ensures
        r == (if n.state@ == "playing"@ {
            n.position_ms + advanced
        } else {
            n.position_ms as int
        }),
{
    if text::same(n.state, "playing") {
        n.position_ms + advanced
    } else {
        n.position_ms
    }
}

/// The whole minutes since the song was started, as far as 32 bits count them.
pub open spec fn minutes_since(started_ms: int, now: int) -> int {
    (if now > started_ms {
        now - started_ms
    } else {
        0
    }) / 60_000 % 0x1_0000_0000
}

/// The whole minutes since the song was started.
pub fn minutes_ago(n: &NowPlaying, now: i64) -> (r: u32)
    ensures
        r == minutes_since(n.started_ms as int, now as int),
        now <= n.started_ms ==> r == 0,
        n.started_ms < now < n.started_ms + 60_000 * 0x1_0000_0000 ==> r * 60_000 <= now
            - n.started_ms < (r + 1) * 60_000,
{
    let ms: i128 = now as i128 - n.started_ms as i128;
    if ms > 0 {
        (ms / 60_000 % 0x1_0000_0000) as u32
    } else {
        0
    }
}

/// A report is there until it is stale, and is then gone for good unless another comes.
pub proof fn law_reports_run_out(slot: Option<NowPlaying>, t: int, u: int)
    requires
        slot is Some,
        t <= u,
    ensures
        is_current(slot, slot->0.last_report_ms as int),
        is_current(slot, u) ==> is_current(slot, t),
        !is_current(slot, slot->0.last_report_ms + STALE_MS + 1),
        is_current(slot, t) <==> t <= slot->0.last_report_ms + 600_000,
        !is_current(None, t),
{
}

/// The clock of a session runs from its start: reports that neither start the song nor change it
/// leave the start as it was.
pub proof fn law_session_clock_runs_on(
    slots: Seq<Option<NowPlaying>>,
    track_id: u64,
    username: String,
    states: Seq<Seq<char>>,
    times: Seq<i64>,
    position_ms: u64,
    playback_rate: u64,
)
    requires
        slots.len() == states.len() + 1,
        states.len() == times.len(),
        slots[0] is Some,
        slots[0]->0.track_id == track_id,
        forall|i: int| 0 <= i < states.len() ==> states[i] != "starting"@ && states[i] != "stopped"@,
        forall|i: int|
            0 <= i < states.len() ==> #[trigger] reported(
                slots[i],
                slots[i + 1],
                track_id,
                username,
                states[i],
                position_ms,
                playback_rate,
                times[i],
            ),
    ensures
        slots.last() is Some,
        slots.last()->0.track_id == track_id,
        slots.last()->0.started_ms == slots[0]->0.started_ms,
    decreases states.len(),
{
    if states.len() > 0 {
        let n = states.len() as int;
        let earlier = slots.drop_last();
        assert forall|i: int| 0 <= i < n - 1 implies #[trigger] reported(
            earlier[i],
            earlier[i + 1],
            track_id,
            username,
            states.drop_last()[i],
            position_ms,
            playback_rate,
            times.drop_last()[i],
        ) by {
            assert(reported(
                slots[i],
                slots[i + 1],
                track_id,
                username,
                states[i],
                position_ms,
                playback_rate,
                times[i],
            ));
        }
        law_session_clock_runs_on(
            earlier,
            track_id,
            username,
            states.drop_last(),
            times.drop_last(),
            position_ms,
            playback_rate,
        );
        assert(reported(
            slots[n - 1],
            slots[n - 1 + 1],
            track_id,
            username,
            states[n - 1],
            position_ms,
            playback_rate,
            times[n - 1],
        ));
        assert(earlier.last() == slots[n - 1]);
    }
}

/// What a report leaves: nothing where the song stopped, and otherwise the song with all that the
/// report says. Only a report that starts the song, or one of another song, sets its clock.
pub proof fn law_a_report_is_what_is_playing(
    before: Option<NowPlaying>,
    after: Option<NowPlaying>,
    track_id: u64,
    username: String,
    play_state: Seq<char>,
    position_ms: u64,
    playback_rate: u64,
    now: i64,
)
    requires
        reported(
            before,
            after,
            track_id,
            username,
            play_state,
            position_ms,
            playback_rate,
            now,
        ),
    ensures
        after is None <==> play_state == "stopped"@,
        after is Some ==> after->0.track_id == track_id && after->0.username == username
            && after->0.state@ == play_state && after->0.position_ms == position_ms
            && after->0.playback_rate == playback_rate && after->0.last_report_ms == now,
        after is Some && (before is None || before->0.track_id != track_id || play_state
            == "starting"@) ==> after->0.started_ms == now,
        after is Some && before is Some && before->0.track_id == track_id && play_state
            != "starting"@ ==> after->0.started_ms == before->0.started_ms,
{
}

} // verus!
