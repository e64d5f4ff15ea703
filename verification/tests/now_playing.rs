use subtidal::now_playing::{
    current_at, minutes_ago, position_at, report_at, report_playback_at, since_report, NowPlaying,
    NORMAL_RATE, STALE_MS,
};

#[test]
fn report_then_current_returns_entry() {
    let mut slot: Option<NowPlaying> = None;
    report_at(&mut slot, 42, "admin".into(), 1_000_000);
    assert!(current_at(&slot, 1_000_000 + 60_000).is_some());
}

#[test]
fn stale_report_expires() {
    let mut slot: Option<NowPlaying> = None;
    report_at(&mut slot, 42, "admin".into(), 1_000_000);
    assert!(current_at(&slot, 1_000_000 + STALE_MS + 1).is_none());
}

#[test]
fn latest_report_wins() {
    let mut slot: Option<NowPlaying> = None;
    report_at(&mut slot, 1, "a".into(), 100);
    report_at(&mut slot, 2, "b".into(), 200);
    let n = current_at(&slot, 300).unwrap();
    assert_eq!(n.track_id, 2);
    assert_eq!(n.username, "b");
}

#[test]
fn stopped_clears_the_slot() {
    let mut slot: Option<NowPlaying> = None;
    report_at(&mut slot, 42, "admin".into(), 1_000_000);
    report_playback_at(&mut slot, 42, "admin".into(), "stopped", 220_000, NORMAL_RATE, 1_100_000);
    assert!(current_at(&slot, 1_100_000).is_none());
}

#[test]
fn starting_restarts_the_session_clock() {
    let mut slot: Option<NowPlaying> = None;
    report_playback_at(&mut slot, 42, "admin".into(), "starting", 0, NORMAL_RATE, 1_000_000);
    report_playback_at(&mut slot, 42, "admin".into(), "playing", 10_000, 2.0f64.to_bits(), 1_100_000);
    let n = current_at(&slot, 1_100_000).unwrap();
    assert_eq!(n.state, "playing");
    // started_ms came from the starting event, not the playing one.
    assert_eq!(n.started_ms, 1_000_000);
    assert_eq!(n.playback_rate, 2.0f64.to_bits());
}

#[test]
fn new_track_resets_the_session() {
    let mut slot: Option<NowPlaying> = None;
    report_playback_at(&mut slot, 1, "admin".into(), "starting", 0, NORMAL_RATE, 1_000_000);
    report_playback_at(&mut slot, 2, "admin".into(), "playing", 5_000, NORMAL_RATE, 1_200_000);
    let n = current_at(&slot, 1_200_000).unwrap();
    assert_eq!(n.track_id, 2);
    assert_eq!(n.started_ms, 1_200_000);
}

#[test]
fn position_advances_only_while_playing() {
    let mut slot: Option<NowPlaying> = None;
    report_playback_at(&mut slot, 42, "admin".into(), "starting", 0, NORMAL_RATE, 1_000_000);
    report_playback_at(&mut slot, 42, "admin".into(), "playing", 10_000, NORMAL_RATE, 1_100_000);
    let n = current_at(&slot, 1_100_000).unwrap();
    assert_eq!(position_at(n, since_report(n, 1_120_000)), 30_000);
    report_playback_at(&mut slot, 42, "admin".into(), "paused", 30_000, NORMAL_RATE, 1_120_000);
    let n = current_at(&slot, 1_120_000).unwrap();
    assert_eq!(position_at(n, since_report(n, 1_200_000)), 30_000);
}

#[test]
fn a_report_counts_for_exactly_ten_minutes() {
    let mut slot: Option<NowPlaying> = None;
    report_at(&mut slot, 42, "admin".into(), 0);
    assert_eq!(NORMAL_RATE, 1.0f64.to_bits());
    assert!(current_at(&slot, STALE_MS).is_some());
    assert!(current_at(&slot, STALE_MS + 1).is_none());
    assert_eq!(minutes_ago(current_at(&slot, 0).unwrap(), 125_000), 2);
}
