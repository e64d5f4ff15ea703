use subtidal::calendar::{iso8601_ms, iso8601_z};
use subtidal::json::Json;
use subtidal::play_state::{
    bookmarks, delete_bookmark, empty_state, frequent_albums, init, persist, play_count, queue,
    recent_albums, record_play, record_play_from_track, reset, resolved, save_queue,
    save_resolved, should_write, upsert_bookmark, Bookmark, Persisted, PlayQueue, PlayRecord,
    ResolvedQueue, HISTORY_CAP,
};

#[test]
fn save_then_queue_returns_it() {
    let mut state = empty_state();
    // Distinct ids: the playqueue handler tests write the same global
    // queue concurrently, so an interleaved write cannot satisfy these.
    save_queue(&mut state, PlayQueue {
        track_ids: vec![10_001, 10_002],
        current: Some(10_002),
        current_index: Some(1),
        position_ms: 5_000,
        username: "admin".into(),
        changed_by: "test".into(),
        changed_ms: 100,
    });
    let q = queue(&state).unwrap();
    assert_eq!(q.track_ids, vec![10_001, 10_002]);
    assert_eq!(q.current, Some(10_002));
    assert_eq!(q.current_index, Some(1));
    assert_eq!(q.position_ms, 5_000);
}

#[test]
fn empty_id_list_clears_the_queue() {
    let mut state = empty_state();
    save_queue(&mut state, PlayQueue {
        track_ids: vec![],
        current: None,
        current_index: None,
        position_ms: 0,
        username: "admin".into(),
        changed_by: "test".into(),
        changed_ms: 100,
    });
    assert!(queue(&state).is_none());
}

#[test]
fn latest_save_wins() {
    let mut state = empty_state();
    save_queue(&mut state, PlayQueue {
        track_ids: vec![10_001],
        current: Some(10_001),
        current_index: Some(0),
        position_ms: 0,
        username: "a".into(),
        changed_by: "c".into(),
        changed_ms: 100,
    });
    save_queue(&mut state, PlayQueue {
        track_ids: vec![10_003, 10_004],
        current: Some(10_004),
        current_index: Some(1),
        position_ms: 9_000,
        username: "b".into(),
        changed_by: "d".into(),
        changed_ms: 200,
    });
    let q = queue(&state).unwrap();
    assert_eq!(q.track_ids, vec![10_003, 10_004]);
    assert_eq!(q.username, "b");
}

#[test]
fn upsert_keeps_original_created_time() {
    let mut state = empty_state();
    upsert_bookmark(&mut state, 42, 10_000, "chapter one".into(), "admin".into(), 100);
    upsert_bookmark(&mut state, 42, 25_000, "chapter two".into(), "admin".into(), 200);
    let all = bookmarks(&state);
    assert_eq!(all.len(), 1);
    assert_eq!(all[0].position_ms, 25_000);
    assert_eq!(all[0].comment, "chapter two");
    assert_eq!(all[0].username, "admin");
    assert_eq!(all[0].created_ms, 100);
    assert_eq!(all[0].changed_ms, 200);
}

#[test]
fn delete_removes_only_the_named_track() {
    let mut state = empty_state();
    upsert_bookmark(&mut state, 1, 1_000, "".into(), "admin".into(), 100);
    upsert_bookmark(&mut state, 2, 2_000, "".into(), "admin".into(), 200);
    assert!(delete_bookmark(&mut state, 1));
    assert!(!delete_bookmark(&mut state, 1));
    let all = bookmarks(&state);
    assert_eq!(all.len(), 1);
    assert_eq!(all[0].track_id, 2);
}

#[test]
fn bookmarks_are_ordered_oldest_first() {
    let mut state = empty_state();
    upsert_bookmark(&mut state, 3, 1_000, "".into(), "admin".into(), 300);
    upsert_bookmark(&mut state, 1, 1_000, "".into(), "admin".into(), 100);
    upsert_bookmark(&mut state, 2, 1_000, "".into(), "admin".into(), 200);
    let ids: Vec<u64> = bookmarks(&state).iter().map(|b| b.track_id).collect();
    assert_eq!(ids, vec![1, 2, 3]);
}

#[test]
fn history_orders_by_recency_and_frequency() {
    let mut state = empty_state();
    record_play(&mut state, 1, 100);
    record_play(&mut state, 2, 200);
    record_play(&mut state, 1, 300);
    record_play(&mut state, 3, 250);
    let recent: Vec<u64> = recent_albums(&state).iter().map(|r| r.album_id).collect();
    assert_eq!(recent, vec![1, 3, 2]);
    let frequent: Vec<u64> = frequent_albums(&state).iter().map(|r| r.album_id).collect();
    // Album 1 played twice; the rest tie and keep recency order.
    assert_eq!(frequent, vec![1, 3, 2]);
    assert_eq!(play_count(&state, 1), 2);
    assert_eq!(play_count(&state, 9), 0);
    let album = Json::Object(vec![("id".to_string(), Json::Unsigned(4))]);
    record_play_from_track(&mut state, &Json::Object(vec![("album".to_string(), album)]), 400);
    assert_eq!(play_count(&state, 4), 1);
}

#[test]
fn history_drops_the_least_recent_past_the_cap() {
    let mut state = empty_state();
    for i in 0..=HISTORY_CAP as u64 {
        record_play(&mut state, i, i as i64);
    }
    assert_eq!(recent_albums(&state).len(), HISTORY_CAP);
    assert_eq!(play_count(&state, 0), 0, "album 0 was the least recently played");
    assert_eq!(play_count(&state, HISTORY_CAP as u64), 1);
}

#[test]
fn iso8601_z_formats_epoch_known_values() {
    assert_eq!(iso8601_z(0), "1970-01-01T00:00:00Z");
    assert_eq!(iso8601_z(1_673_776_800_000), "2023-01-15T10:00:00Z");
    assert_eq!(iso8601_z(1_672_617_600_000), "2023-01-02T00:00:00Z");
}

fn stored() -> Persisted {
    Persisted {
        queue: Some(PlayQueue {
            track_ids: vec![1, 2],
            current: Some(2),
            current_index: Some(1),
            position_ms: 5,
            username: "u".into(),
            changed_by: "c".into(),
            changed_ms: 9,
        }),
        bookmarks: vec![Bookmark {
            track_id: 7,
            position_ms: 1,
            comment: "x".into(),
            username: "u".into(),
            created_ms: 1,
            changed_ms: 2,
        }],
        history: vec![PlayRecord { album_id: 3, play_count: 2, last_played_ms: 4 }],
    }
}

#[test]
fn a_snapshot_restores_what_it_was_taken_of() {
    let mut state = init(Some(stored()));
    let (number, snapshot) = persist(&mut state).unwrap();
    let again = init(Some(snapshot));
    assert_eq!(queue(&again).unwrap().track_ids, vec![1, 2]);
    assert_eq!(bookmarks(&again)[0].track_id, 7);
    assert_eq!(play_count(&again, 3), 2);
    let (next, _) = persist(&mut state).unwrap();
    assert!(next > number);
    assert!(should_write(number, next));
    assert!(!should_write(next, number));
    assert!(init(None).queue.is_none());
}

#[test]
fn nothing_is_written_before_the_store_was_read() {
    let mut state = empty_state();
    record_play(&mut state, 1, 1);
    assert!(persist(&mut state).is_none());
}

#[test]
fn resolved_songs_are_kept_until_they_are_replaced() {
    let mut state = empty_state();
    assert!(resolved(&state).is_none());
    save_resolved(&mut state, Some(ResolvedQueue { for_ids: vec![1], entries: vec![], dropped_positions: vec![0] }));
    assert_eq!(resolved(&state).unwrap().for_ids, vec![1]);
    save_resolved(&mut state, None);
    assert!(resolved(&state).is_none());
    record_play(&mut state, 1, 1);
    reset(&mut state);
    assert_eq!(play_count(&state, 1), 0);
}

#[test]
fn times_before_the_epoch_and_out_of_range_are_formatted() {
    assert_eq!(iso8601_z(-1000), "1969-12-31T23:59:59Z");
    assert_eq!(iso8601_z(999), "1970-01-01T00:00:00Z");
    assert_eq!(iso8601_z(i64::MAX), "1970-01-01T00:00:00Z");
    assert_eq!(iso8601_z(951_782_400_000), "2000-02-29T00:00:00Z");
}

#[test]
fn moments_are_written_and_read_back() {
    for s in [0, 1, 951_782_399, 951_782_400, 1_673_776_800, 4_102_444_800, -1, -62_167_219_200] {
        assert_eq!(iso8601_ms(&iso8601_z(s * 1000)), Some(s * 1000));
    }
}
