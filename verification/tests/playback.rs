use subtidal::handlers::annotate::{scrobble, set_rating, Report};
use subtidal::handlers::bookmarks::{create_bookmark, delete_bookmark, get_bookmarks};
use subtidal::handlers::now_playing::{
    get_now_playing, report_playback as read_playback, update_now_playing,
};
use subtidal::handlers::playqueue::{
    get_play_queue, get_play_queue_by_index, restore_queue, save_play_queue,
    save_play_queue_by_index, sync_saved_queue, QueueSync,
};
use subtidal::models::song::{Child, ReplayGain};
use subtidal::now_playing::{current, report, report_playback, NowPlaying, NORMAL_RATE};
use subtidal::params::QueryParams;
use subtidal::play_state::{bookmarks, empty_state};

fn params(s: &str) -> QueryParams {
    QueryParams::from_merged(s).unwrap()
}

fn song(id: &str, year: Option<u32>, genre: Option<&str>) -> Child {
    Child {
        id: id.to_string(),
        parent: "al1".to_string(),
        is_dir: false,
        is_video: false,
        title: "t".to_string(),
        album: "a".to_string(),
        artist: "x".to_string(),
        track: 1,
        year,
        genre: genre.map(|g| g.to_string()),
        genres: None,
        cover_art: None,
        duration: 100,
        bit_rate: None,
        bit_depth: None,
        sampling_rate: None,
        channel_count: None,
        disc_number: None,
        album_id: "al1".to_string(),
        artist_id: "ar1".to_string(),
        artists: None,
        isrc: None,
        kind: "music",
        content_type: "audio/mpeg",
        suffix: "mp3",
        size: 0,
        path: "x".to_string(),
        created: String::new(),
        starred: None,
        starred_at: None,
        explicit_status: None,
        replay_gain: ReplayGain { track_gain: None, track_peak: None },
    }
}

#[test]
fn missing_id_fails_with_code_10() {
    assert_eq!(scrobble(&params("submission=true"), 0).err().map(|f| f.code), Some(10));
}

#[test]
fn with_id_returns_ok() {
    match scrobble(&params("id=t463900374&submission=true&time=1786116785370"), 5) {
        Ok(Report::Played(v, time)) => {
            assert_eq!(v, vec![463900374]);
            assert_eq!(time, 1786116785370);
        }
        _ => panic!("the track was played"),
    }
}

#[test]
fn submission_false_feeds_now_playing() {
    let mut slot: Option<NowPlaying> = None;
    match scrobble(&params("id=t463900374&submission=false"), 0) {
        Ok(Report::Playing(Some(id))) => report(&mut slot, id, String::new()),
        _ => panic!("the track is playing"),
    }
    assert_eq!(current(&slot).unwrap().track_id, 463900374);
}

#[test]
fn submission_true_does_not_feed_now_playing() {
    let mut slot: Option<NowPlaying> = None;
    report_playback(&mut slot, 999, "admin".into(), "stopped", 0, NORMAL_RATE);
    if let Ok(Report::Playing(Some(id))) = scrobble(&params("id=t463900374&submission=true"), 0) {
        report(&mut slot, id, String::new());
    }
    assert!(
        current(&slot).is_none(),
        "a real scrobble must not set the now-playing slot"
    );
}

#[test]
fn rating_without_id_fails_with_code_10() {
    assert_eq!(set_rating(&params("rating=4")).unwrap_err().code, 10);
}

#[test]
fn valid_rating_returns_ok() {
    assert!(set_rating(&params("id=t42&rating=4")).is_ok());
}

#[test]
fn rating_of_zero_removes_and_returns_ok() {
    assert!(set_rating(&params("id=t42&rating=0")).is_ok());
}

#[test]
fn rating_above_five_fails_with_code_70() {
    assert_eq!(set_rating(&params("id=t42&rating=6")).unwrap_err().code, 70);
}

#[test]
fn undecodable_id_fails_with_code_70() {
    assert_eq!(set_rating(&params("id=abc&rating=3")).unwrap_err().code, 70);
}

#[test]
fn save_without_current_fails_with_code_10() {
    assert_eq!(save_play_queue(&params("id=t1&id=t2"), 0).err().map(|f| f.code), Some(10));
}

#[test]
fn save_with_bad_id_fails_with_code_70() {
    assert_eq!(save_play_queue(&params("id=al9&current=t1"), 0).err().map(|f| f.code), Some(70));
}

#[test]
fn empty_save_returns_ok() {
    assert!(save_play_queue(&params(""), 0).is_ok());
}

#[test]
fn valid_save_returns_ok() {
    let q = save_play_queue(&params("id=t1&id=t2&current=t2&position=120000"), 7).ok().unwrap();
    assert_eq!(q.track_ids, vec![1, 2]);
    assert_eq!(q.current, Some(2));
    assert_eq!(q.current_index, Some(1));
    assert_eq!(q.position_ms, 120_000);
    assert_eq!(q.changed_ms, 7);
}

#[test]
fn by_index_valid_save_returns_ok() {
    let q = save_play_queue_by_index(&params("id=t1&id=t2&id=t3&currentIndex=1&position=120000"), 0).ok().unwrap();
    assert_eq!(q.current, Some(2));
    assert_eq!(q.current_index, Some(1));
}

#[test]
fn by_index_bad_id_fails_with_code_70() {
    assert_eq!(save_play_queue_by_index(&params("id=ar7&currentIndex=0"), 0).err().map(|f| f.code), Some(70));
}

#[test]
fn by_index_empty_save_returns_ok() {
    assert!(save_play_queue_by_index(&params(""), 0).is_ok());
}

#[test]
fn by_index_without_current_index_is_tolerated() {
    let q = save_play_queue_by_index(&params("id=t1&id=t2&position=5000"), 0).ok().unwrap();
    assert_eq!(q.current, None);
    assert_eq!(q.position_ms, 5000);
}

#[test]
fn a_queue_with_a_song_twice_comes_back_at_its_place() {
    let q = save_play_queue_by_index(&params("id=t1&id=t2&id=t1&currentIndex=2"), 0).ok().unwrap();
    let served = get_play_queue_by_index(q, vec![None, Some(song("t2", None, None)), None]);
    assert_eq!(served.current_index, Some(2));
    assert_eq!(served.entry.len(), 1);
    assert_eq!(served.changed, "1970-01-01T00:00:00Z");
}

#[test]
fn a_saved_queue_comes_before_that_of_the_service() {
    let saved = save_play_queue(&params("id=t1&current=t1"), 3).ok().unwrap();
    let q = restore_queue(Some(saved), Some((vec![9], Some(9))), 4);
    assert_eq!((q.track_ids.clone(), q.changed_ms), (vec![1], 3));
    let served = get_play_queue(q, vec![None]);
    assert_eq!(served.current.as_deref(), Some("t1"));
    let q = restore_queue(None, Some((vec![8, 9], Some(9))), 4);
    assert_eq!((q.track_ids.clone(), q.current_index, q.changed_ms), (vec![8, 9], Some(1), 4));
    assert!(restore_queue(None, None, 4).track_ids.is_empty());
    assert!(matches!(sync_saved_queue(&vec![], None), QueueSync::Clear));
    assert!(matches!(sync_saved_queue(&vec![4], Some(4)), QueueSync::Push(4)));
}

#[test]
fn bookmarks_are_made_and_taken_away() {
    let mut state = empty_state();
    assert!(create_bookmark(&mut state, &params("id=t5&position=1000&comment=c&u=alice"), 10).is_ok());
    assert_eq!(create_bookmark(&mut state, &params("id=t5"), 10).unwrap_err().code, 10);
    assert_eq!(create_bookmark(&mut state, &params("id=zz&position=1"), 10).unwrap_err().code, 70);
    assert_eq!(create_bookmark(&mut state, &params("position=1"), 10).unwrap_err().code, 10);
    let all = bookmarks(&state);
    let served = get_bookmarks(&all, vec![Some(song("t5", None, None))]);
    assert_eq!(served.len(), 1);
    assert_eq!(served[0].position, 1000);
    assert_eq!(served[0].comment, "c");
    assert_eq!(served[0].username, "alice");
    assert_eq!(delete_bookmark(&mut state, &params("id=t5")).ok(), Some(true));
    assert_eq!(delete_bookmark(&mut state, &params("id=t5")).ok(), Some(false));
    assert_eq!(delete_bookmark(&mut state, &params("")).unwrap_err().code, 10);
    assert_eq!(delete_bookmark(&mut state, &params("id=zz")).unwrap_err().code, 70);
}

#[test]
fn the_song_that_plays_is_shown_with_its_place() {
    assert_eq!(update_now_playing(&params("id=t4&u=alice")).ok(), Some((4, "alice".to_string())));
    assert_eq!(update_now_playing(&params("")).unwrap_err().code, 10);
    let n = NowPlaying {
        track_id: 4,
        username: "alice".to_string(),
        state: "playing",
        position_ms: 1000,
        playback_rate: NORMAL_RATE,
        last_report_ms: 0,
        started_ms: 0,
    };
    let e = get_now_playing(n, song("t4", None, None), 120_000, 500);
    assert_eq!(e.position_ms, 1500);
    assert_eq!(e.minutes_ago, 2);
    assert_eq!(e.playback_rate, NORMAL_RATE);
}

#[test]
fn reports_of_playback_are_read() {
    let p = read_playback(&params("mediaId=t9&state=paused&positionMs=1500&u=alice")).unwrap();
    assert_eq!((p.track_id, p.state, p.position_ms, p.announce), (9, "paused", 1500, false));
    assert_eq!(p.username, "alice");
    let p = read_playback(&params("id=9&state=playing")).unwrap();
    assert_eq!((p.track_id, p.position_ms, p.announce), (9, 0, true));
    assert!(!read_playback(&params("id=9&state=starting&ignoreScrobble=true")).unwrap().announce);
    assert_eq!(read_playback(&params("state=playing")).unwrap_err().code, 10);
    assert_eq!(read_playback(&params("id=x&state=playing")).unwrap_err().code, 70);
    assert_eq!(read_playback(&params("id=9&state=flying")).unwrap_err().code, 10);
    assert_eq!(read_playback(&params("id=9")).unwrap_err().code, 10);
}
