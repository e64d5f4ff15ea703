use subtidal::handlers::tracks::{
    cut, fill_year, fitting, get_random_songs, get_song, get_songs_by_genre, pick_random,
    similar_seed, similar_songs_core,
};
use subtidal::json::Json;
use subtidal::models::song::{Child, ReplayGain};
use subtidal::params::QueryParams;

fn params(s: &str) -> QueryParams {
    QueryParams::from_merged(s).unwrap()
}

fn song(id: &str, year: Option<u32>, genre: Option<&str>) -> Child {
    Child {
        id: id.to_string(),
        parent: "al1".to_string(),
        is_dir: false,
        is_video: false,
        title: "t".to_string(),
        album: "a".to_string(),
        artist: "x".to_string(),
        track: 1,
        year,
        genre: genre.map(|g| g.to_string()),
        genres: None,
        cover_art: None,
        duration: 100,
        bit_rate: None,
        bit_depth: None,
        sampling_rate: None,
        channel_count: None,
        disc_number: None,
        album_id: "al1".to_string(),
        artist_id: "ar1".to_string(),
        artists: None,
        isrc: None,
        kind: "music",
        content_type: "audio/mpeg",
        suffix: "mp3",
        size: 0,
        path: "x".to_string(),
        created: String::new(),
        starred: None,
        starred_at: None,
        explicit_status: None,
        replay_gain: ReplayGain { track_gain: None, track_peak: None },
    }
}

fn names(songs: &[Child]) -> Vec<&str> {
    songs.iter().map(|s| s.id.as_str()).collect()
}

#[test]
fn random_songs_truncates_to_size() {
    let songs = vec![song("a", None, None), song("b", None, None), song("c", None, None)];
    let picked = pick_random(songs, 2, None, None, None);
    assert_eq!(picked.len(), 2);
}

#[test]
fn random_songs_filters_by_genre_and_year() {
    let songs = vec![
        song("a", Some(2005), Some("Rock")),
        song("b", Some(2010), Some("Jazz")),
        song("c", Some(2015), Some("Rock")),
    ];
    let picked = pick_random(songs, 10, Some("Rock"), Some(2010), Some(2020));
    assert_eq!(picked.len(), 1);
    assert_eq!(picked[0].id, "c");
}

#[test]
fn random_songs_keeps_all_ids_when_shuffling() {
    let songs = vec![song("a", None, None), song("b", None, None), song("c", None, None)];
    let picked = pick_random(songs, 10, None, None, None);
    let mut ids: Vec<&str> = picked.iter().map(|s| s.id.as_str()).collect();
    ids.sort();
    assert_eq!(ids, vec!["a", "b", "c"]);
}

#[test]
fn songs_come_out_in_another_order_now_and_then() {
    let all = || (0..40).map(|i| song(&format!("t{i}"), None, None)).collect::<Vec<_>>();
    let before = all();
    let moved = (0..5).any(|_| names(&pick_random(all(), 40, None, None, None)) != names(&before));
    assert!(moved);
}

#[test]
fn songs_without_a_year_fit_every_window() {
    let songs = || vec![song("a", None, None), song("b", Some(1990), None)];
    assert_eq!(names(&fitting(songs(), None, Some(1980), None)), vec!["a", "b"]);
    assert_eq!(names(&fitting(songs(), None, None, Some(1989))), vec!["a"]);
    assert_eq!(names(&fitting(songs(), None, None, None)), vec!["a", "b"]);
    assert_eq!(names(&cut(songs(), 1)), vec!["a"]);
}

#[test]
fn requests_for_songs_name_them() {
    assert_eq!(get_song(&params("id=t7")).unwrap(), 7);
    assert_eq!(get_song(&params("")).unwrap_err().code, 10);
    assert_eq!(get_song(&params("id=ar7")).unwrap_err().code, 70);
    assert_eq!(fill_year(song("a", None, None), Some(Some(1999))).year, Some(1999));
    assert_eq!(fill_year(song("a", Some(2001), None), None).year, Some(2001));
    let twelve = (0..12).map(|i| song(&format!("t{i}"), None, None)).collect::<Vec<_>>();
    assert_eq!(get_random_songs(&params(""), twelve).len(), 10);
}

#[test]
fn songs_of_a_genre_are_paged() {
    let songs = || vec![
        song("a", None, Some("Rock")),
        song("b", None, Some("Jazz")),
        song("c", None, Some("Rock")),
    ];
    assert_eq!(names(&get_songs_by_genre(&params("genre=Rock"), songs()).unwrap()), vec!["a", "c"]);
    assert_eq!(names(&get_songs_by_genre(&params("genre=Rock&offset=1&count=5"), songs()).unwrap()), vec!["c"]);
    assert_eq!(get_songs_by_genre(&params(""), songs()).unwrap_err().code, 10);
}

fn artists(ids: &[u64]) -> Json {
    Json::Object(vec![(
        "items".to_string(),
        Json::Array(ids.iter().map(|i| Json::Object(vec![("id".to_string(), Json::Unsigned(*i))])).collect()),
    )])
}

#[test]
fn similar_songs_are_gathered_without_repeats() {
    let mut s = similar_songs_core(&params("id=ar5&count=3")).unwrap();
    assert_eq!((s.artist_id, s.count), (5, 3));
    let more = s.feed_arrived(vec![song("t1", None, None), song("t2", None, None)]);
    assert!(more);
    assert_eq!(s.artists_arrived(Some(&artists(&[8, 9]))).unwrap(), 1);
    assert_eq!(s.next_artist(), Some(5));
    s.tracks_arrived(Some(vec![song("t2", None, None), song("t3", None, None)])).unwrap();
    assert_eq!(s.next_artist(), Some(8));
    s.tracks_arrived(None).unwrap();
    assert_eq!(s.next_artist(), Some(9));
    s.tracks_arrived(Some(vec![song("t1", None, None)])).unwrap();
    assert_eq!(s.next_artist(), None);
    let found = s.finish();
    let mut ids = names(&found);
    ids.sort();
    assert_eq!(ids, vec!["t1", "t2", "t3"]);
    assert!(similar_songs_core(&params("")).is_err());
    assert_eq!(similar_seed(&Json::Null), None);
}

#[test]
fn a_search_that_cannot_start_fails() {
    let mut s = similar_songs_core(&params("id=ar5")).unwrap();
    assert_eq!(s.count, 50);
    assert!(s.feed_arrived(vec![]));
    assert_eq!(s.artists_arrived(None).unwrap_err().message, "Similar songs unavailable");
    let mut s = similar_songs_core(&params("id=5&count=4")).unwrap();
    s.feed_arrived(vec![]);
    s.artists_arrived(Some(&artists(&[]))).unwrap();
    assert!(s.tracks_arrived(None).is_err());
}
