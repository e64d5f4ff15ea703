use subtidal::handlers::favorites::{
    favorite_track_songs, get_starred, get_starred2, partition_ids, set_starred, toggle_failed,
};
use subtidal::ids::IdKind;
use subtidal::json::Json;
use subtidal::models::album::AlbumId3;
use subtidal::models::artist::ArtistId3;
use subtidal::models::song::{Child, ReplayGain};
use subtidal::params::QueryParams;

fn params(s: &str) -> QueryParams {
    QueryParams::from_merged(s).unwrap()
}

fn text(s: &str) -> Json {
    Json::Text(s.to_string())
}

fn obj(fields: Vec<(&str, Json)>) -> Json {
    Json::Object(fields.into_iter().map(|(k, v)| (k.to_string(), v)).collect())
}

fn song(id: &str, year: Option<u32>, genre: Option<&str>) -> Child {
    Child {
        id: id.to_string(),
        parent: "al1".to_string(),
        is_dir: false,
        is_video: false,
        title: "t".to_string(),
        album: "a".to_string(),
        artist: "x".to_string(),
        track: 1,
        year,
        genre: genre.map(|g| g.to_string()),
        genres: None,
        cover_art: None,
        duration: 100,
        bit_rate: None,
        bit_depth: None,
        sampling_rate: None,
        channel_count: None,
        disc_number: None,
        album_id: "al1".to_string(),
        artist_id: "ar1".to_string(),
        artists: None,
        isrc: None,
        kind: "music",
        content_type: "audio/mpeg",
        suffix: "mp3",
        size: 0,
        path: "x".to_string(),
        created: String::new(),
        starred: None,
        starred_at: None,
        explicit_status: None,
        replay_gain: ReplayGain { track_gain: None, track_peak: None },
    }
}

#[test]
fn partition_handles_all_id_shapes() {
    let q = params("id=t1&id=2&id=al3&id=ar4&albumId=al5&albumId=6&artistId=ar7&id=garbage");
    assert!(partition_ids(&q).is_err());

    let q = params("id=t1&id=2&id=al3&id=ar4&albumId=al5&albumId=6&artistId=ar7");
    let (tracks, albums, artists) = partition_ids(&q).unwrap();
    assert_eq!(tracks, vec![1, 2]);
    assert_eq!(albums, vec![3, 5, 6]);
    assert_eq!(artists, vec![4, 7]);
}

#[test]
fn empty_request_partitions_to_empty() {
    let q = params("");
    let (tracks, albums, artists) = partition_ids(&q).unwrap();
    assert!(tracks.is_empty() && albums.is_empty() && artists.is_empty());
}

#[test]
fn favorite_tracks_carry_the_favorite_time() {
    let entry = obj(vec![
        ("type", text("track")),
        ("created", text("2023-01-15T10:00:00.000Z")),
        (
            "item",
            obj(vec![
                ("id", Json::Unsigned(123)),
                ("title", text("Song One")),
                ("duration", Json::Unsigned(220)),
                ("trackNumber", Json::Unsigned(3)),
                (
                    "artists",
                    Json::Array(vec![obj(vec![("id", Json::Unsigned(9)), ("name", text("Artist A"))])]),
                ),
                ("album", obj(vec![("id", Json::Unsigned(456)), ("title", text("Album One"))])),
            ]),
        ),
    ]);
    let mut one = song("t123", None, None);
    one.title = "Song One".to_string();
    let songs = favorite_track_songs(&vec![entry], vec![Some(one)]);
    assert_eq!(songs.len(), 1);
    assert_eq!(songs[0].created, "2023-01-15T10:00:00.000Z");
    assert_eq!(
        songs[0].starred.as_deref(),
        Some("2023-01-15T10:00:00.000Z")
    );
    assert_eq!(
        songs[0].starred_at.as_deref(),
        Some("2023-01-15T10:00:00.000Z")
    );
    assert_eq!(songs[0].title, "Song One");
}

#[test]
fn entries_that_are_no_songs_are_left_out() {
    let entries = vec![obj(vec![]), obj(vec![("created", text("then"))])];
    let songs = favorite_track_songs(&entries, vec![None, Some(song("t2", None, None))]);
    assert_eq!(songs.len(), 1);
    assert_eq!(songs[0].id, "t2");
    assert_eq!(songs[0].created, "then");
}

#[test]
fn a_failed_change_says_which_it_was() {
    assert_ne!(toggle_failed(true).message, toggle_failed(false).message);
}

#[test]
fn favorites_are_changed_in_order() {
    let v = set_starred(&params("id=al3&id=t1&artistId=7&albumId=6")).unwrap();
    assert_eq!(v, vec![(IdKind::Track, 1), (IdKind::Album, 3), (IdKind::Album, 6), (IdKind::Artist, 7)]);
    assert_eq!(set_starred(&params("id=?")).unwrap_err().message, "Not found");
    assert_eq!(set_starred(&params("albumId=t1")).unwrap_err().message, "Album not found");
    assert_eq!(set_starred(&params("artistId=t1")).unwrap_err().message, "Artist not found");
}

fn album() -> AlbumId3 {
    AlbumId3 {
        id: "al1".to_string(),
        album: "A".to_string(),
        title: "A".to_string(),
        name: "A".to_string(),
        artist: "X".to_string(),
        artist_id: "ar5".to_string(),
        cover_art: None,
        song_count: None,
        duration: None,
        play_count: 0,
        created: None,
        year: None,
        genre: None,
        genres: None,
        explicit_status: None,
        is_compilation: None,
        release_types: None,
        starred: None,
        starred_at: None,
    }
}

#[test]
fn favorites_come_in_two_shapes() {
    let old = get_starred(vec![], vec![album()], vec![song("t1", None, None)]);
    assert_eq!(old.album[0].parent, "ar5");
    assert!(old.album[0].is_dir);
    assert_eq!(old.song.len(), 1);
    let artist = ArtistId3 {
        id: "ar5".to_string(),
        name: "X".to_string(),
        cover_art: Some("c".to_string()),
        artist_image_url: None,
        album_count: None,
        starred: None,
        starred_at: None,
    };
    let entries = vec![obj(vec![]), obj(vec![("created", text("then"))])];
    let new = get_starred2(&entries, vec![None, Some(artist)], vec![album()], vec![]);
    assert_eq!(new.artist.len(), 1);
    assert_eq!(new.artist[0].artist.starred.as_deref(), Some("then"));
    assert_eq!(new.artist[0].artist.artist_image_url.as_deref(), Some("c"));
    assert_eq!(new.album[0].album.id, "al1");
}
