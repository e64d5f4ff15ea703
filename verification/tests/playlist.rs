use subtidal::handlers::playlist::{
    create_playlist, created_id, delete_playlist, entries_usable, entry_id, get_genres,
    get_mix_playlist, get_playlist, get_playlists, mix_name, mutation_error, parse_song_ids, playlist_error,
    playlist_response, removal_addresses, replace_songs, show_mixes, update_playlist, update_steps,
    CreatePlan, PlaylistRef, UpdateStep,
};
use subtidal::json::Json;
use subtidal::models::playlist::Playlist;
use subtidal::params::{IdList, QueryParams};
use subtidal::tidal::Error;

fn ids(list: &[&str]) -> IdList {
    IdList(list.iter().map(|s| s.to_string()).collect())
}

fn params(s: &str) -> QueryParams {
    QueryParams::from_merged(s).unwrap()
}

fn text(s: &str) -> Json {
    Json::Text(s.to_string())
}

fn obj(fields: Vec<(&str, Json)>) -> Json {
    Json::Object(fields.into_iter().map(|(k, v)| (k.to_string(), v)).collect())
}

fn entry(kind: &str, id: u64, item: Option<&str>) -> Json {
    let meta = match item {
        Some(i) => obj(vec![("itemId", text(i))]),
        None => obj(vec![]),
    };
    obj(vec![("type", text(kind)), ("item", obj(vec![("id", Json::Unsigned(id))])), ("meta", meta)])
}

#[test]
fn song_ids_accept_tracks_and_bare_numbers() {
    assert_eq!(parse_song_ids(&ids(&["t1", "2", "t30"])).unwrap(), vec![1, 2, 30]);
    assert_eq!(parse_song_ids(&ids(&[])).unwrap(), Vec::<u64>::new());
    assert_eq!(parse_song_ids(&ids(&["t1", "al2"])), Err("Song not found"));
    assert_eq!(parse_song_ids(&ids(&["junk"])), Err("Song not found"));
}

#[test]
fn mixes_are_told_from_playlists_by_their_identifiers() {
    assert_eq!(mix_name("mxabc"), Some("abc"));
    assert_eq!(mix_name("abc"), None);
    match get_playlist(&params("id=mxabc")) {
        Ok(PlaylistRef::Mix(m)) => assert_eq!(m, "abc"),
        _ => panic!("a mix is asked for"),
    }
    match get_playlist(&params("id=u-1")) {
        Ok(PlaylistRef::Playlist(p)) => assert_eq!(p, "u-1"),
        _ => panic!("a playlist is asked for"),
    }
    assert_eq!(get_playlist(&params("")).err().map(|f| f.code), Some(10));
    assert!(show_mixes(None));
    let mixes = vec![obj(vec![("id", text("a"))]), obj(vec![("id", text("b")), ("title", text("B"))])];
    let hit = get_mix_playlist(&mixes, "b").unwrap();
    assert!(hit.get("title").is_some());
    assert_eq!(get_mix_playlist(&mixes, "c").unwrap_err().message, "Mix not found");
}

#[test]
fn a_playlist_is_made_or_its_songs_are_replaced() {
    match create_playlist(&params("name=Mine&songId=t1&songId=2")) {
        Ok(CreatePlan::Create(n, v)) => assert_eq!((n.as_str(), v), ("Mine", vec![1, 2])),
        _ => panic!("a playlist is made"),
    }
    match create_playlist(&params("playlistId=u-1&songId=t1")) {
        Ok(CreatePlan::Replace(p, n, v)) => assert_eq!((p.as_str(), n, v), ("u-1", None, vec![1])),
        _ => panic!("the songs are replaced"),
    }
    assert_eq!(create_playlist(&params("")).err().map(|f| f.code), Some(10));
    assert_eq!(create_playlist(&params("name=Mine&songId=x")).err().map(|f| f.code), Some(70));
    assert_eq!(created_id(&obj(vec![("uuid", text("u-9"))])).unwrap(), "u-9");
    assert_eq!(created_id(&Json::Null).unwrap_err().message, "Playlist creation failed");
}

#[test]
fn an_update_names_places_once_and_in_order() {
    let p = update_playlist(&params("playlistId=u-1&songIndexToRemove=5&songIndexToRemove=2&songIndexToRemove=5&comment=c")).unwrap();
    assert_eq!(p.id, "u-1");
    assert_eq!(p.indices, vec![2, 5]);
    assert_eq!(p.name, None);
    assert_eq!(p.comment.as_deref(), Some("c"));
    assert_eq!(update_playlist(&params("playlistId=mx1")).err().map(|f| f.message), Some("Mixes are read-only"));
    assert_eq!(update_playlist(&params("")).err().map(|f| f.code), Some(10));
    assert_eq!(delete_playlist(&params("id=u-1")).unwrap(), "u-1");
    assert_eq!(delete_playlist(&params("id=mx1")).unwrap_err().message, "Mixes are read-only");
    assert_eq!(delete_playlist(&params("")).unwrap_err().code, 10);
}

#[test]
fn removals_count_every_track() {
    let entries = vec![
        entry("tracks", 1, Some("i1")),
        entry("videos", 2, Some("i2")),
        entry("tracks", 3, None),
        entry("tracks", 4, Some("i4")),
    ];
    let all = replace_songs(&entries);
    assert_eq!(all.len(), 3);
    let out = removal_addresses(&entries, &vec![0, 2]);
    assert_eq!(out.len(), 2);
    assert_eq!((out[0].0.as_str(), out[0].1.as_str(), out[0].2.as_str()), ("tracks", "1", "i1"));
    assert_eq!((out[1].0.as_str(), out[1].1.as_str(), out[1].2.as_str()), ("tracks", "4", "i4"));
    assert_eq!(entry_id(&entries[1]).as_deref(), Some("2"));
    assert!(entries_usable(&entries));
    assert!(!entries_usable(&vec![Json::Null]));
}

#[test]
fn failures_on_playlists_are_told_apart() {
    assert_eq!(playlist_error(&Error::Tidal(404, String::new())).code, 70);
    assert_eq!(playlist_error(&Error::RateLimited).message, "Playlist unavailable");
    assert_eq!(mutation_error(&Error::RateLimited, "Playlist update failed").message, "Playlist update failed");
    assert_eq!(mutation_error(&Error::Tidal(404, String::new()), "x").code, 70);
    assert!(get_genres(None).is_empty());
}

fn playlist(id: &str) -> Playlist {
    Playlist {
        id: id.to_string(),
        name: "n".to_string(),
        comment: None,
        owner: None,
        public: false,
        song_count: None,
        duration: None,
        created: None,
        changed: None,
        cover_art: None,
    }
}

#[test]
fn songs_are_taken_out_before_others_are_put_in() {
    let p = update_playlist(&params("playlistId=u&name=n&songIdToAdd=t1&songIndexToRemove=0")).unwrap();
    assert_eq!(p.adds, Some(vec![1]));
    assert_eq!(update_steps(&p), vec![UpdateStep::Describe, UpdateStep::Remove, UpdateStep::Append]);
    let p = update_playlist(&params("playlistId=u&songIdToAdd=x&songIndexToRemove=0")).unwrap();
    assert_eq!(update_steps(&p), vec![UpdateStep::Remove, UpdateStep::Refuse]);
    let p = update_playlist(&params("playlistId=u&songIndexToRemove=x")).unwrap();
    assert_eq!(update_steps(&p), vec![]);
}

#[test]
fn mixes_follow_the_playlists_where_they_are_there() {
    let own = || Some(vec![Some(playlist("a")), None, Some(playlist("b"))]);
    let names = |r: Result<_, _>| {
        let p: subtidal::models::playlist::Playlists = match r {
            Ok(p) => p,
            Err(f) => {
                let f: subtidal::handlers::Failure = f;
                panic!("{}", f.message)
            }
        };
        p.playlist.iter().map(|x| x.id.clone()).collect::<Vec<_>>()
    };
    assert_eq!(names(get_playlists(own(), true, Some(vec![playlist("mx1")]))), vec!["a", "b", "mx1"]);
    assert_eq!(names(get_playlists(own(), true, None)), vec!["a", "b"]);
    assert_eq!(names(get_playlists(own(), false, Some(vec![playlist("mx1")]))), vec!["a", "b"]);
    assert_eq!(get_playlists(None, true, None).err().map(|f| f.message), Some("Playlists unavailable"));
    assert_eq!(playlist_response(None, None).err().map(|f| f.code), Some(70));
    assert_eq!(playlist_response(Some(playlist("a")), None).err().map(|f| f.code), Some(0));
    assert_eq!(playlist_response(Some(playlist("a")), Some(vec![None])).map(|p| p.entry.len()).ok(), Some(0));
}

#[test]
fn mixes_are_read_only() {
    for q in ["playlistId=mx1&name=n", "playlistId=mx1&songId=t1", "playlistId=mx1&songId=junk", "playlistId=mx1"] {
        let f = create_playlist(&params(q)).err().unwrap();
        assert_eq!((f.code, f.message), (0, "Mixes are read-only"));
        assert_eq!(update_playlist(&params(q)).err().map(|f| f.message), Some("Mixes are read-only"));
    }
}
