use subtidal::handlers::album::{
    album_info, album_list_core, albums_by_name, albums_of_genre, albums_of_years, get_album,
    get_album_list, get_album_list2, has_genre, random_albums, AlbumSource,
};
use subtidal::models::album::AlbumId3;
use subtidal::models::song::GenreItem;
use subtidal::params::QueryParams;
use subtidal::play_state::{empty_state, record_play};

fn params(s: &str) -> QueryParams {
    QueryParams::from_merged(s).unwrap()
}

fn album(id: &str, name: &str, artist: &str, year: Option<u32>, genre: Option<&str>) -> AlbumId3 {
    AlbumId3 {
        id: id.to_string(),
        album: name.to_string(),
        title: name.to_string(),
        name: name.to_string(),
        artist: artist.to_string(),
        artist_id: "ar1".to_string(),
        cover_art: None,
        song_count: None,
        duration: None,
        play_count: 0,
        created: None,
        year,
        genre: genre.map(|g| g.to_string()),
        genres: None,
        explicit_status: None,
        is_compilation: None,
        release_types: None,
        starred: None,
        starred_at: None,
    }
}

fn names(albums: &[AlbumId3]) -> Vec<&str> {
    albums.iter().map(|a| a.id.as_str()).collect()
}

#[test]
fn an_album_is_named_by_its_identifier() {
    assert_eq!(get_album(&params("id=al3")).unwrap(), 3);
    assert_eq!(get_album(&params("")).unwrap_err().code, 10);
    assert_eq!(get_album(&params("id=t3")).unwrap_err().code, 70);
}

#[test]
fn the_type_says_where_a_list_comes_from() {
    let mut state = empty_state();
    record_play(&mut state, 1, 100);
    record_play(&mut state, 2, 200);
    record_play(&mut state, 1, 50);
    let list = |s: &str| album_list_core(&params(s), &state);
    assert!(matches!(list("type=starred&offset=5&size=7"), Ok(AlbumSource::Starred(5, 7))));
    assert!(matches!(list("type=random&size=9999"), Ok(AlbumSource::Random(500))));
    assert!(matches!(list("type=newest"), Ok(AlbumSource::Newest(0, 10))));
    assert!(matches!(list("type=alphabeticalByName"), Ok(AlbumSource::ByName(0, 10))));
    assert!(matches!(list("type=alphabeticalByArtist"), Ok(AlbumSource::ByArtist(0, 10))));
    assert!(matches!(list("type=byYear&fromYear=2010&toYear=2000"), Ok(AlbumSource::ByYear(2000, 2010, true, 0, 10))));
    assert!(matches!(list("type=byGenre&genre=Rock"), Ok(AlbumSource::ByGenre(g, 0, 10)) if g == "Rock"));
    assert_eq!(list("type=byGenre").err(), Some("Required parameter missing: genre"));
    assert_eq!(list("type=byYear&fromYear=2010").err(), Some("Required parameter missing: fromYear/toYear"));
    assert!(matches!(list("type=highest"), Ok(AlbumSource::Empty)));
    match list("type=recent") {
        Ok(AlbumSource::Played(v)) => assert_eq!(v.iter().map(|r| r.album_id).collect::<Vec<_>>(), vec![2, 1]),
        _ => panic!("the albums that were played"),
    }
    match list("type=frequent&size=1") {
        Ok(AlbumSource::Played(v)) => assert_eq!(v.iter().map(|r| r.album_id).collect::<Vec<_>>(), vec![1]),
        _ => panic!("the album that was played most"),
    }
}

#[test]
fn genres_are_matched_in_both_fields() {
    let mut a = album("al1", "A", "X", None, Some("Rock"));
    assert!(has_genre(&a, "rock"));
    assert!(!has_genre(&a, "Jazz"));
    a.genre = None;
    a.genres = Some(vec![GenreItem { name: "Jazz".to_string() }]);
    assert!(has_genre(&a, "JAZZ"));
    let found = albums_of_genre(vec![a, album("al2", "B", "Y", None, Some("Pop"))], "Jazz", 0, 10);
    assert_eq!(names(&found), vec!["al1"]);
}

#[test]
fn years_are_listed_in_either_direction() {
    let all = || {
        vec![
            album("al1", "A", "X", Some(2005), None),
            album("al2", "B", "X", Some(2001), None),
            album("al3", "C", "X", None, None),
            album("al4", "D", "X", Some(2020), None),
        ]
    };
    assert_eq!(names(&albums_of_years(all(), 2000, 2010, false, 0, 10)), vec!["al2", "al1"]);
    assert_eq!(names(&albums_of_years(all(), 2000, 2010, true, 0, 10)), vec!["al1", "al2"]);
    assert_eq!(names(&albums_of_years(all(), 2000, 2010, false, 1, 10)), vec!["al1"]);
}

#[test]
fn names_are_listed_without_regard_to_case() {
    let all = || vec![album("al1", "The Wall", "Sting", None, None), album("al2", "abc", "the B", None, None)];
    assert_eq!(names(&albums_by_name(all(), false, 0, 10)), vec!["al2", "al1"]);
    assert_eq!(names(&albums_by_name(all(), true, 0, 10)), vec!["al1", "al2"]);
}

#[test]
fn random_albums_are_a_page_of_all() {
    let all = || (0..30).map(|i| album(&format!("al{i}"), "A", "X", None, None)).collect::<Vec<_>>();
    assert_eq!(random_albums(all(), 7).len(), 7);
    let picked = random_albums(all(), 100);
    let mut ids = names(&picked);
    ids.sort();
    ids.dedup();
    assert_eq!(ids.len(), 30);
}

#[test]
fn legacy_albums_keep_the_names() {
    let old = get_album_list(vec![album("al1", "A", "X", Some(1999), None)]).album_list.album;
    assert_eq!(get_album_list2(vec![album("al1", "A", "X", None, None)]).album_list.album.len(), 1);
    assert_eq!((old[0].id.as_str(), old[0].name.as_str(), old[0].year), ("al1", "A", Some(1999)));
    let info = album_info(Some(("s".into(), "m".into(), "l".into())));
    assert_eq!(info.large_image_url.as_deref(), Some("l"));
    assert!(album_info(None).small_image_url.is_none());
}
