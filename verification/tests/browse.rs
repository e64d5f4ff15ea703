use subtidal::calendar::{days_from_civil, iso8601_ms};
use subtidal::clock::{moment_of, now_ms};
use subtidal::handlers::browse::{
    album_from_v1, artist_directory, directory_error, get_artists, get_indexes,
    get_music_directory, index_artist, index_core, index_groups, index_letter, last_modified,
    root_directory, sort_artists, DirectoryRef,
};
use subtidal::ids;
use subtidal::json::Json;
use subtidal::models::browse::IndexArtist;
use subtidal::params::QueryParams;
use subtidal::tidal::Error;

fn params(s: &str) -> QueryParams {
    QueryParams::from_merged(s).unwrap()
}

fn artist(id: u64, name: &str, starred: &str) -> IndexArtist {
    IndexArtist {
        id: ids::encode_artist(id),
        name: name.to_string(),
        cover_art: None,
        album_count: None,
        starred: Some(starred.to_string()),
    }
}

#[test]
fn index_groups_by_stripped_letter() {
    let artists = vec![
        artist(1, "The Beatles", "2023-01-01T00:00:00.000Z"),
        artist(2, "abba", "2023-01-02T00:00:00.000Z"),
        artist(3, "Alphaville", "2023-01-03T00:00:00.000Z"),
        artist(4, "2Pac", "2023-01-04T00:00:00.000Z"),
    ];
    let groups = index_groups(artists);
    let names: Vec<&str> = groups.iter().map(|g| g.name.as_str()).collect();
    assert_eq!(names, vec!["#", "A", "B"]);
    assert_eq!(groups[1].artist[0].name, "abba");
    assert_eq!(groups[1].artist[1].name, "Alphaville");
    assert_eq!(groups[2].artist[0].name, "The Beatles");
}

#[test]
fn index_letter_handles_edges() {
    assert_eq!(index_letter("zz top"), "Z");
    assert_eq!(index_letter("The The"), "T");
    assert_eq!(index_letter("_underscore"), "#");
    assert_eq!(index_letter("El"), "#");
}

#[test]
fn iso8601_ms_parses_tidal_timestamps() {
    assert_eq!(iso8601_ms("1970-01-01T00:00:00.000Z"), Some(0));
    assert_eq!(iso8601_ms("2023-01-15T10:00:00.000Z"), Some(1_673_776_800_000));
    assert_eq!(iso8601_ms("2023-01-15T10:00:00Z"), Some(1_673_776_800_000));
    assert_eq!(iso8601_ms("garbage"), None);
}

#[test]
fn last_modified_takes_newest_favorite() {
    let artists = vec![
        artist(1, "A", "2023-01-01T00:00:00.000Z"),
        artist(2, "B", "2023-01-02T00:00:00.000Z"),
    ];
    assert_eq!(last_modified(&artists), 1_672_617_600_000);
    let before = now_ms();
    let v = last_modified(&vec![]);
    let after = now_ms();
    assert!(before <= v && v <= after);
}

#[test]
fn days_are_counted_from_the_epoch() {
    assert_eq!(days_from_civil(1970, 1, 1), 0);
    assert_eq!(days_from_civil(1969, 12, 31), -1);
    assert_eq!(days_from_civil(2000, 2, 29), 11016);
    assert_eq!(days_from_civil(2000, 3, 1), 11017);
}

#[test]
fn an_index_holds_every_artist_once() {
    let artists = vec![artist(1, "b", "x"), artist(2, "Les Beta", "x"), artist(3, "%", "x")];
    let groups = index_groups(artists);
    let total: usize = groups.iter().map(|g| g.artist.len()).sum();
    assert_eq!(total, 3);
    assert_eq!(groups.len(), 2);
    assert_eq!(groups[0].name, "#");
    assert_eq!(groups[1].name, "B");
}

#[test]
fn a_favorite_becomes_an_index_line() {
    let item = Json::Object(vec![
        ("id".to_string(), Json::Unsigned(5)),
        ("name".to_string(), Json::Text("Air".to_string())),
    ]);
    let entry = Json::Object(vec![
        ("created".to_string(), Json::Text("2023-01-15T10:00:00.000Z".to_string())),
        ("item".to_string(), item),
    ]);
    let line = index_artist(&entry, None).unwrap();
    assert_eq!(line.id, "ar5");
    assert_eq!(line.name, "Air");
    assert_eq!(line.starred.as_deref(), Some("2023-01-15T10:00:00.000Z"));
    assert!(index_artist(&Json::Null, None).is_none());
}

#[test]
fn artists_are_listed_without_regard_to_their_articles() {
    let sorted = sort_artists(vec![artist(1, "The Zombies", "x"), artist(2, "la Femme", "x"), artist(3, "Gorillaz", "x")]);
    let names: Vec<&str> = sorted.iter().map(|a| a.name.as_str()).collect();
    assert_eq!(names, vec!["la Femme", "Gorillaz", "The Zombies"]);
}

#[test]
fn indexes_of_another_folder_are_empty() {
    assert!(index_core(&params("")));
    assert!(index_core(&params("musicFolderId=1")));
    assert!(!index_core(&params("musicFolderId=2")));
    let none = get_indexes(false, None).unwrap();
    assert!(none.index.is_empty());
    assert_eq!(get_indexes(true, None).unwrap_err().code, 0);
    let some = get_indexes(true, Some(vec![artist(1, "A", "2023-01-01T00:00:00.000Z")])).unwrap();
    assert_eq!(some.index.len(), 1);
    assert_eq!(some.last_modified, 1_672_531_200_000);
    let list = get_artists(some);
    assert_eq!(list.index.len(), 1);
    assert_eq!(list.ignored_articles, "The El La Los Las Le Les");
}

#[test]
fn a_directory_is_the_root_or_an_artist_or_an_album() {
    assert!(matches!(get_music_directory(&params("id=1")), Ok(DirectoryRef::Root)));
    assert!(matches!(get_music_directory(&params("id=ar2")), Ok(DirectoryRef::Artist(2))));
    assert!(matches!(get_music_directory(&params("id=al3")), Ok(DirectoryRef::Album(3))));
    assert!(matches!(get_music_directory(&params("id=44")), Ok(DirectoryRef::ArtistOrAlbum(44))));
    assert_eq!(get_music_directory(&params("")).err().map(|f| f.code), Some(10));
    assert_eq!(get_music_directory(&params("id=zz")).err().map(|f| f.code), Some(70));
}

#[test]
fn directories_name_their_children() {
    let root = root_directory(vec![artist(1, "A", "x")]);
    assert_eq!(root.child.len(), 1);
    assert_eq!(root.child[0].id, "ar1");
    assert!(root.child[0].is_dir);
    let of_artist = artist_directory(8, Some("Air"), vec![]);
    assert_eq!(of_artist.id, "ar8");
    assert_eq!(of_artist.name, "Air");
    assert!(of_artist.child.is_empty());
}

#[test]
fn a_directory_that_is_gone_is_not_found() {
    assert_eq!(directory_error(&Error::Tidal(404, String::new())).code, 70);
    assert_eq!(directory_error(&Error::NotLoggedIn).code, 0);
    assert!(album_from_v1(true, true));
    assert!(!album_from_v1(true, false));
}

#[test]
fn moments_are_counted_from_the_epoch() {
    assert_eq!(moment_of(None), 0);
    assert_eq!(moment_of(Some(1_673_776_800_000)), 1_673_776_800_000);
    assert_eq!(moment_of(Some(u128::MAX)), i64::MAX);
    assert!(now_ms() > 1_600_000_000_000);
}

#[test]
fn only_moments_in_one_form_are_read() {
    assert_eq!(iso8601_ms("2000-02-29T23:59:59.9Z"), Some(951_868_799_000));
    for s in [
        "2023-01-15T10:00:00.000+02:00",
        "2023-01-15T10:00:00+02:00",
        "2023-01-15T10:00:00.000",
        "2023-01-15T10:00:00",
        "2023-01-15T10:00:00.Z",
        "2023-01-15T10:00:00.0x0Z",
        "2023-01-15T10:00:00ZZ",
        "2023-01-15T10:00Z",
        "2023-01-15",
        "2023-02-29T10:00:00Z",
        "2023-04-31T10:00:00Z",
        "2023-13-01T10:00:00Z",
        "2023-00-01T10:00:00Z",
        "2023-01-00T10:00:00Z",
        "2023-01-15T24:00:00Z",
        "2023-01-15T10:60:00Z",
        "2023-01-15T10:00:60Z",
        "+023-01-15T10:00:00Z",
        "2023-1-5T10:00:00Z",
        "",
    ] {
        assert_eq!(iso8601_ms(s), None, "{s}");
    }
    let offset = vec![artist(1, "A", "2023-01-15T10:00:00.000+02:00"), artist(2, "B", "2023-01-01T00:00:00.000Z")];
    assert_eq!(last_modified(&offset), 1_672_531_200_000);
}
