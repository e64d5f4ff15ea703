use subtidal::handlers::artist::{
    artist_info, artist_of, first_artist, get_artist, get_top_songs, make_artist_info,
    similar_count, strip_wimplinks, top_songs_count, ArtistRef, TopSongsOf,
};
use subtidal::json::Json;
use subtidal::params::QueryParams;

fn params(s: &str) -> QueryParams {
    QueryParams::from_merged(s).unwrap()
}

fn obj(fields: Vec<(&str, Json)>) -> Json {
    Json::Object(fields.into_iter().map(|(k, v)| (k.to_string(), v)).collect())
}

fn text(s: &str) -> Json {
    Json::Text(s.to_string())
}

#[test]
fn strip_wimplinks_removes_all_markup() {
    let bio = "[wimpLink artistId=\"1\"]A[/wimpLink] and "
        .to_string()
        + "[wimpLink artistId=\"2\"]B[/wimpLink] here, [wimpLink]C[/wimpLink] done.";
    assert_eq!(strip_wimplinks(&bio), "A and B here, C done.");
    assert_eq!(strip_wimplinks("no markup"), "no markup");
    assert_eq!(strip_wimplinks(""), "");
}

#[test]
fn an_artist_is_named_by_its_identifier() {
    assert_eq!(get_artist(&params("id=ar12")).unwrap(), 12);
    assert_eq!(get_artist(&params("")).unwrap_err().code, 10);
    assert_eq!(get_artist(&params("id=al12")).unwrap_err().code, 70);
}

#[test]
fn top_songs_are_asked_for_by_identifier_or_name() {
    assert!(matches!(get_top_songs(&params("id=ar4")), Ok(TopSongsOf::Artist(4))));
    match get_top_songs(&params("artist=Daft+Punk")) {
        Ok(TopSongsOf::Named(n)) => assert_eq!(n, "Daft Punk"),
        _ => panic!("a name is searched for"),
    }
    assert_eq!(get_top_songs(&params("")).err().map(|f| f.code), Some(10));
    assert_eq!(top_songs_count(&params("count=7")), 7);
    assert_eq!(top_songs_count(&params("")), 50);
}

#[test]
fn information_is_found_through_albums_and_songs_too() {
    assert!(matches!(artist_info(&params("id=ar1")), Ok(ArtistRef::Artist(1))));
    assert!(matches!(artist_info(&params("id=al2")), Ok(ArtistRef::OfAlbum(2))));
    assert!(matches!(artist_info(&params("id=t3")), Ok(ArtistRef::OfTrack(3))));
    assert!(artist_info(&params("id=pl4")).is_err());
    assert_eq!(similar_count(&params("")), 20);
    assert_eq!(similar_count(&params("count=3")), 3);
}

#[test]
fn the_first_artist_of_a_list_is_taken() {
    let hits = vec![obj(vec![("id", Json::Unsigned(5))]), obj(vec![("id", Json::Unsigned(6))])];
    assert_eq!(first_artist(&hits).unwrap(), 5);
    assert_eq!(first_artist(&vec![]).unwrap_err().code, 70);
    let detail = obj(vec![("artists", Json::Array(vec![obj(vec![("id", Json::Unsigned(9))])]))]);
    assert_eq!(artist_of(&detail).unwrap(), 9);
    assert_eq!(artist_of(&Json::Null).unwrap_err().code, 70);
}

#[test]
fn a_biography_is_shown_without_its_links() {
    let bio = obj(vec![("text", text("By [wimpLink artistId=\"1\"]X[/wimpLink]."))]);
    let pictures = Some(("s".to_string(), "m".to_string(), "l".to_string()));
    let info = make_artist_info(Some(&bio), pictures, vec![]);
    assert_eq!(info.biography, "By X.");
    assert_eq!(info.small_image_url.as_deref(), Some("s"));
    assert_eq!(info.medium_image_url.as_deref(), Some("m"));
    assert_eq!(info.large_image_url.as_deref(), Some("l"));
    let none = make_artist_info(None, None, vec![]);
    assert_eq!(none.biography, "");
    assert!(none.large_image_url.is_none());
}
