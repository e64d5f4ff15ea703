use subtidal::handlers::cover::{
    cover_found, find_mix_picture, find_picture, get_avatar, get_cover_art, placeholder,
    CoverStep, PictureOf,
};
use subtidal::handlers::jukebox::{
    jukebox_control, jukebox_reply, new_jukebox, read_tracks, shuffle, shuffle_with,
};
use subtidal::handlers::misc::{
    create_internet_radio_station, create_share, delete_share, get_internet_radio_stations,
    get_shares, share_at, update_share,
};
use subtidal::handlers::search::{search_parts, section};
use subtidal::handlers::{fail_with, limit, redirect};
use subtidal::json::Json;
use subtidal::params::QueryParams;

fn params(s: &str) -> QueryParams {
    QueryParams::from_merged(s).unwrap()
}

fn text(s: &str) -> Json {
    Json::Text(s.to_string())
}

fn obj(fields: Vec<(&str, Json)>) -> Json {
    Json::Object(fields.into_iter().map(|(k, v)| (k.to_string(), v)).collect())
}

#[test]
fn covers_are_found_by_what_the_identifier_names() {
    assert!(matches!(get_cover_art(&params(""), None), CoverStep::Fail(f) if f.code == 10));
    assert!(matches!(get_cover_art(&params("id=al5"), None), CoverStep::Fetch(PictureOf::Album, 5)));
    assert!(matches!(get_cover_art(&params("id=ar5"), None), CoverStep::Fetch(PictureOf::Artist, 5)));
    assert!(matches!(get_cover_art(&params("id=t5"), None), CoverStep::Fetch(PictureOf::Track, 5)));
    assert!(matches!(get_cover_art(&params("id=mxabc"), None), CoverStep::Mix(m) if m == "abc"));
    match get_cover_art(&params("id=ar5&size=80"), Some("p".to_string())) {
        CoverStep::Picture(p, artist, size) => assert_eq!((p.as_str(), artist, size), ("p", true, 80)),
        _ => panic!("the picture is known"),
    }
    assert!(matches!(cover_found(None, false, 640), CoverStep::Fail(f) if f.code == 70));
    assert!(matches!(cover_found(Some("x".to_string()), false, 640), CoverStep::Picture(_, false, 640)));
}

#[test]
fn pictures_are_read_from_details() {
    assert_eq!(find_picture(PictureOf::Album, &obj(vec![("cover", text("c"))])), Some("c"));
    assert_eq!(find_picture(PictureOf::Artist, &obj(vec![("picture", text("p"))])), Some("p"));
    assert_eq!(find_picture(PictureOf::Track, &obj(vec![("album", obj(vec![("cover", text("c"))]))])), Some("c"));
    assert_eq!(find_picture(PictureOf::Playlist, &obj(vec![("image", text("i"))])), Some("i"));
    assert_eq!(find_picture(PictureOf::Playlist, &obj(vec![("image", text("i")), ("squareImage", text("s"))])), Some("s"));
    assert_eq!(find_mix_picture(&vec![], "m"), None);
    let profile = obj(vec![("picture", text("p"))]);
    assert_eq!(get_avatar(&params("size=50"), Some(&profile)), Some(("p".to_string(), 50)));
    assert_eq!(get_avatar(&params(""), None), None);
    let png = placeholder();
    assert_eq!(png.status, 200);
    assert_eq!(png.body[1..4].to_vec(), b"PNG".to_vec());
}

#[test]
fn shuffling_keeps_every_item() {
    let mut v: Vec<u64> = (0..50).collect();
    shuffle(&mut v);
    let mut sorted = v.clone();
    sorted.sort();
    assert_eq!(sorted, (0..50).collect::<Vec<u64>>());
    let mut a: Vec<u64> = (0..50).collect();
    let mut b: Vec<u64> = (0..50).collect();
    shuffle_with(&mut a, 12345);
    shuffle_with(&mut b, 12345);
    assert_eq!(a, b);
    assert_ne!(a, (0..50).collect::<Vec<u64>>());
}

#[test]
fn the_jukebox_does_what_it_is_told() {
    let mut j = new_jukebox();
    let mut run = |s: &str, gain: Option<u32>| jukebox_control(&mut j, &params(s), gain).ok().map(|a| (a.ids, a.status.current_index, a.status.playing, a.status.gain, a.with_playlist));
    assert_eq!(run("action=set&id=t1&id=t2&id=t3", None).map(|a| a.0), Some(vec![1, 2, 3]));
    assert_eq!(run("action=start", None).map(|a| a.2), Some(true));
    assert_eq!(run("action=skip&index=2", None).map(|a| a.1), Some(2));
    assert_eq!(run("action=add&id=t4", None).map(|a| a.0), Some(vec![1, 2, 3, 4]));
    assert_eq!(run("action=remove&index=0", None).map(|a| a.0), Some(vec![2, 3, 4]));
    assert_eq!(run("action=stop", None).map(|a| a.2), Some(false));
    assert_eq!(run("action=setGain", Some(0x3f00_0000)).map(|a| a.3), Some(0x3f00_0000));
    assert_eq!(run("action=get", None).map(|a| a.4), Some(true));
    assert_eq!(run("action=start", None).map(|a| a.4), Some(false));
    let mut mixed = run("action=shuffle", None).map(|a| a.0).unwrap();
    mixed.sort();
    assert_eq!(mixed, vec![2, 3, 4]);
    assert_eq!(run("action=clear", None).map(|a| a.0), Some(vec![]));
    assert_eq!(run("action=fly", None), None);
    assert_eq!(read_tracks(&vec!["t1".to_string(), "x".to_string(), "2".to_string()]), vec![1, 2]);
    let answer = jukebox_control(&mut j, &params("action=status"), None).ok().unwrap();
    assert!(jukebox_reply(answer.status, answer.with_playlist, vec![]).playlist.is_some());
    assert_eq!(jukebox_control(&mut j, &params("action=fly"), None).err().map(|f| f.message), Some("Unknown jukebox action"));
}

#[test]
fn shares_point_to_the_catalogue() {
    assert!(get_shares().share.is_empty());
    assert!(get_internet_radio_stations().internet_radio_station.is_empty());
    let s = share_at(&params("id=al5"), "now".to_string()).ok().unwrap();
    assert_eq!(s.share[0].url, "https://tidal.com/browse/album/5");
    assert_eq!(s.share[0].created, "now");
    assert_eq!(share_at(&params("id=?"), "now".to_string()).err().map(|f| f.message), Some("Invalid id"));
    assert_eq!(share_at(&params(""), "now".to_string()).err().map(|f| f.code), Some(10));
    let made = create_share(&params("id=t7")).ok().unwrap();
    assert_eq!(made.share[0].url, "https://tidal.com/browse/track/7");
    assert!(made.share[0].created.len() >= 19);
    assert_eq!(&made.share[0].created[4..5], "-");
    assert_eq!(update_share().message, "Sharing is not supported");
    assert_eq!(delete_share().message, "Sharing is not supported");
    assert_eq!(create_internet_radio_station().message, "Internet radio is not supported");
}

#[test]
fn searches_are_cut_into_pages() {
    assert_eq!(search_parts(&params("query=abba")).ok(), Some(Some("abba".to_string())));
    assert_eq!(search_parts(&params("query=+")).ok(), Some(None));
    assert_eq!(search_parts(&params("")).err().map(|f| f.code), Some(10));
    let all: Vec<u32> = (0..100).collect();
    assert_eq!(section(all.clone(), None, None), (0..20).collect::<Vec<u32>>());
    assert_eq!(section(all.clone(), Some(3), Some(98)), vec![98, 99]);
    assert_eq!(section(all, Some(0), None), Vec::<u32>::new());
    assert_eq!(limit(None, 10, 500), 10);
    assert_eq!(limit(Some(900), 10, 500), 500);
}

#[test]
fn a_redirect_names_its_target() {
    let r = redirect("https://x".to_string());
    assert_eq!(r.status, 302);
    assert_eq!(r.headers[0].1, "https://x");
    let (code, message) = fail_with(0, "Lyrics unavailable", "boom");
    assert_eq!(code, 0);
    assert!(message.starts_with("Lyrics unavailable"));
}
