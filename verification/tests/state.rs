use subtidal::json::{as_str, Json};
use subtidal::state::{
    clear_section, file_path, load_section, read_doc, store_section, StatePath, LASTFM, PLAYBACK,
    TIDAL,
};

fn text(s: &str) -> Json {
    Json::Text(s.to_string())
}

#[test]
fn missing_file_reads_as_none() {
    let doc: Vec<(String, Json)> = vec![];
    assert!(load_section(&doc, TIDAL).is_none());
}

#[test]
fn sections_roundtrip_and_do_not_clobber_each_other() {
    let mut doc: Vec<(String, Json)> = vec![];

    store_section(&mut doc, TIDAL, text("tid-abc"));
    assert_eq!(as_str(load_section(&doc, TIDAL)), Some("tid-abc"));
    assert!(load_section(&doc, LASTFM).is_none());

    store_section(&mut doc, LASTFM, text("sk123"));
    assert_eq!(as_str(load_section(&doc, LASTFM)), Some("sk123"));
    // The earlier section survived.
    assert_eq!(as_str(load_section(&doc, TIDAL)), Some("tid-abc"));

    store_section(&mut doc, TIDAL, text("tid-def"));
    assert_eq!(as_str(load_section(&doc, TIDAL)), Some("tid-def"));
    assert_eq!(doc.len(), 2);
    clear_section(&mut doc, TIDAL);
    assert!(load_section(&doc, TIDAL).is_none());
    assert_eq!(as_str(load_section(&doc, LASTFM)), Some("sk123"));
    clear_section(&mut doc, PLAYBACK);
    assert!(load_section(&doc, PLAYBACK).is_none());
}

#[test]
fn non_object_file_reports_an_error() {
    assert!(read_doc(Json::Array(vec![Json::Unsigned(1), Json::Unsigned(2)])).is_none());
    assert_eq!(read_doc(Json::Object(vec![(TIDAL.to_string(), Json::Null)])).map(|d| d.len()), Some(1));
}

#[test]
fn the_file_lies_where_the_environment_says() {
    let s = |x: &str| Some(x.to_string());
    assert!(matches!(file_path(s("/f"), s("/s"), s("/h")), Ok(StatePath::File(p)) if p == "/f"));
    assert!(matches!(file_path(None, s("/s"), s("/h")), Ok(StatePath::InStateHome(p)) if p == "/s"));
    assert!(matches!(file_path(None, None, s("/h")), Ok(StatePath::InHome(p)) if p == "/h"));
    assert!(file_path(None, None, None).is_err());
}
