use subtidal::handlers::system::{
    account_identity, get_license, get_music_folders, get_open_subsonic_extensions,
    get_scan_status, get_user, get_users, start_scan, user_of,
};
use subtidal::handlers::transcode::{decide, get_transcode_decision, source_stream};
use subtidal::json::Json;
use subtidal::params::QueryParams;

#[test]
fn user_of_reflects_scrobbling_enabled() {
    let on = user_of("u".into(), "e".into(), true);
    assert!(on.scrobbling_enabled);
    let off = user_of("u".into(), "e".into(), false);
    assert!(!off.scrobbling_enabled);
}

#[test]
fn source_stream_follows_quality() {
    let flac = source_stream(Some("LOSSLESS"));
    assert_eq!(flac.container, "flac");
    assert_eq!(flac.codec, "flac");
    assert_eq!(flac.audio_bitdepth, 16);
    let hires = source_stream(Some("HIRES_LOSSLESS"));
    assert_eq!(hires.audio_samplerate, 96_000);
    assert_eq!(hires.audio_bitdepth, 24);
    let high = source_stream(Some("HIGH"));
    assert_eq!(high.container, "mp4");
    assert_eq!(high.codec, "aac");
    assert_eq!(high.audio_bitrate, 320_000);
    let low = source_stream(Some("LOW"));
    assert_eq!(low.audio_bitrate, 96_000);
    let unknown = source_stream(None);
    assert_eq!(unknown.container, "flac");
}

#[test]
fn a_track_is_played_directly() {
    let detail = Json::Object(vec![("audioQuality".to_string(), Json::Text("LOW".to_string()))]);
    let d = decide(&detail);
    assert!(d.can_direct_play);
    assert!(!d.can_transcode);
    assert!(d.transcode_reason.is_empty());
    assert!(d.transcode_stream.is_none());
    assert_eq!(d.source_stream.audio_bitrate, 96_000);
    assert_eq!(d.source_stream.audio_channels, 2);
    let q = QueryParams::from_merged("mediaId=t3&mediaType=song").unwrap();
    assert_eq!(get_transcode_decision(&q).unwrap(), 3);
    assert_eq!(get_transcode_decision(&QueryParams::default()).unwrap_err().code, 10);
}

fn profile(field: &str, value: &str) -> Json {
    Json::Object(vec![(field.to_string(), Json::Text(value.to_string()))])
}

#[test]
fn an_account_is_known_by_its_profile() {
    let name = "alice".to_string();
    assert_eq!(account_identity(&name, None).0, "alice");
    let (_, email) = account_identity(&name, Some(&profile("username", "a@b.c")));
    assert_eq!(email, "a@b.c");
    let (_, email) = account_identity(&name, Some(&profile("profileName", "Alice")));
    assert_eq!(email, "alice@localhost");
    let user = get_user(&name, None, true);
    assert_eq!(user.username, "alice");
    assert!(user.scrobbling_enabled);
    assert!(user.stream_role);
    assert_eq!(get_users(&name, None, false).user.len(), 1);
}

#[test]
fn what_the_server_is_does_not_change() {
    assert!(get_license().valid);
    assert_eq!(get_music_folders().music_folder.len(), 1);
    assert!(!get_scan_status().scanning);
    assert!(!start_scan().scanning);
    let extensions = get_open_subsonic_extensions(None);
    assert!(extensions.iter().any(|e| e.name == "formPost" && e.versions == vec![1]));
}
