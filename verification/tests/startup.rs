use subtidal::settings::{
    config_arg, default_show_mixes, default_tidal_quality, find_config_path, ConfigSource,
    LabelsConfig, Settings, TranscodeConfig,
};
use subtidal::startup::{
    disable_transcode_without_ffmpeg, labels_str, on_off, setup_url, startup_notice, startup_row,
    startup_rows, subcommand, version_flag,
};

fn settings() -> Settings {
    Settings {
        username: "alice".to_string(),
        password: "do-not-show".to_string(),
        port: 4533,
        bind_addr: "0.0.0.0".to_string(),
        api_key: None,
        tidal_client_id: None,
        tidal_client_secret: None,
        tidal_quality: default_tidal_quality(),
        show_mixes: default_show_mixes(),
        word_synced_lyrics: false,
        rate_limit: false,
        labels: LabelsConfig { ai: false, explicit: false },
        transcode: TranscodeConfig { enabled: true },
        lastfm: None,
        listenbrainz: None,
    }
}

fn args(list: &[&str]) -> Vec<String> {
    list.iter().map(|s| s.to_string()).collect()
}

#[test]
fn the_password_is_not_among_the_rows() {
    let rows = startup_rows(&settings());
    assert!(rows.iter().all(|r| !r.0.contains("do-not-show") && !r.1.contains("do-not-show")));
    assert!(rows.iter().any(|r| r.1 == "alice"));
}

#[test]
fn defaults_are_lossless_with_mixes() {
    assert_eq!(default_tidal_quality(), "LOSSLESS");
    assert!(default_show_mixes());
    assert_eq!(on_off(true), "on");
    assert_eq!(on_off(false), "off");
    assert_ne!(
        labels_str(&LabelsConfig { ai: true, explicit: false }),
        labels_str(&LabelsConfig { ai: false, explicit: true })
    );
}

#[test]
fn the_command_line_is_read() {
    assert!(version_flag(&args(&["subtidal", "--version"])));
    assert!(!version_flag(&args(&["subtidal"])));
    assert_eq!(config_arg(&args(&["subtidal", "--config", "/x.toml"])).as_deref(), Some("/x.toml"));
    assert_eq!(config_arg(&args(&["subtidal"])), None);
    assert_eq!(subcommand(&args(&["subtidal"])), None);
}

#[test]
fn the_first_settings_file_there_is_is_taken() {
    let usual = vec![("a".to_string(), false), ("b".to_string(), true), ("c".to_string(), true)];
    assert!(matches!(find_config_path(None, &usual), ConfigSource::File(p) if p == "b"));
    assert!(matches!(find_config_path(None, &vec![]), ConfigSource::Environment));
    assert!(matches!(find_config_path(Some(("n".to_string(), true)), &usual), ConfigSource::File(p) if p == "n"));
    assert!(matches!(find_config_path(Some(("n".to_string(), false)), &usual), ConfigSource::Missing(p) if p == "n"));
}

#[test]
fn transcoding_needs_its_program() {
    let mut s = settings();
    assert!(!disable_transcode_without_ffmpeg(&mut s, true));
    assert!(s.transcode.enabled);
    assert!(disable_transcode_without_ffmpeg(&mut s, false));
    assert!(!s.transcode.enabled);
    assert!(!disable_transcode_without_ffmpeg(&mut s, false));
}

#[test]
fn a_server_without_logins_says_where_to_go() {
    assert_eq!(setup_url("127.0.0.1", false, 4533), "http://127.0.0.1:4533/setup");
    assert_eq!(setup_url("0.0.0.0", true, 80), "http://<this-host>:80/setup");
    assert!(startup_notice(false, true, "U").unwrap().starts_with("Not logged into Tidal. Open U"));
    assert!(startup_notice(true, true, "U").unwrap().starts_with("Last.fm is configured"));
    assert!(startup_notice(true, false, "U").is_none());
    assert!(startup_row("port", "4533", 10).contains("4533"));
}
