use subtidal::auth::md5_hex;
use subtidal::json::{as_str, as_u64, Json};
use subtidal::scrobble::{
    auth_prompt, auth_url, classify_session_error, enabled, init, lastfm_auth_flow,
    lastfm_get_session, lastfm_get_token, make_prompt, np_due, read_api_error,
    report_now_playing, scrobble_song_from_track, seconds_of, session_request, sign_form,
    token_request, Form, LastFmReporter, LastNowPlaying, ListenBrainzReporter, PollStep,
    Reporter, ScrobbleSong, SessionPoll, Submitted, LASTFM_API_URL, NP_COOLDOWN_MS,
};
use subtidal::settings::{
    LabelsConfig, LastFmConfig, ListenBrainzConfig, Settings, TranscodeConfig,
};

fn text(s: &str) -> Json {
    Json::Text(s.to_string())
}

fn obj(fields: Vec<(&str, Json)>) -> Json {
    Json::Object(fields.into_iter().map(|(k, v)| (k.to_string(), v)).collect())
}

fn scrobble_song() -> ScrobbleSong {
    ScrobbleSong {
        track_id: 463900374,
        title: "Down Bad".into(),
        artist: "Taylor Swift".into(),
        album: Some("THE TORTURED POETS DEPARTMENT".into()),
        duration: 201,
    }
}

fn value<'a>(form: &'a Form, name: &str) -> Option<&'a str> {
    form.entries.iter().find(|e| e.0 == name).map(|e| e.1.as_str())
}

#[test]
fn maps_track_json_to_song() {
    let song = scrobble_song_from_track(&obj(vec![
        ("id", Json::Unsigned(463900374)),
        ("title", text("Down Bad")),
        (
            "artists",
            Json::Array(vec![obj(vec![("id", Json::Unsigned(3557299)), ("name", text("Taylor Swift"))])]),
        ),
        (
            "album",
            obj(vec![("id", Json::Unsigned(357676034)), ("title", text("THE TORTURED POETS DEPARTMENT"))]),
        ),
        ("duration", Json::Unsigned(201)),
    ]))
    .unwrap();
    assert_eq!(song.artist, "Taylor Swift");
    assert_eq!(song.album.as_deref(), Some("THE TORTURED POETS DEPARTMENT"));
    assert_eq!(song.duration, 201);
}

#[test]
fn unknown_track_json_maps_to_none() {
    assert!(scrobble_song_from_track(&obj(vec![("title", text("no id"))])).is_none());
}

#[test]
fn lastfm_sign_matches_sorted_concat() {
    // Params sort by key: api_key, artist, method. The signature is
    // md5(api_key<v>artist<v>method<v> + api_secret), excluding format.
    let mut params = Form::new();
    params.insert("api_key", "key123".into());
    params.insert("artist", "Taylor Swift".into());
    params.insert("method", "track.scrobble".into());
    params.insert("format", "json".into());
    let reporter = LastFmReporter::new("key123".into(), "secret".into(), LASTFM_API_URL);
    let input = "api_keykey123artistTaylor Swiftmethodtrack.scrobble".to_string() + "secret";
    assert_eq!(reporter.sign(&params), md5_hex(input.as_bytes()));
}

#[test]
fn session_errors_fatal_only_for_config_problems() {
    assert_eq!(classify_session_error(1), SessionPoll::Fatal);
    assert_eq!(classify_session_error(2), SessionPoll::Fatal);
    assert_eq!(classify_session_error(9), SessionPoll::Fatal);
    assert_eq!(classify_session_error(26), SessionPoll::Fatal);
    // Not-yet-authorized, temporary, and service errors keep polling.
    assert_eq!(classify_session_error(4), SessionPoll::Pending);
    assert_eq!(classify_session_error(10), SessionPoll::Pending);
    assert_eq!(classify_session_error(13), SessionPoll::Pending);
    assert_eq!(classify_session_error(14), SessionPoll::Pending);
    assert_eq!(classify_session_error(16), SessionPoll::Pending);
}

#[test]
fn now_playing_dedup_depends_on_track_and_cooldown() {
    assert!(np_due(1, 1000, &None));
    let last = Some(LastNowPlaying {
        track_id: 1,
        at_ms: 1000,
    });
    // Same track inside the cooldown: suppressed.
    assert!(!np_due(1, 1000 + NP_COOLDOWN_MS - 1, &last));
    // Same track after the cooldown: due again (repeat play).
    assert!(np_due(1, 1000 + NP_COOLDOWN_MS + 1, &last));
    // A different track is always due.
    assert!(np_due(2, 1001, &last));
}

#[test]
fn one_notice_is_sent_for_the_start_of_a_track() {
    let mut last = None;
    assert!(report_now_playing(&mut last, 1, 1000));
    assert!(!report_now_playing(&mut last, 1, 1001));
    assert!(report_now_playing(&mut last, 2, 1002));
    assert_eq!(last.map(|l| l.at_ms), Some(1002));
}

#[test]
fn a_signature_does_not_depend_on_the_order_of_entry() {
    let mut a = Form::new();
    a.insert("x", "1".into());
    a.insert("b", "2".into());
    let mut b = Form::new();
    b.insert("b", "2".into());
    b.insert("x", "9".into());
    b.insert("x", "1".into());
    assert_eq!(sign_form(&a, "s"), sign_form(&b, "s"));
    assert_eq!(sign_form(&a, "s"), md5_hex(b"b2x1s"));
}

#[test]
fn lastfm_report_posts_signed_scrobble() {
    let reporter = LastFmReporter::new("key".into(), "secret".into(), "http://127.0.0.1/2.0/");
    let form = reporter
        .submit("track.scrobble", &scrobble_song(), Some(1_786_116_785_370), Some("sk123"))
        .unwrap();
    assert_eq!(value(&form, "method"), Some("track.scrobble"));
    assert_eq!(value(&form, "artist"), Some("Taylor Swift"));
    assert_eq!(value(&form, "track"), Some("Down Bad"));
    assert_eq!(value(&form, "timestamp"), Some("1786116785"));
    assert_eq!(value(&form, "duration"), Some("201"));
    assert_eq!(value(&form, "sk"), Some("sk123"));
    assert!(value(&form, "api_sig").is_some());
    // 'format' is excluded from the signature but still sent.
    assert_eq!(value(&form, "format"), Some("json"));
    assert!(reporter.submit("track.scrobble", &scrobble_song(), None, None).is_none());
}

#[test]
fn lastfm_report_survives_api_error() {
    let failed = LastFmReporter::submitted(Err("no json".to_string()));
    assert!(matches!(failed, Submitted::Failed(0, _)));
    let down = obj(vec![("error", Json::Unsigned(11)), ("message", text("Service Offline"))]);
    match LastFmReporter::submitted(Ok(&down)) {
        Submitted::Failed(11, m) => assert_eq!(m, "Service Offline"),
        _ => panic!("an error is reported"),
    }
    assert!(matches!(LastFmReporter::submitted(Ok(&text("ok"))), Submitted::Accepted));
}

#[test]
fn lastfm_report_reauths_on_invalid_session_key() {
    let reply = obj(vec![
        ("error", Json::Unsigned(8)),
        ("message", text("Invalid session key - Please re-authenticate")),
    ]);
    assert!(matches!(LastFmReporter::submitted(Ok(&reply)), Submitted::Reauthorize));
    assert_eq!(read_api_error(&reply).map(|e| e.0), Some(8));
    assert!(read_api_error(&Json::Null).is_none());
}

#[test]
fn listenbrainz_report_posts_payload() {
    let reporter = ListenBrainzReporter::new("tok123".into(), "http://127.0.0.1");
    let json = reporter.listen(&scrobble_song(), Some(1_786_116_785_370));
    assert_eq!(as_str(json.get("listen_type")), Some("single"));
    let first = match json.get("payload") {
        Some(Json::Array(v)) => &v[0],
        _ => panic!("there is a payload"),
    };
    assert_eq!(as_u64(first.get("listened_at")), Some(1_786_116_785));
    let track = first.get("track_metadata").unwrap();
    assert_eq!(as_str(track.get("artist_name")), Some("Taylor Swift"));
    assert_eq!(as_str(track.get("track_name")), Some("Down Bad"));
    assert_eq!(as_str(track.get("release_name")), Some("THE TORTURED POETS DEPARTMENT"));
    assert_eq!(as_u64(track.get2("additional_info", "duration")), Some(201));
    assert_eq!(
        as_str(track.get2("additional_info", "origin_url")),
        Some("https://listen.tidal.com/track/463900374")
    );
    assert_eq!(as_str(track.get2("additional_info", "music_service")), Some("tidal.com"));
    let (url, token) = reporter.request();
    assert_eq!(url, "http://127.0.0.1/1/submit-listens");
    assert_eq!(token, "Token tok123");
}

#[test]
fn listenbrainz_refusals_are_named() {
    assert!(ListenBrainzReporter::submit_listen(200, "").is_ok());
    assert_eq!(ListenBrainzReporter::submit_listen(401, "").unwrap_err(), "unauthorized: check the ListenBrainz token");
    assert_eq!(ListenBrainzReporter::submit_listen(429, "").unwrap_err(), "rate limited");
    assert_eq!(ListenBrainzReporter::submit_listen(500, "x").unwrap_err(), "HTTP 500: x");
}

#[test]
fn tokens_and_sessions_are_asked_for_and_read() {
    let t = token_request("key", "secret");
    assert_eq!(value(&t, "method"), Some("auth.getToken"));
    assert_eq!(value(&t, "api_sig"), Some(md5_hex(b"api_keykeymethodauth.getTokensecret").as_str()));
    let s = session_request("key", "secret", "tok");
    assert_eq!(value(&s, "token"), Some("tok"));
    assert_eq!(lastfm_get_token(&obj(vec![("token", text("x"))])).unwrap(), "x");
    assert_eq!(lastfm_get_token(&Json::Null).unwrap_err(), "auth.getToken: missing token");
    let reply = obj(vec![("session", obj(vec![("key", text("k")), ("name", text("n"))]))]);
    assert_eq!(lastfm_get_session(&reply).unwrap(), ("k".to_string(), "n".to_string()));
    let refused = obj(vec![("error", Json::Unsigned(14)), ("message", text("m"))]);
    assert_eq!(lastfm_get_session(&refused).unwrap_err().0, 14);
    assert_eq!(seconds_of(1999), 1);
}

#[test]
fn the_poll_for_a_session_ends_in_one_of_three_ways() {
    assert!(matches!(lastfm_auth_flow(Ok(("k".into(), "n".into())), true, 1), PollStep::Store(_, _)));
    match lastfm_auth_flow(Err((9, "bad".to_string())), false, 1) {
        PollStep::Fail(m) => assert_eq!(m, "error 9: bad"),
        _ => panic!("a wrong configuration ends the poll"),
    }
    assert!(matches!(lastfm_auth_flow(Err((14, String::new())), true, 1), PollStep::Fail(_)));
    assert!(matches!(lastfm_auth_flow(Err((14, String::new())), false, 1), PollStep::Wait(false)));
    assert!(matches!(lastfm_auth_flow(Err((14, String::new())), false, 5), PollStep::Wait(true)));
}

#[test]
fn the_address_is_drawn_for_a_phone() {
    let url = auth_url("key", "tok");
    assert_eq!(url, "https://www.last.fm/api/auth/?api_key=key&token=tok");
    let (a, picture) = auth_prompt("key", "tok").unwrap();
    assert!(a.contains(&url) || picture.contains(&url));
    assert!(a.chars().chain(picture.chars()).any(|c| c == '█' || c == '▀' || c == '▄'));
    assert!(make_prompt("x", Err("no".to_string())).is_err());
}

#[test]
fn the_settings_name_the_reporters() {
    let mut s = Settings {
        username: "u".into(),
        password: "p".into(),
        port: 1,
        bind_addr: String::new(),
        api_key: None,
        tidal_client_id: None,
        tidal_client_secret: None,
        tidal_quality: String::new(),
        show_mixes: true,
        word_synced_lyrics: false,
        rate_limit: false,
        labels: LabelsConfig { ai: false, explicit: false },
        transcode: TranscodeConfig { enabled: false },
        lastfm: None,
        listenbrainz: None,
    };
    assert!(!enabled(&init(&s)));
    s.lastfm = Some(LastFmConfig { api_key: "k".into(), api_secret: "s".into() });
    s.listenbrainz = Some(ListenBrainzConfig { token: "t".into() });
    let all = init(&s);
    assert!(enabled(&all));
    assert!(matches!(&all[0], Reporter::LastFm(l) if l.api_key == "k"));
    assert!(matches!(&all[1], Reporter::ListenBrainz(l) if l.token == "t"));
}
