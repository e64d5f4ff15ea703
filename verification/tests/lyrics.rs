use subtidal::handlers::lyrics::{
    after_lookup, artist_name, check_lrc, fetch_radiant_lyrics, fetch_tidal_lyrics, get_lyrics,
    get_lyrics_by_song_id, lookup_to_keep, lyrics_reply, parse_lrc, plain_text, radiant_params,
    radiant_reply, radiant_to_structured, timestamp_ms, track_facts, two_xor, AfterLookup, LookupWait,
    TrackFacts, ENC_ID, ENC_TOKEN, KEY_ID, KEY_TOKEN,
};
use subtidal::json::Json;
use subtidal::models::lyrics::{RadiantLine, RadiantLyrics, RadiantMetadata, RadiantSyllable};
use subtidal::models::song::StructuredLyrics;
use subtidal::params::QueryParams;
use subtidal::tidal::Error;

fn sample() -> RadiantLyrics {
    RadiantLyrics {
        kind: "Word".into(),
        data: vec![RadiantLine {
            text: "눈을 뜬 순간".into(),
            start_time: 2747,
            duration: 3467,
            end_time: 6214,
            syllabus: vec![
                RadiantSyllable {
                    text: "눈".into(),
                    time: 2747,
                    duration: 271,
                    is_background: false,
                },
                RadiantSyllable {
                    text: "을".into(),
                    time: 3018,
                    duration: 161,
                    is_background: false,
                },
                RadiantSyllable {
                    text: " ".into(),
                    time: 3179,
                    duration: 403,
                    is_background: false,
                },
                RadiantSyllable {
                    text: "뜬".into(),
                    time: 3582,
                    duration: 518,
                    is_background: false,
                },
                RadiantSyllable {
                    text: " ".into(),
                    time: 4100,
                    duration: 400,
                    is_background: false,
                },
                RadiantSyllable {
                    text: "순".into(),
                    time: 4500,
                    duration: 700,
                    is_background: false,
                },
                RadiantSyllable {
                    text: "간".into(),
                    time: 5200,
                    duration: 1014,
                    is_background: false,
                },
            ],
            translation: None,
        }],
        metadata: RadiantMetadata {
            source: "Deezer".into(),
            song_writers: vec![],
            copyright: None,
            licence: None,
        },
    }
}

#[test]
fn empty_syllable_does_not_shift_byte_offsets() {
    let mut r = sample();
    r.data[0].text = "a - b".into();
    r.data[0].syllabus = vec![
        RadiantSyllable { text: "a ".into(), time: 0, duration: 1, is_background: false },
        RadiantSyllable { text: "- ".into(), time: 1, duration: 1, is_background: false },
        RadiantSyllable { text: "".into(), time: 1, duration: 1, is_background: false },
        RadiantSyllable { text: "b".into(), time: 2, duration: 1, is_background: false },
    ];
    let sc = radiant_to_structured(r, "artist", "title");
    let cues = &sc.cue_line.unwrap()[0].cue;
    assert_eq!(cues.len(), 3);
    assert_eq!((cues[2].byte_start, cues[2].byte_end), (4, 4));
    assert_eq!(&"a - b"[4..=4], "b");
}

#[test]
fn plain_text_payload_is_unsynced() {
    let mut plain = sample();
    plain.kind = "None".into();
    for l in &mut plain.data {
        l.start_time = 0;
        l.end_time = 0;
        l.syllabus.clear();
    }
    let sc = radiant_to_structured(plain, "artist", "title");
    assert!(!sc.synced);
    assert!(sc.cue_line.is_none());
    assert_eq!(sc.line.len(), 1);
    assert_eq!(sc.line[0].start, None);
    assert_eq!(sc.line[0].value, "눈을 뜬 순간");
}

#[test]
fn maps_lines_and_cuelines() {
    let sc = radiant_to_structured(sample(), "artist", "title");
    // One parent line, timed, synced, kind main.
    assert_eq!(sc.line.len(), 1);
    assert_eq!(sc.line[0].start, Some(2747));
    assert_eq!(sc.line[0].value, "눈을 뜬 순간");
    assert!(sc.synced);
    assert_eq!(sc.kind, Some("main"));
    // One cueLine mirroring the line.
    let cl = sc.cue_line.as_ref().unwrap();
    assert_eq!(cl.len(), 1);
    assert_eq!(cl[0].index, 0);
    assert_eq!(cl[0].start, Some(2747));
    assert_eq!(cl[0].end, Some(6214));
    assert_eq!(cl[0].value, "눈을 뜬 순간");
    assert_eq!(cl[0].cue.len(), 7);
    // Agents stay unset for unattributed lyrics.
    assert!(sc.agents.is_none());
}

#[test]
fn cue_byte_offsets_are_utf8_running_indices() {
    let sc = radiant_to_structured(sample(), "a", "t");
    let cl = &sc.cue_line.as_ref().unwrap()[0].cue;
    // 눈=3, 을=3, ' '=1, 뜬=3, ' '=1, 순=3, 간=3 bytes.
    let expected = [
        (0u32, 2u32),
        (3, 5),
        (6, 6),
        (7, 9),
        (10, 10),
        (11, 13),
        (14, 16),
    ];
    for (i, (bs, be)) in expected.iter().enumerate() {
        assert_eq!(cl[i].byte_start, *bs, "cue {i} byteStart");
        assert_eq!(cl[i].byte_end, *be, "cue {i} byteEnd");
    }
    // Cue times carry through; end = time + duration.
    assert_eq!(cl[0].start, 2747);
    assert_eq!(cl[0].end, Some(2747 + 271));
}

#[test]
fn cue_end_present_on_every_cue() {
    let sc = radiant_to_structured(sample(), "a", "t");
    let cues = &sc.cue_line.as_ref().unwrap()[0].cue;
    assert!(cues.iter().all(|c| c.end.is_some()));
    // All-or-none end contract holds here (all have ends).
}

#[test]
fn parse_lrc_extracts_timed_lines() {
    let lrc = "[ar:Artist]\n[00:13.67]Ich steppe\n[00:17.36]Packung Bifi\n";
    let lines = parse_lrc(lrc);
    assert_eq!(lines.len(), 2);
    assert_eq!(lines[0].start, Some(13_670));
    assert_eq!(lines[0].value, "Ich steppe");
    assert_eq!(lines[1].start, Some(17_360));
    assert_eq!(lines[1].value, "Packung Bifi");
    // Metadata tags and blank lines are skipped.
    assert!(parse_lrc("[ar:Artist]").is_empty());
}

#[test]
fn xor_credentials_decode_to_plaintext() {
    assert_eq!(two_xor(&ENC_ID, &KEY_ID), "8145x189");
    assert_eq!(
        two_xor(&ENC_TOKEN, &KEY_TOKEN),
        "fzhjmyhvygrkrmikc7jszq6fce"
    );
}

fn lyrics(synced: bool) -> StructuredLyrics {
    StructuredLyrics {
        display_artist: String::new(),
        display_title: String::new(),
        lang: String::new(),
        offset: 0,
        synced,
        kind: None,
        line: vec![],
        cue_line: None,
        agents: None,
    }
}

fn words(fields: Vec<(&str, &str)>) -> Json {
    Json::Object(fields.into_iter().map(|(k, v)| (k.to_string(), Json::Text(v.to_string()))).collect())
}

#[test]
fn timestamps_count_milliseconds() {
    assert_eq!(timestamp_ms("01:02.5"), Some(62_500));
    assert_eq!(timestamp_ms("0:1.001"), Some(1001));
    assert_eq!(timestamp_ms("ar:Artist"), None);
    assert_eq!(timestamp_ms("12"), None);
    assert_eq!(timestamp_ms("00:02.01"), Some(2010));
    for tag in ["0:nan", "0:inf", "0:-1", "0:+1", "+0:01", "-0:01", "0:1e1", "0:1.", "0:.5", ":", "0:", ":1", "0:1:2", " 0:1"] {
        assert_eq!(timestamp_ms(tag), None, "{tag}");
    }
}

#[test]
fn lines_without_words_are_left_out() {
    assert!(check_lrc("[00:01.00]  \n[00:02.00]x"));
    let lines = parse_lrc("[00:01.00]  \n  [00:02.00] x y \nplain");
    assert_eq!(lines.len(), 1);
    assert_eq!(lines[0].start, Some(2000));
    assert_eq!(lines[0].value, "x y");
}

#[test]
fn a_query_names_what_is_known_of_a_track() {
    let mut t = TrackFacts {
        title: "T".to_string(),
        artist: None,
        artists: vec!["First".to_string(), "Second".to_string()],
        isrc: Some("I".to_string()),
        duration: Some(217),
        album: Some("L".to_string()),
    };
    assert_eq!(artist_name(&t), "First");
    let sent = radiant_params(&t);
    let expected = [("platform", "subtidal"), ("title", "T"), ("artist", "First"), ("isrc", "I"), ("duration", "217"), ("album", "L")];
    assert_eq!(sent.len(), expected.len());
    for (got, want) in sent.iter().zip(expected.iter()) {
        assert_eq!((got.0.as_str(), got.1.as_str()), *want);
    }
    t.artists.clear();
    t.isrc = None;
    t.duration = None;
    t.album = None;
    assert_eq!(radiant_params(&t).len(), 2);
}

#[test]
fn a_lookup_is_kept_unless_it_failed() {
    assert!(matches!(lookup_to_keep(Ok(lyrics(true))), Some(Some(_))));
    assert!(matches!(lookup_to_keep(Err(Error::Tidal(404, String::new()))), Some(None)));
    assert!(lookup_to_keep(Err(Error::Tidal(500, String::new()))).is_none());
    assert!(lookup_to_keep(Err(Error::RateLimited)).is_none());
    assert_eq!(radiant_reply(200, "b".to_string()).unwrap(), "b");
    match radiant_reply(500, "b".to_string()) {
        Err(Error::Tidal(500, m)) => assert_eq!(m, "radiant lyrics lookup failed: b"),
        _ => panic!("a status that says failure is an error"),
    }
}

#[test]
fn a_waiting_request_starts_one_lookup_at_a_time() {
    assert!(matches!(fetch_radiant_lyrics(None, true, false, false), LookupWait::Start));
    assert!(matches!(fetch_radiant_lyrics(None, true, true, false), LookupWait::Again));
    assert!(matches!(fetch_radiant_lyrics(Some(true), true, false, false), LookupWait::Found));
    assert!(matches!(fetch_radiant_lyrics(Some(false), true, false, false), LookupWait::Fail(Error::Tidal(404, _))));
    assert!(matches!(fetch_radiant_lyrics(Some(true), false, true, false), LookupWait::Found));
    assert!(matches!(fetch_radiant_lyrics(Some(false), false, true, false), LookupWait::Fail(Error::Tidal(404, _))));
    assert!(matches!(fetch_radiant_lyrics(None, false, false, false), LookupWait::Fail(Error::Tidal(502, _))));
    assert!(matches!(fetch_radiant_lyrics(None, false, true, true), LookupWait::Fail(Error::Tidal(504, _))));
    assert!(matches!(fetch_radiant_lyrics(None, false, true, false), LookupWait::Again));
}

#[test]
fn the_subtitle_track_comes_before_plain_text() {
    let both = words(vec![("lyrics", " la la "), ("subtitles", "[00:01.00]la")]);
    let l = fetch_tidal_lyrics(Ok(&both)).unwrap();
    assert!(l.synced);
    assert_eq!(l.line[0].start, Some(1000));
    let plain = words(vec![("lyrics", " la la ")]);
    let l = fetch_tidal_lyrics(Ok(&plain)).unwrap();
    assert!(!l.synced);
    assert_eq!(l.line[0].value, "la la");
    assert!(matches!(fetch_tidal_lyrics(Err(Error::Tidal(404, String::new()))), Err(Error::Tidal(404, _))));
    assert!(matches!(fetch_tidal_lyrics(Err(Error::NotLoggedIn)), Err(Error::NotLoggedIn)));
    assert_eq!(plain_text(Ok(&plain)).unwrap(), "la la");
    assert_eq!(plain_text(Err(Error::Tidal(404, String::new()))).unwrap(), "");
    assert!(matches!(plain_text(Err(Error::RateLimited)), Err(Error::RateLimited)));
}

#[test]
fn plain_text_gives_way_to_timed_lyrics_only() {
    assert!(matches!(after_lookup(Ok(lyrics(true))), AfterLookup::Serve(_)));
    assert!(matches!(after_lookup(Ok(lyrics(false))), AfterLookup::AskTidal(Some(_))));
    assert!(matches!(after_lookup(Err(Error::NotLoggedIn)), AfterLookup::AskTidal(None)));
    assert!(get_lyrics_by_song_id(Some(lyrics(false)), Ok(lyrics(true))).unwrap().synced);
    assert!(!get_lyrics_by_song_id(Some(lyrics(false)), Ok(lyrics(false))).unwrap().synced);
    assert!(get_lyrics_by_song_id(Some(lyrics(false)), Err(Error::NotLoggedIn)).is_ok());
    assert!(get_lyrics_by_song_id(None, Err(Error::NotLoggedIn)).is_err());
}

#[test]
fn lyrics_are_searched_for_by_artist_and_title() {
    let q = QueryParams::from_merged("artist=A&title=T").unwrap();
    let (a, t, s) = get_lyrics(&q).unwrap();
    assert_eq!((a.as_str(), t.as_str(), s.as_str()), ("A", "T", "A T"));
    assert_eq!(get_lyrics(&QueryParams::from_merged("artist=A").unwrap()).unwrap_err().code, 10);
    assert_eq!(lyrics_reply("A", "T", "v").lyrics.value, "v");
}

#[test]
fn the_facts_of_a_track_are_read() {
    let name = |n: &str| words(vec![("name", n)]);
    let track = Json::Object(vec![
        ("title".to_string(), Json::Text("T".to_string())),
        ("artists".to_string(), Json::Array(vec![name("A"), Json::Null, name("B")])),
        ("duration".to_string(), Json::Unsigned(217)),
        ("album".to_string(), words(vec![("title", "L")])),
    ]);
    let t = track_facts(&track);
    assert_eq!((t.title.as_str(), t.artist.as_deref(), t.duration), ("T", None, Some(217)));
    assert_eq!(t.artists, vec!["A", "B"]);
    assert_eq!((t.isrc.as_deref(), t.album.as_deref()), (None, Some("L")));
}
