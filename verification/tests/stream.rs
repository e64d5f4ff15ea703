use subtidal::handlers::stream::{
    assemble_flac, audio_reply, check_lens, chunked_flac_transform, chunked_reply,
    configured_tier, diagnose, download, download_name, flac_sizes, flac_start, header_chunk,
    parse_range, plan, resolve_tier, segment_chunk, serve, serve_flac, serve_mp4, sizes_for,
    stream, stream_error, sub_status, FlacStart, Part, Refusal, Serving,
};
use subtidal::handlers::HttpReply;
use subtidal::params::QueryParams;
use subtidal::tidal::{Asset, Error, Quality, StreamInfo};

#[test]
fn the_configured_tier_is_requested_unchanged() {
    // The configured default is LOSSLESS without settings. Nothing about
    // the track reduces it.
    assert_eq!(resolve_tier(None, None), Quality::Lossless);
}

// All parts are CDN segments, so every URL is Some. A None first
// part is the in-memory FLAC header, exercised separately below.
fn urls(n: usize) -> Vec<Option<String>> {
    (0..n).map(|i| Some(format!("u{i}"))).collect()
}

#[test]
fn a_full_range_plans_every_part_whole() {
    // init is 100 bytes, then three 200-byte segments = 700 total.
    let sizes = vec![100, 200, 200, 200];
    let p = plan(&urls(4), &sizes, 0, 699);
    assert_eq!(p.len(), 4);
    assert!(p.iter().all(|x| x.skip == 0));
    assert_eq!(p.iter().map(|x| x.take).sum::<usize>(), 700);
}

#[test]
fn a_range_fetches_only_the_parts_it_covers() {
    let sizes = vec![100, 200, 200, 200];
    // Offsets: u0 0-99, u1 100-299, u2 300-499, u3 500-699.
    // Bytes 350-550 straddle u2 and u3. Fetching u0 and u1 too
    // would waste exactly what seeking is meant to save.
    let p = plan(&urls(4), &sizes, 350, 550);
    assert_eq!(p.len(), 2);
    assert_eq!(p[0].url.as_deref(), Some("u2"));
    assert_eq!(p[0].skip, 50);
    assert_eq!(p[0].take, 150);
    assert_eq!(p[1].url.as_deref(), Some("u3"));
    assert_eq!(p[1].skip, 0);
    assert_eq!(p[1].take, 51);
    // The slices must add up to the requested length exactly, or
    // Content-Length and the body disagree.
    assert_eq!(p.iter().map(|x| x.take).sum::<usize>(), 201);
}

#[test]
fn a_range_inside_one_part_trims_both_ends() {
    let sizes = vec![100, 200, 200, 200];
    let p = plan(&urls(4), &sizes, 120, 179);
    assert_eq!(p.len(), 1);
    assert_eq!(p[0].url.as_deref(), Some("u1"));
    assert_eq!(p[0].skip, 20);
    assert_eq!(p[0].take, 60);
}

#[test]
fn the_init_header_is_just_the_first_part() {
    // The concatenated file is init followed by segments, so byte 0
    // lands in init with no special casing.
    let sizes = vec![100, 200];
    let p = plan(&urls(2), &sizes, 0, 49);
    assert_eq!(p.len(), 1);
    assert_eq!(p[0].url.as_deref(), Some("u0"));
    assert_eq!(p[0].take, 50);
    // A range starting after init skips it entirely.
    let p = plan(&urls(2), &sizes, 100, 299);
    assert_eq!(p.len(), 1);
    assert_eq!(p[0].url.as_deref(), Some("u1"));
}

#[test]
fn a_suffix_range_reaches_the_last_byte() {
    let sizes = vec![100, 200, 200, 200];
    let total: u64 = sizes.iter().sum();
    let (s, e) = parse_range("bytes=-100", total).unwrap();
    let p = plan(&urls(4), &sizes, s, e);
    assert_eq!(p.len(), 1);
    assert_eq!(p[0].url.as_deref(), Some("u3"));
    assert_eq!(p[0].skip, 100);
    assert_eq!(p[0].take, 100);
}

#[test]
fn the_in_memory_flac_header_is_a_none_part() {
    // A rewrapped FLAC body is the in-memory header (None) followed
    // by the CDN segments. Byte ranges land on it like any other
    // part; the None marks it as already in hand.
    let parts_desc = vec![None, Some("seg0".into()), Some("seg1".into())];
    let sizes = vec![500, 200, 200];
    let p = plan(&parts_desc, &sizes, 0, 499);
    assert_eq!(p.len(), 1);
    assert_eq!(p[0].url, None);
    assert_eq!(p[0].skip, 0);
    assert_eq!(p[0].take, 500);
    // A range beyond the header skips it, hitting the segments.
    let p = plan(&parts_desc, &sizes, 700, 899);
    assert_eq!(p.len(), 1);
    assert_eq!(p[0].url.as_deref(), Some("seg1"));
    assert_eq!(p[0].skip, 0);
    assert_eq!(p[0].take, 200);
}

#[test]
fn range_header_yields_an_inclusive_clamped_span() {
    // Both ends given.
    assert_eq!(parse_range("bytes=0-99", 1000), Some((0, 99)));
    assert_eq!(parse_range("bytes=100-199", 1000), Some((100, 199)));
    // Open end means "to the last byte".
    assert_eq!(parse_range("bytes=500-", 1000), Some((500, 999)));
    // An end past the body is clamped, not rejected: players ask
    // for more than exists while probing.
    assert_eq!(parse_range("bytes=900-99999", 1000), Some((900, 999)));
    // A suffix range is the LAST n bytes, not a range ending at n.
    assert_eq!(parse_range("bytes=-200", 1000), Some((800, 999)));
    assert_eq!(parse_range("bytes=-99999", 1000), Some((0, 999)));
    // Whitespace around the spec is tolerated.
    assert_eq!(parse_range(" bytes=0-9 ", 1000), Some((0, 9)));
}

#[test]
fn unusable_ranges_fall_back_to_the_whole_body() {
    // None means "serve it all", which is what a player probing with
    // a nonsense range should get instead of a hard 416.
    assert_eq!(parse_range("bytes=1000-1100", 1000), None, "starts past the end");
    assert_eq!(parse_range("bytes=500-100", 1000), None, "inverted");
    assert_eq!(parse_range("items=0-10", 1000), None, "wrong unit");
    assert_eq!(parse_range("bytes=abc-def", 1000), None);
    assert_eq!(parse_range("bytes=", 1000), None);
    assert_eq!(parse_range("nonsense", 1000), None);
    // Multi-range needs a multipart body; answering only the first
    // range would corrupt playback, so decline the whole thing.
    assert_eq!(parse_range("bytes=0-99,200-299", 1000), None);
    // An empty body has no satisfiable range.
    assert_eq!(parse_range("bytes=0-0", 0), None);
}

#[test]
fn sub_status_is_read_from_the_error_body() {
    let e = Error::Tidal(401, r#"{"status":401,"subStatus":4033}"#.into());
    assert_eq!(sub_status(&e), Some(4033));
    assert_eq!(sub_status(&Error::Tidal(500, "<html>".into())), None);
    assert_eq!(sub_status(&Error::RateLimited), None);
}

#[test]
fn a_hint_wins_over_the_configured_tier() {
    assert_eq!(resolve_tier(Some(Quality::Atmos), None), Quality::Atmos);
    assert_eq!(configured_tier(None), Quality::Lossless);
    assert_eq!(Quality::from_setting("LOW"), Some(Quality::Low));
    assert_eq!(Quality::from_setting("HIGH"), Some(Quality::High));
    assert_eq!(Quality::from_setting("LOSSLESS"), Some(Quality::Lossless));
    assert_eq!(Quality::from_setting("HI_RES_LOSSLESS"), Some(Quality::HiResLossless));
    assert_eq!(Quality::from_setting("ATMOS"), Some(Quality::Atmos));
    assert_eq!(Quality::from_setting("BEST"), None);
}

fn header_of<'a>(headers: &'a [(String, String)], name: &str) -> Option<&'a str> {
    headers.iter().find(|h| h.0.eq_ignore_ascii_case(name)).map(|h| h.1.as_str())
}

#[test]
fn audio_is_answered_whole_or_in_part() {
    let bytes: Vec<u8> = (0..100).collect();
    let whole: HttpReply = audio_reply(&bytes, None, None, "audio/flac");
    assert_eq!(whole.status, 200);
    assert_eq!(whole.body, bytes);
    assert_eq!(header_of(&whole.headers, "content-length"), Some("100"));
    assert_eq!(header_of(&whole.headers, "content-type"), Some("audio/flac"));
    assert_eq!(header_of(&whole.headers, "accept-ranges"), Some("bytes"));
    let part = audio_reply(&bytes, Some("bytes=10-19"), Some("5.flac"), "audio/flac");
    assert_eq!(part.status, 206);
    assert_eq!(part.body, bytes[10..20].to_vec());
    assert_eq!(header_of(&part.headers, "content-range"), Some("bytes 10-19/100"));
    assert_eq!(header_of(&part.headers, "content-length"), Some("10"));
    assert_eq!(header_of(&part.headers, "content-disposition"), Some("attachment; filename=\"5.flac\""));
}

#[test]
fn a_chunked_reply_is_the_slice_of_the_assembled_file() {
    let header: Vec<u8> = vec![1; 5];
    let payloads: Vec<Vec<u8>> = vec![vec![2; 7], vec![3; 4]];
    let segments = vec!["s0".to_string(), "s1".to_string()];
    let sizes = vec![7, 4];
    let reply = serve_flac(&header, &segments, Some(&sizes), Some("bytes=3-13"), None).unwrap();
    assert_eq!(reply.status, 206);
    assert!(!reply.cacheable);
    let mut sent: Vec<u8> = vec![];
    for p in &reply.parts {
        match &p.url {
            None => sent.extend(header_chunk(p, &header)),
            Some(u) => {
                let i = segments.iter().position(|s| s == u).unwrap();
                sent.extend(segment_chunk(p, &payloads[i], 1).unwrap());
            }
        }
    }
    let mut file = header.clone();
    file.extend(payloads.concat());
    assert_eq!(sent, file[3..14].to_vec());
    let whole = serve_flac(&header, &segments, Some(&sizes), None, None).unwrap();
    assert!(whole.cacheable);
    assert_eq!(whole.parts.iter().map(|p| p.take).sum::<usize>(), 16);
    assert!(serve_flac(&header, &segments, None, None, None).is_none());
}

#[test]
fn mp4_parts_are_sent_as_they_come() {
    let segments = vec!["s0".to_string()];
    let reply = serve_mp4(&"i".to_string(), &segments, Some(&vec![10, 20]), None, None).unwrap();
    assert_eq!(reply.status, 200);
    assert_eq!(reply.parts.len(), 2);
    assert_eq!(reply.parts[0].url.as_deref(), Some("i"));
    assert_eq!(header_of(&reply.headers, "content-type"), Some("audio/mp4"));
    assert_eq!(header_of(&reply.headers, "content-length"), Some("30"));
    assert!(check_lens(&vec![10, 20]));
    assert!(!check_lens(&vec![u64::MAX, u64::MAX]));
    let none = chunked_reply(&vec![None], &vec![4], Some("bytes=9-"), None, "audio/flac");
    assert_eq!(none.status, 200);
}

#[test]
fn a_segment_that_is_too_short_is_an_error() {
    let part = Part { url: Some("u".to_string()), skip: 2, take: 3 };
    assert_eq!(segment_chunk(&part, &vec![0, 1, 2, 3, 4], 9).unwrap(), vec![2, 3, 4]);
    match segment_chunk(&part, &vec![0, 1, 2, 3], 9) {
        Err(Error::Malformed(m)) => assert_eq!(m, "track 9: segment shorter than its header claimed"),
        _ => panic!("a short segment is refused"),
    }
}

fn mdat(payload: &[u8]) -> Vec<u8> {
    let mut out = ((payload.len() + 8) as u32).to_be_bytes().to_vec();
    out.extend_from_slice(b"mdat");
    out.extend_from_slice(payload);
    out
}

#[test]
fn segments_are_measured_all_or_not_at_all() {
    let a = mdat(&[1; 30]);
    let b = mdat(&[1; 5]);
    assert_eq!(flac_sizes(&vec![Some(a.clone()), Some(b.clone())], 2), Some(vec![30, 5]));
    assert_eq!(flac_sizes(&vec![Some(a.clone()), None], 2), None);
    assert_eq!(flac_sizes(&vec![Some(a.clone())], 2), None);
    assert_eq!(sizes_for(Some(vec![1, 2]), 2), Some(vec![1, 2]));
    assert_eq!(sizes_for(Some(vec![1, 2]), 3), None);
    assert_eq!(sizes_for(None, 0), None);
    assert_eq!(chunked_flac_transform(&a), vec![1; 30]);
    assert_eq!(assemble_flac(vec![9], vec![Ok(a), Ok(b)]).unwrap().len(), 36);
    assert!(matches!(assemble_flac(vec![9], vec![Err(Error::RateLimited)]), Err(Error::RateLimited)));
}

#[test]
fn a_flac_stream_starts_with_its_init_segment() {
    assert!(matches!(flac_start(Err(Error::NotLoggedIn)), FlacStart::Unavailable(_)));
    assert!(matches!(flac_start(Ok(vec![0; 4])), FlacStart::AssembleMp4));
}

#[test]
fn what_is_served_follows_the_asset() {
    let mut info = StreamInfo {
        quality: Some(Quality::Lossless),
        codec: "flac".to_string(),
        sample_rate: None,
        bit_depth: None,
        encrypted: false,
        asset: Asset::Segmented { init: "i".to_string(), segments: vec![] },
    };
    assert!(matches!(serve(&info, true), Serving::FromMemory("audio/flac")));
    assert!(matches!(serve(&info, false), Serving::Flac));
    info.codec = "mp4a.40.2".to_string();
    assert!(matches!(serve(&info, false), Serving::Mp4));
    assert!(matches!(serve(&info, true), Serving::FromMemory("audio/mp4")));
    info.asset = Asset::File("https://x".to_string());
    match serve(&info, false) {
        Serving::Redirect(u) => assert_eq!(u, "https://x"),
        _ => panic!("one file is redirected to"),
    }
    info.encrypted = true;
    assert!(matches!(serve(&info, false), Serving::Unavailable(_)));
    assert_eq!(download_name(5, "flac"), "5.flac");
    assert_eq!(download_name(5, "mp4a"), "5.m4a");
}

#[test]
fn one_track_is_streamed_or_downloaded() {
    let q = |s: &str| QueryParams::from_merged(s).unwrap();
    assert_eq!(stream(&q("id=t3")).unwrap(), 3);
    assert_eq!(stream(&q("")).unwrap_err().code, 10);
    assert_eq!(stream(&q("id=al3")).unwrap_err().code, 70);
    assert_eq!(download(&q("id=3")).unwrap(), 3);
    assert_eq!(download(&q("")).unwrap_err().code, 10);
    assert_eq!(download(&q("id=1&id=2")).unwrap_err().message, "Multiple downloads not supported");
    assert_eq!(download(&q("id=x")).unwrap_err().code, 70);
}

#[test]
fn refusals_are_told_apart() {
    let (f, why) = stream_error(&Error::RateLimited, false);
    assert_eq!((f.code, f.message), (0, "Stream unavailable"));
    assert!(matches!(why, Refusal::TooMany));
    let (f, why) = stream_error(&Error::Tidal(404, String::new()), true);
    assert_eq!(f.code, 70);
    assert!(matches!(why, Refusal::NotPlayable));
    assert!(matches!(diagnose(None), Refusal::Other));
}

#[test]
fn an_empty_file_has_no_length() {
    for range in [None, Some("bytes=0-")] {
        let r = chunked_reply(&vec![Some("u".to_string())], &vec![0], range, None, "audio/mp4");
        assert_eq!(r.status, 200);
        assert!(r.parts.is_empty());
        assert_eq!(header_of(&r.headers, "content-length"), Some("0"));
    }
}

#[test]
fn a_range_is_made_of_digits() {
    assert_eq!(parse_range("bytes=+5-10", 1000), None);
    assert_eq!(parse_range("bytes=5-+10", 1000), None);
    assert_eq!(parse_range("bytes=-+10", 1000), None);
    assert_eq!(parse_range("bytes=5-10", 1000), Some((5, 10)));
}
