use subtidal::ids::{decode, encode, encode_album, encode_artist, encode_track, parse, parse_track_id, IdKind};

#[test]
fn roundtrip() {
    assert_eq!(encode_track(42), "t42");
    assert_eq!(encode_album(7), "al7");
    assert_eq!(decode(IdKind::Track, "t42"), Some(42));
    assert_eq!(decode(IdKind::Album, "al7"), Some(7));
}

#[test]
fn parse_detects_kind() {
    assert_eq!(parse("ar9"), Some((IdKind::Artist, 9)));
    assert_eq!(parse("pl3"), Some((IdKind::Playlist, 3)));
    assert_eq!(parse("t1"), Some((IdKind::Track, 1)));
    assert_eq!(parse("al2"), Some((IdKind::Album, 2)));
    assert_eq!(parse("xyz"), None);
}

#[test]
fn bare_number_is_track() {
    assert_eq!(parse_track_id("t123"), Some(123));
    assert_eq!(parse_track_id("456"), Some(456));
    assert_eq!(parse_track_id("al2"), None);
}

#[test]
fn wrong_kind_rejected() {
    assert_eq!(decode(IdKind::Track, "al2"), None);
}

#[test]
fn every_kind_is_read_back() {
    for kind in [IdKind::Track, IdKind::Album, IdKind::Artist, IdKind::Playlist] {
        for id in [0, 9, 10, 12345678901234567890] {
            let s = encode(kind, id);
            assert_eq!(decode(kind, &s), Some(id));
            assert_eq!(parse(&s), Some((kind, id)));
        }
    }
    assert_eq!(encode_artist(7), "ar7");
    assert_eq!(encode(IdKind::Playlist, 3), "pl3");
}

#[test]
fn numbers_that_are_none_are_refused() {
    assert_eq!(parse_track_id("t"), None);
    assert_eq!(parse_track_id(""), None);
    assert_eq!(parse_track_id("t-1"), None);
    assert_eq!(parse_track_id("t18446744073709551616"), None);
    assert_eq!(parse_track_id("t18446744073709551615"), Some(u64::MAX));
    assert_eq!(parse_track_id("+5"), Some(5));
}
