use subtidal::params::{parse_bool, IdList, InvalidParam, QueryParams};

fn parse(query: &str, body: &[u8]) -> Result<QueryParams, InvalidParam> {
    QueryParams::from_merged(&QueryParams::merge_raw(query, body))
}

#[test]
fn parses_query_string() {
    let p = parse("u=admin&v=1.16.1&c=curl", b"").unwrap();
    assert_eq!(p.u.as_deref(), Some("admin"));
    assert_eq!(p.v.as_deref(), Some("1.16.1"));
}

#[test]
fn parses_form_body() {
    let p = parse("", b"u=admin&v=1.16.1&c=curl").unwrap();
    assert_eq!(p.u.as_deref(), Some("admin"));
}

#[test]
fn merges_query_and_body() {
    let p = parse("u=admin", b"query=abc").unwrap();
    assert_eq!(p.u.as_deref(), Some("admin"));
    assert_eq!(p.query.as_deref(), Some("abc"));
}

#[test]
fn empty_input_yields_empty_params() {
    let p = parse("", b"").unwrap();
    assert!(p.u.is_none() && p.query.is_none());
}

#[test]
fn rejects_type_mismatch() {
    // size is u32; a non-numeric value must fail to parse.
    assert!(parse("size=abc", b"").is_err());
}

#[test]
fn parses_single_id_value() {
    // getCoverArt sends id as a single scalar; it must deserialize into
    // the IdList field, not fail the whole request.
    let p = parse("id=xyz", b"").unwrap();
    assert_eq!(p.id, IdList(vec!["xyz".to_string()]));
}

#[test]
fn parses_repeated_id_values() {
    // star/unstar and jukeboxControl send several id params.
    let p = parse("id=t1&id=t2&id=al3", b"").unwrap();
    assert_eq!(
        p.id,
        IdList(vec!["t1".to_string(), "t2".to_string(), "al3".to_string()])
    );
    let p = parse("id=t1&albumId=al5&albumId=6&artistId=ar7", b"").unwrap();
    assert_eq!(p.album_id, IdList(vec!["al5".to_string(), "6".to_string()]));
    assert_eq!(p.artist_id, IdList(vec!["ar7".to_string()]));
}

#[test]
fn parses_scrobble_params() {
    let p = parse("id=t1&submission=true&time=1786116785370", b"").unwrap();
    assert_eq!(p.submission, Some(true));
    assert_eq!(p.time, Some(1786116785370));
}

#[test]
fn escapes_are_undone() {
    let p = parse("query=a%26b+c%20d%C3%A9", b"").unwrap();
    assert_eq!(p.query.as_deref(), Some("a&b c dé"));
}

#[test]
fn a_later_value_replaces_an_earlier_one() {
    let p = parse("query=a", b"query=b").unwrap();
    assert_eq!(p.query.as_deref(), Some("b"));
}

#[test]
fn unknown_parameters_are_ignored() {
    let p = parse("_=123&f=json&u=a&no", b"").unwrap();
    assert_eq!(p.u.as_deref(), Some("a"));
}

#[test]
fn a_body_that_is_no_text_is_left_out() {
    assert_eq!(QueryParams::merge_raw("u=a", &[0xff, 0xfe]), "u=a");
    assert_eq!(QueryParams::merge_raw("", b"u=a"), "u=a");
    assert_eq!(QueryParams::merge_raw("x=1", b"u=a"), "x=1&u=a");
    assert_eq!(QueryParams::merge_raw("x=1", b""), "x=1");
}

#[test]
fn values_of_each_type_are_checked() {
    assert!(parse("submission=maybe", b"").is_err());
    assert!(parse("time=1.5", b"").is_err());
    assert!(parse("gain=loud", b"").is_err());
    assert_eq!(parse("gain=0.5", b"").unwrap().gain.as_deref(), Some("0.5"));
    assert_eq!(parse("position=5000", b"").unwrap().position, Some(5000));
    assert_eq!(parse("size=x", b"").unwrap_err().message, "invalid size");
    assert_eq!(parse("type=newest", b"").unwrap().type_.as_deref(), Some("newest"));
    assert_eq!(parse_bool("true"), Some(true));
    assert_eq!(parse_bool("false"), Some(false));
    assert_eq!(parse_bool("yes"), None);
}

#[test]
fn odd_input_gives_a_value_or_an_error() {
    for s in ["%", "%zz", "&&&", "=", "===", "id", "\u{0}", "a=%FF%FE", "ключ=значение", "size=%31"] {
        let _ = QueryParams::from_merged(s);
        let _ = QueryParams::merge_raw(s, s.as_bytes());
    }
    assert_eq!(parse("size=%31", b"").unwrap().size, Some(1));
}
