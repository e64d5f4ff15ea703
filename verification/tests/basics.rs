use subtidal::lists::{found, keep, page, reversed, sort_by_keys};
use subtidal::number::{check_number, parse_millis};
use subtidal::text::{
    decimal_text, join, parse_i64, parse_u32, parse_u64, signed_text, split, split_once,
    strip_prefix, strip_suffix, trim, trim_end, trim_start,
};

#[test]
fn numbers_are_written_and_read_back() {
    for n in [0, 7, 10, 999, u64::MAX] {
        assert_eq!(decimal_text(n), n.to_string());
        assert_eq!(parse_u64(&decimal_text(n)), Some(n));
    }
    for n in [0, -1, i64::MIN, i64::MAX] {
        assert_eq!(signed_text(n), n.to_string());
        assert_eq!(parse_i64(&signed_text(n)), Some(n));
    }
    for s in ["", "+", "-", "-0", "+7", "007", "1 ", "x", "٣", "4294967296", "18446744073709551616"] {
        assert_eq!(parse_u64(s), s.parse().ok(), "{s}");
        assert_eq!(parse_u32(s), s.parse().ok(), "{s}");
        assert_eq!(parse_i64(s), s.parse().ok(), "{s}");
    }
}

#[test]
fn texts_are_cut_as_by_the_standard_library() {
    for s in ["", "&", "a&b", "&&", "a=b=c", " x ", "\u{3000}x\u{85}", "no"] {
        assert_eq!(split(s, '&'), s.split('&').map(String::from).collect::<Vec<_>>());
        assert_eq!(join(&split(s, '&'), "&"), s);
        assert_eq!(split_once(s, '='), s.split_once('='));
        assert_eq!(trim(s), s.trim());
        assert_eq!(trim_start(s), s.trim_start());
        assert_eq!(trim_end(s), s.trim_end());
        assert_eq!(strip_prefix(s, "a"), s.strip_prefix("a"));
        assert_eq!(strip_suffix(s, "b"), s.strip_suffix("b"));
    }
}

#[test]
fn decimal_numbers_are_read_exactly() {
    assert_eq!(parse_millis("13.67"), Some(13_670));
    assert_eq!(parse_millis("1.001"), Some(1001));
    assert_eq!(parse_millis("7"), Some(7000));
    assert_eq!(parse_millis("0.0009"), Some(0));
    assert_eq!(parse_millis("99999999999"), Some(u32::MAX));
    for s in ["", ".", "1.", ".5", "1e1", "-1", "+1", "nan", "inf", "infinity", "1.2.3", "1 ", "x"] {
        assert_eq!(parse_millis(s), None, "{s}");
    }
    for s in ["", ".", "1", "1.", ".5", "1e5", "1e", "+1", "-1", "inf", "NaN", "infinity", "-Infinity", "1x", " 1", "0x1", "e5", "1e+5", "1.5E-3", "1e+", "1..2", "-", "+.5e1"] {
        assert_eq!(check_number(s), s.parse::<f64>().is_ok(), "{s}");
    }
}

#[test]
fn pages_follow_on() {
    let all: Vec<u32> = (0..7).collect();
    let mut joined = page(all.clone(), 0, 3);
    joined.extend(page(all.clone(), 3, 4));
    assert_eq!(joined, all);
    assert_eq!(page(all.clone(), 9, 3), Vec::<u32>::new());
    assert_eq!(keep(all.clone(), &vec![true, false, true, false, false, false, true]), vec![0, 2, 6]);
    assert_eq!(reversed(vec![1, 2, 3]), vec![3, 2, 1]);
    assert_eq!(found(vec![Some(1), None, Some(2)]), vec![1, 2]);
    assert_eq!(sort_by_keys(vec!["c", "a", "b"], &vec![3i128, 1, 1]), vec!["a", "b", "c"]);
}
