use subtidal::log::{log_request, redact_query, unescape, Level};

#[test]
fn redact_query_keeps_other_params() {
    assert_eq!(
        redact_query("u=alice&v=1.16.1&c=symfonium&f=json"),
        "?u=alice&v=1.16.1&c=symfonium&f=json"
    );
}

#[test]
fn redact_query_masks_credentials() {
    assert_eq!(
        redact_query("u=alice&t=abc123&v=1.16.1&p=enc:x"),
        "?u=alice&t=***&v=1.16.1&p=***"
    );
}

#[test]
fn redact_query_empty_stays_empty() {
    assert_eq!(redact_query(""), "");
}

#[test]
fn every_credential_is_masked() {
    assert_eq!(redact_query("p=1&t=2&token=3&password=4&s=5"), "?p=***&t=***&token=***&password=***&s=5");
    assert_eq!(redact_query("flag&u=a"), "?flag&u=a");
}

#[test]
fn requests_are_logged_by_how_they_ended() {
    let (level, line) = log_request(Some("1.2.3.4:5"), Some("ping"), "GET", "/rest/ping", "?u=a", 200, "3ms");
    assert!(matches!(level, Level::Debug));
    assert_eq!(line, "1.2.3.4:5 ping \"GET /rest/ping?u=a\" 200 in 3ms");
    let (level, line) = log_request(None, None, "GET", "/x", "", 404, "1ms");
    assert!(matches!(level, Level::Warn));
    assert_eq!(line, "- - \"GET /x\" 404 in 1ms");
    assert!(matches!(log_request(None, None, "GET", "/x", "", 500, "1ms").0, Level::Error));
}

#[test]
fn a_secret_is_masked_however_its_name_is_written() {
    assert_eq!(redact_query("%70=x"), "?%70=***");
    assert_eq!(redact_query("u=a%20b&pass%77ord=x&q=50%25"), "?u=a%20b&pass%77ord=***&q=50%25");
    assert_eq!(redact_query("a+b=c"), "?a+b=c");
    assert_eq!(redact_query("x%20y=1"), "?x%20y=1");
    assert_eq!(redact_query("%7=1&%=2&%zz=3&%74oken=4&%74=5&T=6"), "?%7=1&%=2&%zz=3&%74oken=***&%74=***&T=6");
    assert_eq!(unescape("a%20b+c%E9%2"), "a b c\u{e9}%2");
}
