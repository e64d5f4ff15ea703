use base64::Engine as _;
use subtidal::auth::md5_hex;
use subtidal::handlers::HttpReply;
use subtidal::setup::{
    advance, all_steps, basic_matches, basic_ok, current_step, escape, field, finish_or_gone, gated,
    lastfm_body, retry, start, submit, submit_lastfm, tidal_body, unauthorized, Gate,
    LastFmSubmit, Logins, Step,
};

fn header<'a>(r: &'a HttpReply, name: &str) -> Option<&'a str> {
    r.headers.iter().find(|h| h.0 == name).map(|h| h.1.as_str())
}

fn basic(cred: &str) -> String {
    format!(
        "Basic {}",
        base64::engine::general_purpose::STANDARD.encode(cred)
    )
}

#[test]
fn basic_auth_accepts_the_configured_credentials() {
    assert!(basic_matches(Some(&basic("u:p")), "u", "p"));
    let hashed = md5_hex(b"p");
    assert!(basic_matches(
        Some(&basic(&format!("u:{hashed}"))),
        "u",
        "p"
    ));
    assert!(basic_matches(
        Some(&basic(&format!("u:{}", hashed.to_uppercase()))),
        "u",
        "p"
    ));
}

#[test]
fn basic_auth_rejects_everything_else() {
    assert!(!basic_matches(Some(&basic("u:wrong")), "u", "p"));
    assert!(!basic_matches(Some(&basic("wrong:p")), "u", "p"));
    assert!(!basic_matches(Some(&basic("nocolon")), "u", "p"));
    assert!(!basic_matches(Some("Basic !!!not-base64"), "u", "p"));
    assert!(!basic_matches(Some("Bearer xyz"), "u", "p"));
    assert!(!basic_matches(None, "u", "p"));
}

#[test]
fn a_colon_in_the_password_is_preserved() {
    assert!(basic_matches(Some(&basic("u:a:b")), "u", "a:b"));
}

#[test]
fn markup_in_an_error_is_escaped() {
    assert_eq!(
        escape("<script>&\"</script>"),
        "&lt;script&gt;&amp;&quot;&lt;/script&gt;"
    );
}

#[test]
fn the_authorize_url_is_escaped_into_the_form() {
    let html = tidal_body("https://x/authorize?a=1&b=2");
    assert!(html.contains("https://x/authorize?a=1&amp;b=2"), "{html}");
    assert!(!html.contains("?a=1&b=2"), "{html}");
    let html = lastfm_body("https://x/auth?api_key=k&token=t");
    assert!(
        html.contains("https://x/auth?api_key=k&amp;token=t"),
        "{html}"
    );
}

#[test]
fn every_step_form_carries_its_own_slug() {
    assert!(tidal_body("https://x").contains("name=step value=tidal"));
    assert!(lastfm_body("https://x").contains("name=step value=lastfm"));
    assert_eq!(Step::from_slug("tidal"), Some(Step::Tidal));
    assert_eq!(Step::from_slug("lastfm"), Some(Step::LastFm));
    assert_eq!(Step::from_slug("nope"), None);
}

// Without settings Last.fm is unconfigured and Tidal is the only step.
#[test]
fn only_configured_services_become_steps() {
    assert_eq!(all_steps(None), vec![Step::Tidal]);
}

#[test]
fn completed_setup_shows_close_page_once_then_answers_gone() {
    let mut shown = false;
    let first = finish_or_gone(&mut shown);
    assert_eq!(first.status, 200);
    assert!(header(&first, "content-type").is_some_and(|v| v.contains("text/html")));
    let second = finish_or_gone(&mut shown);
    assert_eq!(second.status, 410);
    assert_eq!(header(&second, "content-length"), None);
}

// A logged-out server must not 404 the page it tells people to open.
#[test]
fn get_setup_asks_for_credentials_when_unconfigured() {
    let mut shown = false;
    match gated(None, Logins { tidal: false, lastfm: false }, &mut shown, None, None) {
        Gate::Reply(resp) => {
            assert_eq!(resp.status, 401);
            assert!(header(&resp, "www-authenticate").is_some());
        }
        _ => panic!("credentials are asked for"),
    }
}

#[test]
fn a_form_is_taken_for_the_step_it_was_made_for() {
    let form = |step: &str, extra: (&str, &str)| {
        vec![("step".to_string(), step.to_string()), (extra.0.to_string(), extra.1.to_string())]
    };
    assert_eq!(field(&form("tidal", ("a", "b")), "a").as_deref(), Some("b"));
    assert!(matches!(submit(Step::LastFm, &form("lastfm", ("a", "b"))), Gate::RedeemLastFm));
}

#[test]
fn setup_is_complete_when_every_login_is_there() {
    let both = Logins { tidal: true, lastfm: true };
    assert_eq!(current_step(None, both), None);
    assert_eq!(current_step(None, Logins { tidal: false, lastfm: true }), Some(Step::Tidal));
    let mut shown = false;
    assert!(matches!(gated(None, both, &mut shown, None, None), Gate::Reply(r) if r.status == 200));
    assert!(matches!(gated(None, both, &mut shown, None, None), Gate::Reply(r) if r.status == 410));
}

#[test]
fn failures_are_shown_on_the_page() {
    let body = |r: &HttpReply| String::from_utf8(r.body.clone()).unwrap();
    let failed = start(None, Step::Tidal, Err("no <net>".to_string()));
    assert_eq!(failed.status, 502);
    assert!(body(&failed).contains("no &lt;net&gt;"));
    let again = retry(None, Step::Tidal, "wrong", Ok("https://x".to_string()));
    assert_eq!(again.status, 400);
    assert!(body(&again).contains("wrong"));
    assert!(body(&again).contains("https://x"));
    assert_eq!(unauthorized().status, 401);
    assert!(!basic_ok(None, Some(&basic("u:p"))));
}

#[test]
fn a_step_that_is_done_leads_to_the_next() {
    let mut shown = false;
    assert!(matches!(advance(None, Logins { tidal: false, lastfm: false }, &mut shown), Gate::Start(Step::Tidal)));
    assert!(!shown);
    assert!(matches!(advance(None, Logins { tidal: true, lastfm: false }, &mut shown), Gate::Reply(r) if r.status == 200));
    assert!(shown);
    assert!(matches!(submit_lastfm(None, Some("t".to_string())), LastFmSubmit::Reply(r) if r.status == 502));
}
