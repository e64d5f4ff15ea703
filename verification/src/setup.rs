//! The wizard that logs the server into its services from a browser.

use crate::auth::{hex, lower_text, md5, md5_hex, to_ascii_lowercase};
use crate::handlers::{pairs, put, HttpReply};
use crate::settings::{LastFmConfig, Settings};
use crate::text;
use crate::text::{after_prefix, decimal, opt_text, opt_view, parted, trimmed};
use vstd::prelude::*;
use vstd::utf8::{decode_utf8, encode_utf8, valid_utf8};

verus! {

/// The steps, in the order the wizard takes them.
#[derive(Debug, Clone, Copy, PartialEq, Eq, Structural)]
pub enum Step {
    Tidal,
    LastFm,
}

impl Step {
    /// The name of the step in a form.
    pub open spec fn slug(self) -> Seq<char> {
        match self {
            Step::Tidal => "tidal"@,
            Step::LastFm => "lastfm"@,
        }
    }

    /// The heading of the step.
    pub open spec fn heading(self) -> Seq<char> {
        match self {
            Step::Tidal => "Log into Tidal"@,
            Step::LastFm => "Authorize Last.fm"@,
        }
    }

    /// The step with this name.
    pub fn from_slug(s: &str) -> (r: Option<Self>)
        ensures
            r == step_named(s@),
            s@ == "tidal"@ ==> r == Some(Step::Tidal),
            s@ == "lastfm"@ ==> r == Some(Step::LastFm),
            s@ != "tidal"@ && s@ != "lastfm"@ ==> r is None,
    {
        proof {
            reveal_strlit("tidal");
            reveal_strlit("lastfm");
            assert("tidal"@.len() == 5 && "lastfm"@.len() == 6);
        }
        if text::same(s, "tidal") {
            Some(Step::Tidal)
        } else if text::same(s, "lastfm") {
            Some(Step::LastFm)
        } else {
            None
        }
    }

    /// The heading of the step.
    pub fn title(self) -> (r: &'static str)
        ensures
            r@ == self.heading(),
            self == Step::Tidal ==> r@ == "Log into Tidal"@,
            self == Step::LastFm ==> r@ == "Authorize Last.fm"@,
    {
        match self {
            Step::Tidal => "Log into Tidal",
            Step::LastFm => "Authorize Last.fm",
        }
    }
}

/// The step with this name.
pub open spec fn step_named(s: Seq<char>) -> Option<Step> {
    if s == "tidal"@ {
        Some(Step::Tidal)
    } else if s == "lastfm"@ {
        Some(Step::LastFm)
    } else {
        None
    }
}

/// Each step is found under its own name.
pub proof fn law_steps_have_names(step: Step)
    ensures
        step_named(step.slug()) == Some(step),
{
    reveal_strlit("tidal");
    reveal_strlit("lastfm");
    assert("tidal"@.len() != "lastfm"@.len());
}

/// Last.fm is set up to be used.
pub open spec fn has_lastfm(settings: Option<&Settings>) -> bool {
    settings is Some && settings->0.lastfm is Some
}

/// The steps that are needed: Last.fm only where it is set up.
pub open spec fn needed_steps(settings: Option<&Settings>) -> Seq<Step> {
    if has_lastfm(settings) {
        seq![Step::Tidal, Step::LastFm]
    } else {
        seq![Step::Tidal]
    }
}

/// The credentials of the application with Last.fm.
pub fn lastfm_config<'a>(settings: Option<&'a Settings>) -> (r: Option<&'a LastFmConfig>)
    ensures
        r is Some <==> has_lastfm(settings),
        r is Some ==> settings->0.lastfm == Some(*r->0),
{
    match settings {
        Some(s) => s.lastfm.as_ref(),
        None => None,
    }
}

/// The steps that are needed.
pub fn all_steps(settings: Option<&Settings>) -> (r: Vec<Step>)
    ensures
        r@ == needed_steps(settings),
        settings is Some && settings->0.lastfm is Some ==> r@ == seq![Step::Tidal, Step::LastFm],
        settings is None || settings->0.lastfm is None ==> r@ == seq![Step::Tidal],
{
    let mut steps: Vec<Step> = Vec::new();
    steps.push(Step::Tidal);
    if lastfm_config(settings).is_some() {
        steps.push(Step::LastFm);
    }
    assert(steps@ =~= needed_steps(settings));
    steps
}

/// Where the server is logged in.
#[derive(Debug, Clone, Copy, PartialEq, Eq, Structural)]
pub struct Logins {
    pub tidal: bool,
    pub lastfm: bool,
}

/// The step is done.
pub open spec fn is_done(step: Step, logins: Logins) -> bool {
    match step {
        Step::Tidal => logins.tidal,
        Step::LastFm => logins.lastfm,
    }
}

/// Whether a step is done.
pub fn done(step: Step, logins: Logins) -> (r: bool)
    ensures
        r == is_done(step, logins),
        step == Step::Tidal ==> r == logins.tidal,
        step == Step::LastFm ==> r == logins.lastfm,
{
    match step {
        Step::Tidal => logins.tidal,
        Step::LastFm => logins.lastfm,
    }
}

/// The first of these steps that is not done.
pub open spec fn first_open(steps: Seq<Step>, logins: Logins) -> Option<Step>
    decreases steps.len(),
{
    if steps.len() == 0 {
        None
    } else if !is_done(steps[0], logins) {
        Some(steps[0])
    } else {
        first_open(steps.drop_first(), logins)
    }
}

/// The first step that is not done; none once all are.
pub fn current_step(settings: Option<&Settings>, logins: Logins) -> (r: Option<Step>)
    ensures
        r == first_open(needed_steps(settings), logins),
        !logins.tidal ==> r == Some(Step::Tidal),
        logins.tidal && settings is Some && settings->0.lastfm is Some && !logins.lastfm ==> r == Some(
            Step::LastFm,
        ),
        logins.tidal && (settings is None || settings->0.lastfm is None || logins.lastfm) ==> r is None,
{
    proof {
        law_complete_when_all_are_in(settings, logins);
        law_tidal_comes_first(settings, logins);
    }
    let steps = all_steps(settings);
    let ghost all = needed_steps(settings);
    let mut i: usize = 0;
    assert(all.subrange(0, all.len() as int) =~= all);
    while i < steps.len()
        invariant
            i <= steps@.len(),
            steps@ == all,
            all == needed_steps(settings),
            first_open(all, logins) == first_open(
                all.subrange(i as int, all.len() as int),
                logins,
            ),
        decreases steps@.len() - i,
    {
        let ghost rest = all.subrange(i as int, all.len() as int);
        assert(rest[0] == all[i as int]);
        if !done(steps[i], logins) {
            return Some(steps[i]);
        }
        assert(rest.drop_first() =~= all.subrange(i + 1, all.len() as int));
        i += 1;
    }
    None
}

/// The wizard is complete just where every service that is set up is logged in.
pub proof fn law_complete_when_all_are_in(settings: Option<&Settings>, logins: Logins)
    ensures
        first_open(needed_steps(settings), logins) is None <==> logins.tidal && (has_lastfm(settings)
            ==> logins.lastfm),
{
    let s = needed_steps(settings);
    reveal_with_fuel(first_open, 3);
    assert(s.drop_first() =~= (if has_lastfm(settings) {
        seq![Step::LastFm]
    } else {
        Seq::empty()
    }));
    assert(s.drop_first().drop_first() =~= Seq::empty() || s.len() == 1);
}

/// A character as it stands in a page.
pub open spec fn escaped_char(c: char) -> Seq<char> {
    if c == '&' {
        "&amp;"@
    } else if c == '<' {
        "&lt;"@
    } else if c == '>' {
        "&gt;"@
    } else if c == '"' {
        "&quot;"@
    } else {
        seq![c]
    }
}

/// A text as it stands in a page: nothing in it is taken for markup.
pub open spec fn escaped(s: Seq<char>) -> Seq<char>
    decreases s.len(),
{
    if s.len() == 0 {
        Seq::empty()
    } else {
        escaped(s.drop_last()) + escaped_char(s.last())
    }
}

/// Writes a text so that nothing in it is taken for markup.
pub fn escape(s: &str) -> (r: String)
    ensures
        r@ == escaped(s@),
{
    let v = text::chars_of(s);
    let mut out = String::new();
    let mut i: usize = 0;
    assert(v@.take(0) =~= Seq::empty());
    assert(out@ =~= escaped(v@.take(0)));
    while i < v.len()
        invariant
            i <= v@.len(),
            v@ == s@,
            out@ == escaped(v@.take(i as int)),
        decreases v@.len() - i,
    {
        assert(v@.take(i + 1).drop_last() =~= v@.take(i as int));
        let c = v[i];
        let ghost before = out@;
        if c == '&' {
            out.append("&amp;");
        } else if c == '<' {
            out.append("&lt;");
        } else if c == '>' {
            out.append("&gt;");
        } else if c == '"' {
            out.append("&quot;");
        } else {
            out.push(c);
            assert(out@ =~= before + seq![c]);
        }
        i += 1;
    }
    assert(v@.take(v@.len() as int) =~= v@);
    out
}

/// No character of a written text opens or closes a tag or a quoted value.
pub proof fn law_no_markup_survives(s: Seq<char>)
    ensures
        forall|i: int|
            0 <= i < escaped(s).len() ==> {
                let c = #[trigger] escaped(s)[i];
                c != '<' && c != '>' && c != '"'
            },
    decreases s.len(),
{
    reveal_strlit("&amp;");
    reveal_strlit("&lt;");
    reveal_strlit("&gt;");
    reveal_strlit("&quot;");
    if s.len() > 0 {
        law_no_markup_survives(s.drop_last());
        let a = escaped(s.drop_last());
        let b = escaped_char(s.last());
        assert forall|i: int| 0 <= i < escaped(s).len() implies {
            let c = #[trigger] escaped(s)[i];
            c != '<' && c != '>' && c != '"'
        } by {
            if i < a.len() {
                assert(escaped(s)[i] == a[i]);
            } else {
                assert(escaped(s)[i] == b[i - a.len()]);
            }
        }
    }
}

/// The first value under a name in a form.
pub open spec fn field_of(form: Seq<(Seq<char>, Seq<char>)>, name: Seq<char>) -> Option<Seq<char>>
    decreases form.len(),
{
    if form.len() == 0 {
        None
    } else if form[0].0 == name {
        Some(form[0].1)
    } else {
        field_of(form.drop_first(), name)
    }
}

/// Reads the first value under a name in a form.
pub fn field(form: &Vec<(String, String)>, name: &str) -> (r: Option<String>)
    ensures
        opt_text(r) == field_of(pairs(form@), name@),
        (forall|i: int| 0 <= i < form@.len() ==> (#[trigger] form@[i]).0@ != name@) ==> r is None,
        forall|i: int|
            0 <= i < form@.len() && (#[trigger] form@[i]).0@ == name@ && (forall|j: int|
                0 <= j < i ==> (#[trigger] form@[j]).0@ != name@) ==> r is Some && r->0@ == form@[i].1@,
{
    let ghost all = pairs(form@);
    let mut i: usize = 0;
    assert(all.subrange(0, all.len() as int) =~= all);
    while i < form.len()
        invariant
            i <= form@.len(),
            all == pairs(form@),
            forall|j: int| 0 <= j < i ==> (#[trigger] form@[j]).0@ != name@,
            field_of(all, name@) == field_of(all.subrange(i as int, all.len() as int), name@),
        decreases form@.len() - i,
    {
        let ghost rest = all.subrange(i as int, all.len() as int);
        assert(rest[0] == (form@[i as int].0@, form@[i as int].1@));
        if text::same(form[i].0.as_str(), name) {
            return Some(form[i].1.clone());
        }
        assert(rest.drop_first() =~= all.subrange(i + 1, all.len() as int));
        i += 1;
    }
    None
}

/// The form of the step for Tidal, with the address to log in at.
pub open spec fn tidal_form(url: Seq<char>) -> Seq<char> {
    "<ol><li><a href=\""@ + escaped(url)
        + "\" target=_blank rel=noopener>Open the Tidal login page</a> and sign in.</li><li>Tidal then redirects to a page that will not load. </li><li>Copy that page's full address from the address bar and paste it below.</li></ol><form method=post><input type=hidden name=step value=tidal><input name=url autofocus autocomplete=off spellcheck=false placeholder=\"https://tidal.com/android/login/auth?code=...\"><button type=submit>Finish this step</button></form><p class=hint>Link not clickable? Copy it: <code>"@
        + escaped(url) + "</code></p>"@
}

/// Writes the form of the step for Tidal.
pub fn tidal_body(authorize_url: &str) -> (r: String)
    ensures
        r@ == tidal_form(authorize_url@),
{
    let url = escape(authorize_url);
    let mut out = "<ol><li><a href=\"".to_owned();
    out.append(url.as_str());
    out.append("\" target=_blank rel=noopener>Open the Tidal login page</a> and sign in.</li><li>Tidal then redirects to a page that will not load. </li><li>Copy that page's full address from the address bar and paste it below.</li></ol><form method=post><input type=hidden name=step value=tidal><input name=url autofocus autocomplete=off spellcheck=false placeholder=\"https://tidal.com/android/login/auth?code=...\"><button type=submit>Finish this step</button></form><p class=hint>Link not clickable? Copy it: <code>");
    out.append(url.as_str());
    out.append("</code></p>");
    out
}

/// The form of the step for Last.fm, with the address to agree at.
pub open spec fn lastfm_form(url: Seq<char>) -> Seq<char> {
    "<ol><li><a href=\""@ + escaped(url)
        + "\" target=_blank rel=noopener>Open the Last.fm authorization page</a> and click Yes, allow access.</li><li>Come back here and confirm below.</li></ol><form method=post><input type=hidden name=step value=lastfm><button type=submit>I have authorized Last.fm</button></form><p class=hint>Link not clickable? Copy it: <code>"@
        + escaped(url) + "</code></p>"@
}

/// Writes the form of the step for Last.fm.
pub fn lastfm_body(authorize_url: &str) -> (r: String)
    ensures
        r@ == lastfm_form(authorize_url@),
{
    let url = escape(authorize_url);
    let mut out = "<ol><li><a href=\"".to_owned();
    out.append(url.as_str());
    out.append("\" target=_blank rel=noopener>Open the Last.fm authorization page</a> and click Yes, allow access.</li><li>Come back here and confirm below.</li></ol><form method=post><input type=hidden name=step value=lastfm><button type=submit>I have authorized Last.fm</button></form><p class=hint>Link not clickable? Copy it: <code>");
    out.append(url.as_str());
    out.append("</code></p>");
    out
}

/// What comes before the body of every page.
pub open spec fn page_head() -> Seq<char> {
    "<!doctype html><meta charset=utf-8><meta name=viewport content=\"width=device-width,initial-scale=1\"><title>Subtidal setup</title><style>:root{color-scheme:light dark}body{font:16px/1.5 system-ui,sans-serif;max-width:44rem;margin:3rem auto;padding:0 1rem}h1{font-size:1.4rem;margin:.2rem 0 1rem}input[type=text],input:not([type]){width:100%;padding:.6rem;font:inherit;box-sizing:border-box}button{margin-top:.75rem;padding:.6rem 1.2rem;font:inherit}code{word-break:break-all}.err{padding:.75rem;border-left:3px solid #c33;background:#c3333311}.hint{color:#888;font-size:.9rem}</style>"@
}

/// The reply is this page.
pub open spec fn is_page(r: HttpReply, status: u16, body: Seq<char>) -> bool {
    &&& r.status == status
    &&& pairs(r.headers@) == seq![("content-type"@, "text/html; charset=utf-8"@)]
    &&& r.body@ == encode_utf8(page_head() + body)
}

/// Makes a page, which needs nothing from elsewhere.
pub fn page(status: u16, body: &str) -> (r: HttpReply)
    ensures
        is_page(r, status, body@),
        r.status == status,
        r.body@ == encode_utf8(page_head() + body@),
        pairs(r.headers@).len() == 1,
        pairs(r.headers@)[0] == ("content-type"@, "text/html; charset=utf-8"@),
{
    let html = text::join2("<!doctype html><meta charset=utf-8><meta name=viewport content=\"width=device-width,initial-scale=1\"><title>Subtidal setup</title><style>:root{color-scheme:light dark}body{font:16px/1.5 system-ui,sans-serif;max-width:44rem;margin:3rem auto;padding:0 1rem}h1{font-size:1.4rem;margin:.2rem 0 1rem}input[type=text],input:not([type]){width:100%;padding:.6rem;font:inherit;box-sizing:border-box}button{margin-top:.75rem;padding:.6rem 1.2rem;font:inherit}code{word-break:break-all}.err{padding:.75rem;border-left:3px solid #c33;background:#c3333311}.hint{color:#888;font-size:.9rem}</style>", body);
    let mut headers: Vec<(String, String)> = Vec::new();
    put(&mut headers, "content-type", "text/html; charset=utf-8");
    assert(pairs(headers@) =~= seq![("content-type"@, "text/html; charset=utf-8"@)]);
    HttpReply { status, headers, body: html.as_str().as_bytes_vec() }
}

/// The place of a step among those needed, counted from one.
pub open spec fn step_number(steps: Seq<Step>, step: Step) -> nat {
    if steps.len() > 1 && steps[1] == step {
        2
    } else {
        1
    }
}

/// The body of the page of a step: which step it is where there are several, its heading, an
/// error where there is one, and the form.
pub open spec fn step_text(
    steps: Seq<Step>,
    step: Step,
    body: Seq<char>,
    error: Option<Seq<char>>,
) -> Seq<char> {
    (if steps.len() > 1 {
        "<p class=hint>Step "@ + decimal(step_number(steps, step)) + " of "@ + decimal(steps.len())
            + "</p>"@
    } else {
        Seq::empty()
    }) + "<h1>"@ + step.heading() + "</h1>"@ + (match error {
        Some(e) => "<p class=err>"@ + escaped(e) + "</p>"@,
        None => Seq::empty(),
    }) + body
}

/// The page of a step.
pub fn step_page(
    settings: Option<&Settings>,
    step: Step,
    status: u16,
    body: &str,
    error: Option<&str>,
) -> (r: HttpReply)
    ensures
        is_page(r, status, step_text(needed_steps(settings), step, body@, opt_view(error))),
        r.status == status,
{
    let steps = all_steps(settings);
    let mut out = String::new();
    if steps.len() > 1 {
        let number: u64 = if steps[1] == step {
            2
        } else {
            1
        };
        out.append("<p class=hint>Step ");
        out.append(text::decimal_text(number).as_str());
        out.append(" of ");
        out.append(text::decimal_text(steps.len() as u64).as_str());
        out.append("</p>");
    }
    let ghost counter = out@;
    assert(counter =~= (if steps@.len() > 1 {
        "<p class=hint>Step "@ + decimal(step_number(steps@, step)) + " of "@ + decimal(
            steps@.len(),
        ) + "</p>"@
    } else {
        Seq::empty()
    }));
    out.append("<h1>");
    out.append(step.title());
    out.append("</h1>");
    let ghost heading = out@;
    if let Some(e) = error {
        out.append("<p class=err>");
        out.append(escape(e).as_str());
        out.append("</p>");
    }
    assert(out@ =~= heading + (match opt_view(error) {
        Some(e) => "<p class=err>"@ + escaped(e) + "</p>"@,
        None => Seq::empty(),
    }));
    out.append(body);
    page(status, out.as_str())
}

/// The page of a step that a service failed.
pub fn step_error(settings: Option<&Settings>, step: Step, message: &str) -> (r: HttpReply)
    ensures
        is_page(r, 502, step_text(needed_steps(settings), step, Seq::empty(), Some(message@))),
{
    proof {
        reveal_strlit("");
        assert(""@ =~= Seq::empty());
    }
    step_page(settings, step, 502, "", Some(message))
}

/// The bytes that a text in base 64 stands for, where it is one.
pub uninterp spec fn base64_bytes(s: Seq<char>) -> Option<Seq<u8>>;

/// `base64::engine::general_purpose::STANDARD.decode` gives the bytes that a text in base 64
/// stands for, with the usual alphabet and padding, and an error for any other text.
#[verifier::external_body]
fn base64_decode(s: &str) -> (r: Option<Vec<u8>>)
    ensures
        crate::flac::opt_vec(r) == base64_bytes(s@),
{
    base64::Engine::decode(&base64::engine::general_purpose::STANDARD, s).ok()
}

/// Bytes with a name, a colon and a password log the user in. The password may be given as the
/// digits of its digest, in either case, and may hold colons.
pub open spec fn credentials_fit(raw: Seq<u8>, username: Seq<char>, password: Seq<char>) -> bool {
    &&& valid_utf8(raw)
    &&& parted(decode_utf8(raw), ':') matches Some((user, pass)) && user == username && (pass
        == password || lower_text(pass) == hex(md5(encode_utf8(password))))
}

/// Whether bytes with a name and a password log the user in.
pub fn check_credentials(raw: &Vec<u8>, username: &str, password: &str) -> (r: bool)
    ensures
        r == credentials_fit(raw@, username@, password@),
        r ==> valid_utf8(raw@),
        forall|user: Seq<char>, pass: Seq<char>|
            !user.contains(':') && raw@ == #[trigger] encode_utf8(user + seq![':'] + pass) ==> (r <==> user
                == username@ && (pass == password@ || lower_text(pass) == hex(
                md5(encode_utf8(password@)),
            ))),
{
    proof {
        assert forall|user: Seq<char>, pass: Seq<char>|
            !user.contains(':') && raw@ == #[trigger] encode_utf8(
                user + seq![':'] + pass,
            ) implies credentials_fit(raw@, username@, password@) == (user == username@ && (pass
            == password@ || lower_text(pass) == hex(md5(encode_utf8(password@))))) by {
            law_credentials_are_a_name_and_a_password(user, pass, username@, password@);
        }
    }
    match text::utf8_text(raw.as_slice()) {
        Some(decoded) => match text::split_once(decoded, ':') {
            Some((user, pass)) => text::same(user, username) && (text::same(pass, password)
                || text::same(
                to_ascii_lowercase(pass).as_str(),
                md5_hex(password.as_bytes()).as_str(),
            )),
            None => false,
        },
        None => false,
    }
}

/// A header logs the user in.
pub open spec fn header_fits(
    header: Option<Seq<char>>,
    username: Seq<char>,
    password: Seq<char>,
) -> bool {
    match header {
        Some(h) => match after_prefix(h, "Basic "@) {
            Some(encoded) => match base64_bytes(trimmed(encoded)) {
                Some(raw) => credentials_fit(raw, username, password),
                None => false,
            },
            None => false,
        },
        None => false,
    }
}

/// Whether a header logs the user in.
pub fn basic_matches(header_value: Option<&str>, username: &str, password: &str) -> (r: bool)
    ensures
        r == header_fits(opt_view(header_value), username@, password@),
        header_value is None ==> !r,
        header_value is Some && !"Basic "@.is_prefix_of(header_value->0@) ==> !r,
        r ==> base64_bytes(trimmed(header_value->0@.subrange(6, header_value->0@.len() as int))) is Some,
{
    proof {
        reveal_strlit("Basic ");
        assert("Basic "@.len() == 6);
        if header_value is Some {
            let h = header_value->0@;
            assert(h.len() >= 6 ==> ("Basic "@.is_prefix_of(h) <==> h.subrange(0, 6) =~= "Basic "@));
        }
    }
    match header_value {
        Some(h) => match text::strip_prefix(h, "Basic ") {
            Some(encoded) => match base64_decode(text::trim(encoded)) {
                Some(raw) => check_credentials(&raw, username, password),
                None => false,
            },
            None => false,
        },
        None => false,
    }
}

/// Whether a header logs the user of the settings in; without settings none does.
pub fn basic_ok(settings: Option<&Settings>, header_value: Option<&str>) -> (r: bool)
    ensures
        r == (match settings {
            Some(s) => header_fits(opt_view(header_value), s.username@, s.password@),
            None => false,
        }),
{
    match settings {
        Some(s) => basic_matches(header_value, s.username.as_str(), s.password.as_str()),
        None => false,
    }
}

/// What is shown once all is done, the first time and after that.
pub open spec fn is_finish(r: HttpReply, shown_before: bool) -> bool {
    if shown_before {
        &&& r.status == 410
        &&& pairs(r.headers@) == seq![("content-type"@, "text/html; charset=utf-8"@)]
        &&& r.body@.len() == 0
    } else {
        is_page(
            r,
            200,
            "<h1>Setup complete</h1><p>Every configured service is authorized. Close this page.</p>"@,
        )
    }
}

/// Shows once that all is done; after that the wizard is gone.
pub fn finish_or_gone(shown: &mut bool) -> (r: HttpReply)
    ensures
        *final(shown),
        is_finish(r, *old(shown)),
        *old(shown) ==> r.status == 410 && r.body@.len() == 0,
        !*old(shown) ==> r.status == 200,
{
    if !*shown {
        *shown = true;
        return page(
            200,
            "<h1>Setup complete</h1><p>Every configured service is authorized. Close this page.</p>",
        );
    }
    let mut headers: Vec<(String, String)> = Vec::new();
    put(&mut headers, "content-type", "text/html; charset=utf-8");
    assert(pairs(headers@) =~= seq![("content-type"@, "text/html; charset=utf-8"@)]);
    HttpReply { status: 410, headers, body: Vec::new() }
}

/// The reply asks for the username and the password.
pub open spec fn is_unauthorized(r: HttpReply) -> bool {
    &&& r.status == 401
    &&& pairs(r.headers@) == seq![
        ("content-type"@, "text/html; charset=utf-8"@),
        ("www-authenticate"@, "Basic realm=\"Subtidal\", charset=\"UTF-8\""@),
    ]
    &&& r.body@ == encode_utf8(
        page_head()
            + "<p class=err>Sign in with the Subtidal username and password from settings.toml.</p>"@,
    )
}

/// Asks for the name and the password.
pub fn unauthorized() -> (r: HttpReply)
    ensures
        is_unauthorized(r),
        r.status == 401,
        pairs(r.headers@).contains(
            ("www-authenticate"@, "Basic realm=\"Subtidal\", charset=\"UTF-8\""@),
        ),
{
    let mut r = page(
        401,
        "<p class=err>Sign in with the Subtidal username and password from settings.toml.</p>",
    );
    put(&mut r.headers, "www-authenticate", "Basic realm=\"Subtidal\", charset=\"UTF-8\"");
    assert(pairs(r.headers@) =~= seq![
        ("content-type"@, "text/html; charset=utf-8"@),
        ("www-authenticate"@, "Basic realm=\"Subtidal\", charset=\"UTF-8\""@),
    ]);
    assert(pairs(r.headers@)[1] == (
        "www-authenticate"@,
        "Basic realm=\"Subtidal\", charset=\"UTF-8\""@,
    ));
    r
}

/// What a request to the wizard leads to.
#[derive(Debug)]
pub enum Gate {
    /// The reply is there.
    Reply(HttpReply),
    /// The step is shown, for which its service is asked for an address.
    Start(Step),
    /// The address that was pasted is redeemed with Tidal.
    RedeemTidal(String),
    /// The token that was handed out is redeemed with Last.fm.
    RedeemLastFm,
}

/// What a form that was sent leads to, while a step is open. A form of another step, as from a
/// page left open, has the open step shown.
pub open spec fn submitted_to(step: Step, form: Seq<(Seq<char>, Seq<char>)>, r: Gate) -> bool {
    let posted = match field_of(form, "step"@) {
        Some(s) => step_named(s),
        None => None,
    };
    if posted != Some(step) {
        r == Gate::Start(step)
    } else {
        match step {
            Step::Tidal => r matches Gate::RedeemTidal(u) && u@ == trimmed(
                match field_of(form, "url"@) {
                    Some(v) => v,
                    None => Seq::empty(),
                },
            ),
            Step::LastFm => r is RedeemLastFm,
        }
    }
}

/// Decides what a form that was sent leads to.
pub fn submit(step: Step, form: &Vec<(String, String)>) -> (r: Gate)
    ensures
        submitted_to(step, pairs(form@), r),
        field_of(pairs(form@), "step"@) is None ==> r == Gate::Start(step),
        step == Step::Tidal && field_of(pairs(form@), "step"@) != Some("tidal"@) ==> r == Gate::Start(
            step,
        ),
        step == Step::LastFm && field_of(pairs(form@), "step"@) != Some("lastfm"@) ==> r == Gate::Start(
            step,
        ),
        step == Step::LastFm && field_of(pairs(form@), "step"@) == Some("lastfm"@) ==> r is RedeemLastFm,
        step == Step::Tidal && field_of(pairs(form@), "step"@) == Some("tidal"@) ==> (
        r matches Gate::RedeemTidal(u) && match field_of(pairs(form@), "url"@) {
            Some(v) => u@ == trimmed(v),
            None => u@.len() == 0,
        }),
{
    proof {
        reveal_strlit("tidal");
        reveal_strlit("lastfm");
        assert("tidal"@.len() == 5 && "lastfm"@.len() == 6);
        text::law_only_blank_texts_trim_to_nothing(Seq::empty());
    }
    let posted = match field(form, "step") {
        Some(s) => Step::from_slug(s.as_str()),
        None => None,
    };
    if posted != Some(step) {
        return Gate::Start(step);
    }
    match step {
        Step::Tidal => {
            let pasted = match field(form, "url") {
                Some(v) => v,
                None => String::new(),
            };
            Gate::RedeemTidal(text::trim(pasted.as_str()).to_owned())
        },
        Step::LastFm => Gate::RedeemLastFm,
    }
}

/// Decides what a request to the wizard leads to. Once all is done it closes; until then nothing
/// happens without the name and the password.
pub fn gated(
    settings: Option<&Settings>,
    logins: Logins,
    shown: &mut bool,
    authorization: Option<&str>,
    form: Option<&Vec<(String, String)>>,
) -> (r: Gate)
    ensures
        match first_open(needed_steps(settings), logins) {
            None => *final(shown) && (r matches Gate::Reply(h) && is_finish(h, *old(shown))),
            Some(step) => {
                &&& *final(shown) == *old(shown)
                &&& if settings is Some && header_fits(
                    opt_view(authorization),
                    settings->0.username@,
                    settings->0.password@,
                ) {
                    match form {
                        Some(f) => submitted_to(step, pairs(f@), r),
                        None => r == Gate::Start(step),
                    }
                } else {
                    r matches Gate::Reply(h) && is_unauthorized(h)
                }
            },
        },
        logins.tidal && logins.lastfm ==> r is Reply,
        !logins.tidal && settings is None ==> (r matches Gate::Reply(h) && h.status == 401),
        r is RedeemTidal ==> !logins.tidal && form is Some && settings is Some,
        r is RedeemLastFm ==> logins.tidal && !logins.lastfm && form is Some && settings is Some,
        r is Start ==> settings is Some && header_fits(
            opt_view(authorization),
            settings->0.username@,
            settings->0.password@,
        ),
{
    proof {
        law_complete_when_all_are_in(settings, logins);
        law_tidal_comes_first(settings, logins);
    }
    let step = match current_step(settings, logins) {
        Some(s) => s,
        None => {
            return Gate::Reply(finish_or_gone(shown));
        },
    };
    if !basic_ok(settings, authorization) {
        return Gate::Reply(unauthorized());
    }
    match form {
        Some(f) => submit(step, f),
        None => Gate::Start(step),
    }
}

/// The page of a step whose service was asked for an address.
pub fn start(settings: Option<&Settings>, step: Step, url: Result<String, String>) -> (r: HttpReply)
    ensures
        match url {
            Ok(u) => is_page(
                r,
                200,
                step_text(needed_steps(settings), step, step_form(step, u@), None),
            ),
            Err(e) => is_page(
                r,
                502,
                step_text(needed_steps(settings), step, Seq::empty(), Some(e@)),
            ),
        },
        url is Ok ==> r.status == 200,
        url is Err ==> r.status == 502,
{
    match url {
        Ok(u) => {
            let body = match step {
                Step::Tidal => tidal_body(u.as_str()),
                Step::LastFm => lastfm_body(u.as_str()),
            };
            step_page(settings, step, 200, body.as_str(), None)
        },
        Err(e) => step_error(settings, step, e.as_str()),
    }
}

/// The form of a step.
pub open spec fn step_form(step: Step, url: Seq<char>) -> Seq<char> {
    match step {
        Step::Tidal => tidal_form(url),
        Step::LastFm => lastfm_form(url),
    }
}

/// The page of a step that was tried and failed with an error, with a fresh address to try again,
/// or with the reason why there is none.
pub fn retry(
    settings: Option<&Settings>,
    step: Step,
    error: &str,
    url: Result<String, String>,
) -> (r: HttpReply)
    ensures
        match url {
            Ok(u) => is_page(
                r,
                400,
                step_text(needed_steps(settings), step, step_form(step, u@), Some(error@)),
            ),
            Err(e) => is_page(
                r,
                502,
                step_text(
                    needed_steps(settings),
                    step,
                    Seq::empty(),
                    Some(error@ + " / "@ + e@),
                ),
            ),
        },
        url is Ok ==> r.status == 400,
        url is Err ==> r.status == 502,
{
    match url {
        Ok(u) => {
            let body = match step {
                Step::Tidal => tidal_body(u.as_str()),
                Step::LastFm => lastfm_body(u.as_str()),
            };
            step_page(settings, step, 400, body.as_str(), Some(error))
        },
        Err(e) => step_error(settings, step, text::join3(error, " / ", e.as_str()).as_str()),
    }
}

/// Decides what comes after a step is done: the next one, or the page that closes the wizard.
pub fn advance(settings: Option<&Settings>, logins: Logins, shown: &mut bool) -> (r: Gate)
    ensures
        match first_open(needed_steps(settings), logins) {
            Some(step) => r == Gate::Start(step) && *final(shown) == *old(shown),
            None => *final(shown) && (r matches Gate::Reply(h) && is_finish(h, *old(shown))),
        },
        !logins.tidal ==> r == Gate::Start(Step::Tidal),
        logins.tidal && settings is Some && settings->0.lastfm is Some && !logins.lastfm ==> r
            == Gate::Start(Step::LastFm),
        logins.tidal && (settings is None || settings->0.lastfm is None || logins.lastfm) ==> r is Reply,
{
    match current_step(settings, logins) {
        Some(step) => Gate::Start(step),
        None => Gate::Reply(finish_or_gone(shown)),
    }
}

/// What comes of the confirmation that Last.fm was authorized.
#[derive(Debug)]
pub enum LastFmSubmit {
    /// The reply is there.
    Reply(HttpReply),
    /// No token was handed out: the step is shown afresh.
    Start,
    /// The token is redeemed.
    Redeem(String),
}

/// Decides what comes of the confirmation that Last.fm was authorized; `token` is that which was
/// handed out. A token stays valid until it is used, so that one may confirm again.
pub fn submit_lastfm(settings: Option<&Settings>, token: Option<String>) -> (r: LastFmSubmit)
    ensures
        if !has_lastfm(settings) {
            r matches LastFmSubmit::Reply(h) && is_page(
                h,
                502,
                step_text(
                    needed_steps(settings),
                    Step::LastFm,
                    Seq::empty(),
                    Some("Last.fm is not configured."@),
                ),
            )
        } else {
            r == (match token {
                Some(t) => LastFmSubmit::Redeem(t),
                None => LastFmSubmit::Start,
            })
        },
        settings is None || settings->0.lastfm is None ==> (r matches LastFmSubmit::Reply(h) && h.status
            == 502),
        settings is Some && settings->0.lastfm is Some && token is Some ==> r == LastFmSubmit::Redeem(
            token->0,
        ),
        settings is Some && settings->0.lastfm is Some && token is None ==> r is Start,
{
    if lastfm_config(settings).is_none() {
        return LastFmSubmit::Reply(
            step_error(settings, Step::LastFm, "Last.fm is not configured."),
        );
    }
    match token {
        Some(t) => LastFmSubmit::Redeem(t),
        None => LastFmSubmit::Start,
    }
}

/// Once all is done, the page that says so is shown to the first request and to none after it:
/// whatever comes later finds nothing, with or without the password.
pub proof fn law_the_wizard_closes_once(first: HttpReply, later: HttpReply)
    requires
        is_finish(first, false),
        is_finish(later, true),
    ensures
        first.status == 200,
        later.status == 410,
        later.body@.len() == 0,
{
}

/// Tidal comes before Last.fm, whatever is done of the latter.
pub proof fn law_tidal_comes_first(settings: Option<&Settings>, logins: Logins)
    ensures
        !logins.tidal ==> first_open(needed_steps(settings), logins) == Some(Step::Tidal),
        logins.tidal && settings is Some && settings->0.lastfm is Some && !logins.lastfm
            ==> first_open(needed_steps(settings), logins) == Some(Step::LastFm),
{
    let s = needed_steps(settings);
    reveal_with_fuel(first_open, 3);
    assert(s.drop_first() =~= (if has_lastfm(settings) {
        seq![Step::LastFm]
    } else {
        Seq::empty()
    }));
}

/// A text is written character by character: the four that could be taken for markup by their
/// names, and any other as it is.
pub proof fn law_texts_are_escaped_character_by_character(a: Seq<char>, b: Seq<char>, c: char)
    ensures
        escaped(a + b) == escaped(a) + escaped(b),
        escaped(Seq::empty()).len() == 0,
        escaped(seq!['&']) == "&amp;"@,
        escaped(seq!['<']) == "&lt;"@,
        escaped(seq!['>']) == "&gt;"@,
        escaped(seq!['"']) == "&quot;"@,
        c != '&' && c != '<' && c != '>' && c != '"' ==> escaped(seq![c]) == seq![c],
    decreases b.len(),
{
    lemma_escaped_one('&');
    lemma_escaped_one('<');
    lemma_escaped_one('>');
    lemma_escaped_one('"');
    lemma_escaped_one(c);
    if b.len() == 0 {
        assert(a + b =~= a);
        assert(escaped(a) + escaped(b) =~= escaped(a));
    } else {
        law_texts_are_escaped_character_by_character(a, b.drop_last(), c);
        assert((a + b).drop_last() =~= a + b.drop_last());
        assert((a + b).last() == b.last());
        assert(escaped(a + b) =~= escaped(a) + escaped(b));
    }
}

proof fn lemma_escaped_one(c: char)
    ensures
        escaped(seq![c]) == escaped_char(c),
{
    assert(seq![c].drop_last() =~= Seq::<char>::empty());
    assert(escaped(Seq::<char>::empty()) =~= Seq::empty());
    assert(escaped(seq![c]) =~= escaped_char(c));
}

/// Credentials are a name, a colon and a password; they log in where the name is right and the
/// password is, or the digits of its digest.
pub proof fn law_credentials_are_a_name_and_a_password(
    user: Seq<char>,
    pass: Seq<char>,
    username: Seq<char>,
    password: Seq<char>,
)
    requires
        !user.contains(':'),
    ensures
        credentials_fit(encode_utf8(user + seq![':'] + pass), username, password) <==> user
            == username && (pass == password || lower_text(pass) == hex(md5(encode_utf8(password)))),
        !credentials_fit(encode_utf8(user), username, password),
{
    let s = user + seq![':'] + pass;
    vstd::utf8::encode_utf8_decode_utf8(s);
    vstd::utf8::encode_utf8_decode_utf8(user);
    vstd::utf8::encode_utf8_valid_utf8(s);
    vstd::utf8::encode_utf8_valid_utf8(user);
    text::law_parted_at_the_first(user, ':', pass);
}

/// A header logs in where it is `Basic` and the credentials in base 64, with or without space
/// around them.
pub proof fn law_a_header_holds_credentials(
    encoded: Seq<char>,
    user: Seq<char>,
    pass: Seq<char>,
    username: Seq<char>,
    password: Seq<char>,
)
    requires
        !user.contains(':'),
        base64_bytes(trimmed(encoded)) == Some(encode_utf8(user + seq![':'] + pass)),
    ensures
        header_fits(Some("Basic "@ + encoded), username, password) <==> user == username && (pass
            == password || lower_text(pass) == hex(md5(encode_utf8(password)))),
        !header_fits(None, username, password),
{
    text::law_a_prefix_leaves_the_rest("Basic "@, encoded, encoded);
    law_credentials_are_a_name_and_a_password(user, pass, username, password);
}

/// The value of a form under a name is the first there is.
pub proof fn law_the_first_value_counts(
    before: Seq<(Seq<char>, Seq<char>)>,
    name: Seq<char>,
    value: Seq<char>,
    after: Seq<(Seq<char>, Seq<char>)>,
)
    requires
        forall|i: int| 0 <= i < before.len() ==> (#[trigger] before[i]).0 != name,
    ensures
        field_of(before + seq![(name, value)] + after, name) == Some(value),
        field_of(before, name) is None,
    decreases before.len(),
{
    let v = before + seq![(name, value)] + after;
    if before.len() == 0 {
        assert(v[0] == (name, value));
    } else {
        let b = before.drop_first();
        assert(v[0] == before[0]);
        assert(v.drop_first() =~= b + seq![(name, value)] + after);
        assert forall|i: int| 0 <= i < b.len() implies (#[trigger] b[i]).0 != name by {
            assert(b[i] == before[i + 1]);
        }
        law_the_first_value_counts(b, name, value, after);
    }
}

/// The page of a step shows which of two steps it is, where there are two; then the heading, the
/// error where there is one, and the form.
#[verifier::rlimit(40)]
pub proof fn law_what_the_page_of_a_step_shows(body: Seq<char>, e: Seq<char>)
    ensures
        step_text(seq![Step::Tidal], Step::Tidal, body, None) == "<h1>"@ + "Log into Tidal"@
            + "</h1>"@ + body,
        step_text(seq![Step::Tidal], Step::Tidal, body, Some(e)) == "<h1>"@ + "Log into Tidal"@
            + "</h1>"@ + ("<p class=err>"@ + escaped(e) + "</p>"@) + body,
        step_text(seq![Step::Tidal, Step::LastFm], Step::Tidal, body, None)
            == "<p class=hint>Step "@ + decimal(1) + " of "@ + decimal(2) + "</p>"@ + "<h1>"@
            + "Log into Tidal"@ + "</h1>"@ + body,
        step_text(seq![Step::Tidal, Step::LastFm], Step::LastFm, body, None)
            == "<p class=hint>Step "@ + decimal(2) + " of "@ + decimal(2) + "</p>"@ + "<h1>"@
            + "Authorize Last.fm"@ + "</h1>"@ + body,
        step_text(seq![Step::Tidal, Step::LastFm], Step::LastFm, body, Some(e))
            == "<p class=hint>Step "@ + decimal(2) + " of "@ + decimal(2) + "</p>"@ + "<h1>"@
            + "Authorize Last.fm"@ + "</h1>"@ + ("<p class=err>"@ + escaped(e) + "</p>"@) + body,
{
    assert(step_text(seq![Step::Tidal], Step::Tidal, body, None) =~= "<h1>"@ + "Log into Tidal"@
        + "</h1>"@ + body);
    assert(step_text(seq![Step::Tidal], Step::Tidal, body, Some(e)) =~= "<h1>"@ + "Log into Tidal"@
        + "</h1>"@ + ("<p class=err>"@ + escaped(e) + "</p>"@) + body);
    assert(step_text(seq![Step::Tidal, Step::LastFm], Step::Tidal, body, None)
        =~= "<p class=hint>Step "@ + decimal(1) + " of "@ + decimal(2) + "</p>"@ + "<h1>"@
        + "Log into Tidal"@ + "</h1>"@ + body);
    assert(step_text(seq![Step::Tidal, Step::LastFm], Step::LastFm, body, None)
        =~= "<p class=hint>Step "@ + decimal(2) + " of "@ + decimal(2) + "</p>"@ + "<h1>"@
        + "Authorize Last.fm"@ + "</h1>"@ + body);
    assert(step_text(seq![Step::Tidal, Step::LastFm], Step::LastFm, body, Some(e))
        =~= "<p class=hint>Step "@ + decimal(2) + " of "@ + decimal(2) + "</p>"@ + "<h1>"@
        + "Authorize Last.fm"@ + "</h1>"@ + ("<p class=err>"@ + escaped(e) + "</p>"@) + body);
}

/// The form of a step names the step and holds the address twice: as a link and to be copied.
#[verifier::rlimit(40)]
pub proof fn law_the_form_holds_the_address(url: Seq<char>)
    ensures
        "<ol><li><a href=\""@.is_prefix_of(tidal_form(url)),
        "<ol><li><a href=\""@.is_prefix_of(lastfm_form(url)),
        tidal_form(url).subrange(17, 17 + escaped(url).len() as int) == escaped(url),
        lastfm_form(url).subrange(17, 17 + escaped(url).len() as int) == escaped(url),
        tidal_form(url).subrange(
            tidal_form(url).len() - 11 - escaped(url).len(),
            tidal_form(url).len() - 11,
        ) == escaped(url),
        lastfm_form(url).subrange(
            lastfm_form(url).len() - 11 - escaped(url).len(),
            lastfm_form(url).len() - 11,
        ) == escaped(url),
{
    reveal_strlit("<ol><li><a href=\"");
    reveal_strlit("</code></p>");
    let head = "<ol><li><a href=\""@;
    assert(head.len() == 17 && "</code></p>"@.len() == 11);
    let t = tidal_form(url);
    let l = lastfm_form(url);
    let n = escaped(url).len() as int;
    assert(t.subrange(0, 17) =~= head);
    assert(l.subrange(0, 17) =~= head);
    assert(t.subrange(17, 17 + n) =~= escaped(url));
    assert(l.subrange(17, 17 + n) =~= escaped(url));
    assert(t.subrange(t.len() - 11 - n, t.len() - 11) =~= escaped(url));
    assert(l.subrange(l.len() - 11 - n, l.len() - 11) =~= escaped(url));
}

} // verus!
