//! What is said at the start of the server, and what its arguments ask for.

use crate::settings::{LabelsConfig, Settings};
use crate::text;
use crate::text::{decimal, opt_text, texts};
use vstd::prelude::*;

verus! {

/// The word for a switch.
pub open spec fn switch(b: bool) -> Seq<char> {
    if b {
        "on"@
    } else {
        "off"@
    }
}

/// The word for a switch.
pub fn on_off(b: bool) -> (r: String)
    ensures
        r@ == switch(b),
        b ==> r@ == "on"@,
        !b ==> r@ == "off"@,
{
    if b {
        "on".to_owned()
    } else {
        "off".to_owned()
    }
}

/// The words for the labels that are shown.
pub open spec fn labels_text(l: LabelsConfig) -> Seq<char> {
    "ai "@ + switch(l.ai) + ", explicit "@ + switch(l.explicit)
}

/// The words for the labels that are shown.
pub fn labels_str(l: &LabelsConfig) -> (r: String)
    ensures
        r@ == labels_text(*l),
        l.ai && l.explicit ==> r@ == "ai "@ + "on"@ + ", explicit "@ + "on"@,
        l.ai && !l.explicit ==> r@ == "ai "@ + "on"@ + ", explicit "@ + "off"@,
        !l.ai && l.explicit ==> r@ == "ai "@ + "off"@ + ", explicit "@ + "on"@,
        !l.ai && !l.explicit ==> r@ == "ai "@ + "off"@ + ", explicit "@ + "off"@,
{
    let mut out = "ai ".to_owned();
    out.append(on_off(l.ai).as_str());
    out.append(", explicit ");
    out.append(on_off(l.explicit).as_str());
    out
}

/// The arguments ask for the version.
pub open spec fn asks_version(args: Seq<Seq<char>>) -> bool {
    exists|i: int| 0 <= i < args.len() && (#[trigger] args[i] == "--version"@ || args[i] == "-V"@)
}

/// Whether the arguments, without the name of the program, ask for the version.
pub fn version_flag(args: &Vec<String>) -> (r: bool)
    ensures
        r == asks_version(texts(args@)),
        r <==> exists|i: int|
            0 <= i < args@.len() && ((#[trigger] args@[i])@ == "--version"@ || args@[i]@ == "-V"@),
{
    proof {
        assert(texts(args@).len() == args@.len());
        assert forall|i: int| 0 <= i < args@.len() implies (#[trigger] args@[i])@ == texts(args@)[i] by {}
    }
    let ghost all = texts(args@);
    let mut i: usize = 0;
    while i < args.len()
        invariant
            i <= args@.len(),
            all == texts(args@),
            forall|j: int| 0 <= j < i ==> #[trigger] all[j] != "--version"@ && all[j] != "-V"@,
        decreases args@.len() - i,
    {
        assert(all[i as int] == args@[i as int]@);
        if text::same(args[i].as_str(), "--version") || text::same(args[i].as_str(), "-V") {
            return true;
        }
        i += 1;
    }
    false
}

/// The first argument is a command.
pub open spec fn command_of(args: Seq<Seq<char>>) -> Option<Seq<char>> {
    if args.len() > 0 && (args[0] == "login"@ || args[0] == "logout"@) {
        Some(args[0])
    } else {
        None
    }
}

/// The command among the arguments, without the name of the program. Any other argument is passed
/// over.
pub fn subcommand(args: &Vec<String>) -> (r: Option<String>)
    ensures
        opt_text(r) == command_of(texts(args@)),
        r is Some <==> args@.len() > 0 && (args@[0]@ == "login"@ || args@[0]@ == "logout"@),
        r is Some ==> r->0@ == args@[0]@,
{
    if args.len() == 0 {
        return None;
    }
    assert(texts(args@)[0] == args@[0]@);
    if text::same(args[0].as_str(), "login") || text::same(args[0].as_str(), "logout") {
        Some(args[0].clone())
    } else {
        None
    }
}

/// The settings, each by name, as they are shown. The password is not.
pub open spec fn shown_settings(s: Settings) -> Seq<(Seq<char>, Seq<char>)> {
    seq![
        ("username"@, s.username@),
        ("password"@, "********"@),
        ("port"@, decimal(s.port as nat)),
        ("address"@, s.bind_addr@),
        ("tidal quality"@, s.tidal_quality@),
        ("show mixes"@, switch(s.show_mixes)),
        ("word-synced lyrics"@, switch(s.word_synced_lyrics)),
        ("rate limit"@, switch(s.rate_limit)),
        ("content labels"@, labels_text(s.labels)),
        ("transcode"@, switch(s.transcode.enabled)),
        ("lastfm"@, switch(s.lastfm is Some)),
        ("listenbrainz"@, switch(s.listenbrainz is Some)),
    ]
}

/// The settings as they are shown.
pub fn startup_rows(s: &Settings) -> (r: Vec<(String, String)>)
    ensures
        crate::handlers::pairs(r@) == shown_settings(*s),
        r@.len() == 12,
        r@[0].0@ == "username"@ && r@[0].1@ == s.username@,
        r@[1].0@ == "password"@ && r@[1].1@ == "********"@,
        r@[2].0@ == "port"@ && r@[2].1@ == decimal(s.port as nat),
        r@[3].0@ == "address"@ && r@[3].1@ == s.bind_addr@,
        r@[4].0@ == "tidal quality"@ && r@[4].1@ == s.tidal_quality@,
        r@[5].0@ == "show mixes"@ && r@[5].1@ == (if s.show_mixes {
            "on"@
        } else {
            "off"@
        }),
        r@[6].0@ == "word-synced lyrics"@ && r@[6].1@ == (if s.word_synced_lyrics {
            "on"@
        } else {
            "off"@
        }),
        r@[7].0@ == "rate limit"@ && r@[7].1@ == (if s.rate_limit {
            "on"@
        } else {
            "off"@
        }),
        r@[8].0@ == "content labels"@ && r@[8].1@ == "ai "@ + (if s.labels.ai {
            "on"@
        } else {
            "off"@
        }) + ", explicit "@ + (if s.labels.explicit {
            "on"@
        } else {
            "off"@
        }),
        r@[9].0@ == "transcode"@ && r@[9].1@ == (if s.transcode.enabled {
            "on"@
        } else {
            "off"@
        }),
        r@[10].0@ == "lastfm"@ && r@[10].1@ == (if s.lastfm is Some {
            "on"@
        } else {
            "off"@
        }),
        r@[11].0@ == "listenbrainz"@ && r@[11].1@ == (if s.listenbrainz is Some {
            "on"@
        } else {
            "off"@
        }),
{
    let mut v: Vec<(String, String)> = Vec::new();
    crate::handlers::put(&mut v, "username", s.username.as_str());
    crate::handlers::put(&mut v, "password", "********");
    crate::handlers::put(&mut v, "port", text::decimal_text(s.port as u64).as_str());
    crate::handlers::put(&mut v, "address", s.bind_addr.as_str());
    crate::handlers::put(&mut v, "tidal quality", s.tidal_quality.as_str());
    crate::handlers::put(&mut v, "show mixes", on_off(s.show_mixes).as_str());
    crate::handlers::put(&mut v, "word-synced lyrics", on_off(s.word_synced_lyrics).as_str());
    crate::handlers::put(&mut v, "rate limit", on_off(s.rate_limit).as_str());
    crate::handlers::put(&mut v, "content labels", labels_str(&s.labels).as_str());
    crate::handlers::put(&mut v, "transcode", on_off(s.transcode.enabled).as_str());
    crate::handlers::put(&mut v, "lastfm", on_off(s.lastfm.is_some()).as_str());
    crate::handlers::put(&mut v, "listenbrainz", on_off(s.listenbrainz.is_some()).as_str());
    assert(crate::handlers::pairs(v@) =~= shown_settings(*s));
    proof {
        let p = crate::handlers::pairs(v@);
        assert(p[0] == (v@[0].0@, v@[0].1@));
        assert(p[1] == (v@[1].0@, v@[1].1@));
        assert(p[2] == (v@[2].0@, v@[2].1@));
        assert(p[3] == (v@[3].0@, v@[3].1@));
        assert(p[4] == (v@[4].0@, v@[4].1@));
        assert(p[5] == (v@[5].0@, v@[5].1@));
        assert(p[6] == (v@[6].0@, v@[6].1@));
        assert(p[7] == (v@[7].0@, v@[7].1@));
        assert(p[8] == (v@[8].0@, v@[8].1@));
        assert(p[9] == (v@[9].0@, v@[9].1@));
        assert(p[10] == (v@[10].0@, v@[10].1@));
        assert(p[11] == (v@[11].0@, v@[11].1@));
    }
    v
}

/// The password is not shown at the start: settings that differ only in it look the same.
pub proof fn law_password_is_not_shown(a: Settings, b: Settings)
    requires
        a == (Settings { password: a.password, ..b }),
    ensures
        shown_settings(a) == shown_settings(b),
{
}

/// Spaces.
pub open spec fn spaces(n: nat) -> Seq<char> {
    Seq::new(n, |i: int| ' ')
}

/// A row of the settings: the name filled up to a width, and the value.
pub open spec fn row_text(name: Seq<char>, value: Seq<char>, width: nat) -> Seq<char> {
    "  "@ + name + spaces(
        if name.len() < width {
            (width - name.len()) as nat
        } else {
            0
        },
    ) + "  "@ + value
}

/// Writes a row of the settings.
pub fn startup_row(name: &str, value: &str, width: usize) -> (r: String)
    ensures
        r@ == row_text(name@, value@, width as nat),
        name@.len() < width ==> r@.len() == width + 4 + value@.len(),
        name@.len() >= width ==> r@.len() == name@.len() + 4 + value@.len(),
        r@.subrange(2, 2 + name@.len() as int) == name@,
        r@.subrange(r@.len() - value@.len(), r@.len() as int) == value@,
        forall|i: int|
            (0 <= i < 2 || 2 + name@.len() <= i < r@.len() - value@.len()) ==> #[trigger] r@[i] == ' ',
{
    let mut out = text::join2("  ", name);
    let n: usize = name.unicode_len();
    let missing: usize = if n < width {
        width - n
    } else {
        0
    };
    let ghost start = out@;
    let mut i: usize = 0;
    assert(start + spaces(0) =~= start);
    while i < missing
        invariant
            i <= missing,
            out@ == start + spaces(i as nat),
        decreases missing - i,
    {
        out.push(' ');
        i += 1;
        assert(out@ =~= start + spaces(i as nat));
    }
    out.append("  ");
    out.append(value);
    proof {
        reveal_strlit("  ");
        assert("  "@ =~= seq![' ', ' ']);
        assert(out@.subrange(2, 2 + name@.len() as int) =~= name@);
        assert(out@.subrange(out@.len() - value@.len(), out@.len() as int) =~= value@);
    }
    out
}

/// Switches transcoding off where the program for it cannot be run, and says whether it did.
pub fn disable_transcode_without_ffmpeg(settings: &mut Settings, available: bool) -> (r: bool)
    ensures
        r == (old(settings).transcode.enabled && !available),
        final(settings).transcode.enabled == (old(settings).transcode.enabled && available),
        *final(settings) == (Settings { transcode: final(settings).transcode, ..*old(settings) }),
{
    if !settings.transcode.enabled || available {
        return false;
    }
    settings.transcode.enabled = false;
    true
}

/// Where the wizard is found. A server that listens everywhere does not know its own name.
pub fn setup_url(bind: &str, everywhere: bool, port: u16) -> (r: String)
    ensures
        r@ == "http://"@ + (if everywhere {
            "<this-host>"@
        } else {
            bind@
        }) + ":"@ + decimal(port as nat) + "/setup"@,
{
    let mut out = "http://".to_owned();
    out.append(
        if everywhere {
            "<this-host>"
        } else {
            bind
        },
    );
    out.append(":");
    out.append(text::decimal_text(port as u64).as_str());
    out.append("/setup");
    out
}

/// What is said of services that are not logged in.
pub fn startup_notice(logged_in: bool, lastfm_pending: bool, setup_url: &str) -> (r: Option<String>)
    ensures
        opt_text(r) == (if !logged_in {
            Some(
                "Not logged into Tidal. Open "@ + setup_url@
                    + " in a browser and sign in\n(username and password are the ones from settings.toml)."@,
            )
        } else if lastfm_pending {
            Some(
                "Last.fm is configured but not authorized. Open "@ + setup_url@
                    + " in a browser\nand complete its step."@,
            )
        } else {
            None
        }),
{
    if !logged_in {
        Some(
            text::join3(
                "Not logged into Tidal. Open ",
                setup_url,
                " in a browser and sign in\n(username and password are the ones from settings.toml).",
            ),
        )
    } else if lastfm_pending {
        Some(
            text::join3(
                "Last.fm is configured but not authorized. Open ",
                setup_url,
                " in a browser\nand complete its step.",
            ),
        )
    } else {
        None
    }
}

} // verus!
