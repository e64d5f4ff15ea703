//! The settings of the server.

use crate::text;
use crate::text::{after_prefix, opt_text, texts};
use vstd::prelude::*;

verus! {

/// The settings, from the file and from the environment.
#[derive(Debug)]
pub struct Settings {
    pub username: String,
    pub password: String,
    pub port: u16,
    /// The address to listen on.
    pub bind_addr: String,
    /// The key of an operator; the extension for such keys is announced where it is set.
    pub api_key: Option<String>,
    /// Credentials of the application; none for the built-in ones.
    pub tidal_client_id: Option<String>,
    pub tidal_client_secret: Option<String>,
    /// The tier that is asked for where a client names none.
    pub tidal_quality: String,
    /// Whether the mixes are shown among the playlists.
    pub show_mixes: bool,
    /// Whether lyrics are timed word by word where they can be.
    pub word_synced_lyrics: bool,
    /// Whether failed logins are slowed down. Behind a proxy all clients share an address, so
    /// that one of them could lock out all; so it is off unless set.
    pub rate_limit: bool,
    pub labels: LabelsConfig,
    pub transcode: TranscodeConfig,
    /// Where plays are reported to; each is optional.
    pub lastfm: Option<LastFmConfig>,
    pub listenbrainz: Option<ListenBrainzConfig>,
}

/// Which labels are shown on titles.
#[derive(Debug, Clone, Copy, PartialEq, Eq, Structural)]
pub struct LabelsConfig {
    pub ai: bool,
    pub explicit: bool,
}

/// Whether audio is converted for clients that ask for another format.
#[derive(Debug, Clone, Copy, PartialEq, Eq, Structural)]
pub struct TranscodeConfig {
    pub enabled: bool,
}

/// The credentials of the application with Last.fm. The key of the session is kept elsewhere.
#[derive(Debug)]
pub struct LastFmConfig {
    pub api_key: String,
    pub api_secret: String,
}

/// The token of the user with ListenBrainz.
#[derive(Debug)]
pub struct ListenBrainzConfig {
    pub token: String,
}

/// The tier that is asked for where none is set.
pub fn default_tidal_quality() -> (r: String)
    ensures
        r@ == "LOSSLESS"@,
{
    "LOSSLESS".to_owned()
}

/// Whether the mixes are shown where nothing is set.
pub fn default_show_mixes() -> (r: bool)
    ensures
        r,
{
    true
}

/// The path of the settings that these arguments name: behind an equals sign, or as the argument
/// that follows. The first argument that names one counts.
pub open spec fn config_named(args: Seq<Seq<char>>) -> Option<Seq<char>>
    decreases args.len(),
{
    if args.len() == 0 {
        None
    } else {
        match after_prefix(args[0], "--config="@) {
            Some(path) => Some(path),
            None => if args[0] == "--config"@ || args[0] == "-c"@ {
                if args.len() > 1 {
                    Some(args[1])
                } else {
                    None
                }
            } else {
                config_named(args.drop_first())
            },
        }
    }
}

/// The path of the settings that the arguments of the program name, without its own name.
pub fn config_arg(args: &Vec<String>) -> (r: Option<String>)
    ensures
        opt_text(r) == config_named(texts(args@)),
{
    let ghost all = texts(args@);
    let mut i: usize = 0;
    assert(all.subrange(0, all.len() as int) =~= all);
    while i < args.len()
        invariant
            i <= args@.len(),
            all == texts(args@),
            config_named(all) == config_named(all.subrange(i as int, all.len() as int)),
        decreases args@.len() - i,
    {
        let ghost rest = all.subrange(i as int, all.len() as int);
        assert(rest[0] == args@[i as int]@);
        let a = args[i].as_str();
        if let Some(path) = text::strip_prefix(a, "--config=") {
            return Some(path.to_owned());
        }
        if text::same(a, "--config") || text::same(a, "-c") {
            if i + 1 < args.len() {
                assert(rest[1] == args@[i + 1]@);
                return Some(args[i + 1].clone());
            }
            return None;
        }
        assert(rest.drop_first() =~= all.subrange(i + 1, all.len() as int));
        i += 1;
    }
    None
}

/// Where the settings come from.
#[derive(Debug)]
pub enum ConfigSource {
    /// A path was named that does not exist; the server does not start.
    Missing(String),
    File(String),
    /// From the environment alone.
    Environment,
}

/// The first of these files that is there.
pub open spec fn first_there(files: Seq<(String, bool)>) -> Option<String>
    decreases files.len(),
{
    if files.len() == 0 {
        None
    } else if files[0].1 {
        Some(files[0].0)
    } else {
        first_there(files.drop_first())
    }
}

/// Picks the file with the settings: the one that was named, and otherwise the first of the
/// usual places where there is one. Each comes with whether it is there.
pub fn find_config_path(named: Option<(String, bool)>, usual: &Vec<(String, bool)>) -> (r:
    ConfigSource)
    ensures
        match named {
            Some((path, there)) => r == (if there {
                ConfigSource::File(path)
            } else {
                ConfigSource::Missing(path)
            }),
            None => r == (match first_there(usual@) {
                Some(path) => ConfigSource::File(path),
                None => ConfigSource::Environment,
            }),
        },
        named is None && (forall|i: int| 0 <= i < usual@.len() ==> !(#[trigger] usual@[i]).1) ==> r
            is Environment,
        named is None ==> forall|i: int|
            0 <= i < usual@.len() && (#[trigger] usual@[i]).1 && (forall|j: int|
                0 <= j < i ==> !(#[trigger] usual@[j]).1) ==> r == ConfigSource::File(usual@[i].0),
{
    match named {
        Some((path, there)) => if there {
            ConfigSource::File(path)
        } else {
            ConfigSource::Missing(path)
        },
        None => {
            let mut i: usize = 0;
            assert(usual@.subrange(0, usual@.len() as int) =~= usual@);
            while i < usual.len()
                invariant
                    i <= usual@.len(),
                    named is None,
                    forall|j: int| 0 <= j < i ==> !(#[trigger] usual@[j]).1,
                    first_there(usual@) == first_there(
                        usual@.subrange(i as int, usual@.len() as int),
                    ),
                decreases usual@.len() - i,
            {
                let ghost rest = usual@.subrange(i as int, usual@.len() as int);
                assert(rest[0] == usual@[i as int]);
                if usual[i].1 {
                    return ConfigSource::File(usual[i].0.clone());
                }
                assert(rest.drop_first() =~= usual@.subrange(i + 1, usual@.len() as int));
                i += 1;
            }
            ConfigSource::Environment
        },
    }
}

/// The path of the settings stands behind `--config=`, or follows `--config` or `-c`. Arguments
/// before it that name none do not matter, and neither does what comes after it.
pub proof fn law_the_first_path_counts(before: Seq<Seq<char>>, path: Seq<char>, after: Seq<Seq<char>>)
    requires
        forall|i: int|
            0 <= i < before.len() ==> #[trigger] before[i] != "--config"@ && before[i] != "-c"@
                && !"--config="@.is_prefix_of(before[i]),
    ensures
        config_named(before + seq!["--config="@ + path] + after) == Some(path),
        config_named(before + seq!["--config"@, path] + after) == Some(path),
        config_named(before + seq!["-c"@, path] + after) == Some(path),
        config_named(before) is None,
    decreases before.len(),
{
    let a = before + seq!["--config="@ + path] + after;
    let b = before + seq!["--config"@, path] + after;
    let c = before + seq!["-c"@, path] + after;
    reveal_strlit("--config=");
    reveal_strlit("--config");
    reveal_strlit("-c");
    assert("--config="@.len() == 9 && "--config"@.len() == 8 && "-c"@.len() == 2);
    if before.len() == 0 {
        text::law_a_prefix_leaves_the_rest("--config="@, path, path);
        assert(a[0] == "--config="@ + path);
        assert(b[0] == "--config"@ && b[1] == path);
        assert(c[0] == "-c"@ && c[1] == path);
    } else {
        let rest = before.drop_first();
        let x = before[0];
        assert forall|i: int| 0 <= i < rest.len() implies #[trigger] rest[i] != "--config"@ && rest[i]
            != "-c"@ && !"--config="@.is_prefix_of(rest[i]) by {
            assert(rest[i] == before[i + 1]);
        }
        law_the_first_path_counts(rest, path, after);
        assert(x.len() >= 9 ==> ("--config="@.is_prefix_of(x) <==> x.subrange(0, 9) =~= "--config="@));
        assert(after_prefix(x, "--config="@) is None);
        assert(a[0] == x && b[0] == x && c[0] == x);
        assert(a.drop_first() =~= rest + seq!["--config="@ + path] + after);
        assert(b.drop_first() =~= rest + seq!["--config"@, path] + after);
        assert(c.drop_first() =~= rest + seq!["-c"@, path] + after);
    }
}

} // verus!
