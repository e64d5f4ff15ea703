//! The server itself: that it is there, what it can do, and who uses it.

use crate::json;
use crate::json::{field, string, Json};
use crate::models::system::{License, MusicFolder, MusicFolders, OpenSubsonicExtension, PingResponse,
    ScanStatus, User, Users};
use crate::settings::Settings;
use crate::text;
use vstd::prelude::*;

verus! {

/// That the server is there.
pub fn ping() -> (r: PingResponse)
    ensures
        r == (PingResponse {  }),
{
    PingResponse {  }
}

/// Extensions as values.
pub open spec fn extension_view(v: Seq<OpenSubsonicExtension>) -> Seq<(Seq<char>, Seq<u32>)> {
    v.map_values(|e: OpenSubsonicExtension| (e.name@, e.versions@))
}

/// Appends an extension in these versions.
fn extend(v: &mut Vec<OpenSubsonicExtension>, name: &'static str, second: bool)
    ensures
        extension_view(final(v)@) == extension_view(old(v)@).push(
            (
                name@,
                if second {
                    seq![1u32, 2u32]
                } else {
                    seq![1u32]
                },
            ),
        ),
{
    let mut versions: Vec<u32> = Vec::new();
    versions.push(1);
    if second {
        versions.push(2);
    }
    assert(versions@ =~= (if second {
        seq![1u32, 2u32]
    } else {
        seq![1u32]
    }));
    v.push(OpenSubsonicExtension { name, versions });
    assert(extension_view(v@) =~= extension_view(old(v)@).push((name@, versions@)));
}

/// A key of the operator is set.
pub open spec fn has_api_key(settings: Option<&Settings>) -> bool {
    settings is Some && settings->0.api_key is Some && settings->0.api_key->0@.len() > 0
}

/// The extensions of the protocol that the server knows. Keys are one only where a key is set,
/// since they could never work without.
pub open spec fn extensions_of(settings: Option<&Settings>) -> Seq<(Seq<char>, Seq<u32>)> {
    let always = seq![
        ("transcodeOffset"@, seq![1u32]),
        ("formPost"@, seq![1u32]),
        ("songLyrics"@, seq![1u32, 2u32]),
        ("indexBasedQueue"@, seq![1u32]),
        ("transcoding"@, seq![1u32]),
        ("playbackReport"@, seq![1u32]),
        ("topSongsByArtistId"@, seq![1u32]),
    ];
    if has_api_key(settings) {
        always.push(("apiKeyAuthentication"@, seq![1u32]))
    } else {
        always
    }
}

/// No other extension has the name of the lyrics.
proof fn lemma_extension_names()
    ensures
        "transcodeOffset"@ != "songLyrics"@,
        "formPost"@ != "songLyrics"@,
        "indexBasedQueue"@ != "songLyrics"@,
        "transcoding"@ != "songLyrics"@,
        "playbackReport"@ != "songLyrics"@,
        "topSongsByArtistId"@ != "songLyrics"@,
        "apiKeyAuthentication"@ != "songLyrics"@,
{
    reveal_strlit("songLyrics");
    assert("songLyrics"@[0] == 's');
    reveal_strlit("transcodeOffset");
    assert("transcodeOffset"@[0] == 't');
    reveal_strlit("formPost");
    assert("formPost"@[0] == 'f');
    reveal_strlit("indexBasedQueue");
    assert("indexBasedQueue"@[0] == 'i');
    reveal_strlit("transcoding");
    assert("transcoding"@[0] == 't');
    reveal_strlit("playbackReport");
    assert("playbackReport"@[0] == 'p');
    reveal_strlit("topSongsByArtistId");
    assert("topSongsByArtistId"@[0] == 't');
    reveal_strlit("apiKeyAuthentication");
    assert("apiKeyAuthentication"@[0] == 'a');
}

/// The extensions of the protocol that the server knows.
pub fn get_open_subsonic_extensions(settings: Option<&Settings>) -> (r: Vec<OpenSubsonicExtension>)
    ensures
        extension_view(r@) == extensions_of(settings),
        forall|i: int|
            0 <= i < r@.len() ==> (#[trigger] r@[i]).versions@ == (if r@[i].name@ == "songLyrics"@ {
                seq![1u32, 2u32]
            } else {
                seq![1u32]
            }),
        r@.len() >= 7,
        r@[0].name@ == "transcodeOffset"@,
        r@[1].name@ == "formPost"@,
        r@[2].name@ == "songLyrics"@,
        r@[3].name@ == "indexBasedQueue"@,
        r@[4].name@ == "transcoding"@,
        r@[5].name@ == "playbackReport"@,
        r@[6].name@ == "topSongsByArtistId"@,
        settings is Some && settings->0.api_key is Some && settings->0.api_key->0@.len() > 0 ==> r@.len()
            == 8 && r@[7].name@ == "apiKeyAuthentication"@,
        settings is None || settings->0.api_key is None || settings->0.api_key->0@.len() == 0 ==> r@.len()
            == 7,
{
    let mut v: Vec<OpenSubsonicExtension> = Vec::new();
    extend(&mut v, "transcodeOffset", false);
    extend(&mut v, "formPost", false);
    extend(&mut v, "songLyrics", true);
    extend(&mut v, "indexBasedQueue", false);
    extend(&mut v, "transcoding", false);
    extend(&mut v, "playbackReport", false);
    extend(&mut v, "topSongsByArtistId", false);
    let configured = match settings {
        Some(s) => match &s.api_key {
            Some(k) => k.as_str().unicode_len() > 0,
            None => false,
        },
        None => false,
    };
    if configured {
        extend(&mut v, "apiKeyAuthentication", false);
    }
    assert(extension_view(v@) =~= extensions_of(settings));
    proof {
        lemma_extension_names();
        let e = extension_view(v@);
        assert(e[0] == (v@[0].name@, v@[0].versions@));
        assert(e[1] == (v@[1].name@, v@[1].versions@));
        assert(e[2] == (v@[2].name@, v@[2].versions@));
        assert(e[3] == (v@[3].name@, v@[3].versions@));
        assert(e[4] == (v@[4].name@, v@[4].versions@));
        assert(e[5] == (v@[5].name@, v@[5].versions@));
        assert(e[6] == (v@[6].name@, v@[6].versions@));
        if has_api_key(settings) {
            assert(e[7] == (v@[7].name@, v@[7].versions@));
        }
    }
    v
}

/// The text in a profile under a name, where it is not empty.
pub open spec fn filled(profile: Json, name: Seq<char>) -> Option<Seq<char>> {
    match string(field(profile, name)) {
        Some(s) => if s.len() > 0 {
            Some(s)
        } else {
            None
        },
        None => None,
    }
}

/// The name in a profile.
pub open spec fn profile_name(profile: Json) -> Option<Seq<char>> {
    match filled(profile, "username"@) {
        Some(s) => Some(s),
        None => filled(profile, "profileName"@),
    }
}

/// The address that is shown for the user: the name in the profile where it is an address, and
/// otherwise the name of the user on this machine.
pub open spec fn email_of(username: Seq<char>, profile: Option<Json>) -> Seq<char> {
    let local = username + "@localhost"@;
    match profile {
        Some(p) => match profile_name(p) {
            Some(name) => if name.contains('@') {
                name
            } else {
                local
            },
            None => local,
        },
        None => local,
    }
}

/// Reads the text in a profile under a name, where it is not empty.
fn read_filled<'a>(profile: &'a Json, name: &str) -> (r: Option<&'a str>)
    ensures
        text::opt_view(r) == filled(*profile, name@),
{
    match json::as_str(profile.get(name)) {
        Some(s) => if s.unicode_len() > 0 {
            Some(s)
        } else {
            None
        },
        None => None,
    }
}

/// The name and the address of the user. The name is that of the settings, since clients log in
/// with it; the profile only lends the address.
pub fn account_identity(username: &String, profile: Option<&Json>) -> (r: (String, String))
    ensures
        r.0 == *username,
        r.1@ == email_of(
            username@,
            match profile {
                Some(p) => Some(*p),
                None => None,
            },
        ),
{
    let name = match profile {
        Some(p) => match read_filled(p, "username") {
            Some(s) => Some(s),
            None => read_filled(p, "profileName"),
        },
        None => None,
    };
    let email = match name {
        Some(n) => if text::has_char(n, '@') {
            n.to_owned()
        } else {
            text::join2(username.as_str(), "@localhost")
        },
        None => text::join2(username.as_str(), "@localhost"),
    };
    (username.clone(), email)
}

/// The one user, with what they may do.
pub open spec fn is_user(u: User, username: String, email: String, scrobbling_enabled: bool) -> bool {
    &&& u.folder@ == seq![1u32]
    &&& u.username == username
    &&& u.email == email
    &&& u.scrobbling_enabled == scrobbling_enabled
    &&& u.admin_role && u.settings_role && u.download_role && u.playlist_role && u.cover_art_role
        && u.stream_role && u.share_role
    &&& !u.upload_role && !u.comment_role && !u.podcast_role && !u.jukebox_role
}

/// The one user, with what they may do.
pub fn user_of(username: String, email: String, scrobbling_enabled: bool) -> (r: User)
    ensures
        is_user(r, username, email, scrobbling_enabled),
        r.username@ == username@,
        r.scrobbling_enabled == scrobbling_enabled,
        r.folder@ == seq![1u32],
        r.admin_role && r.settings_role && r.download_role && r.playlist_role && r.cover_art_role,
        r.stream_role && r.share_role,
        !r.upload_role && !r.comment_role && !r.podcast_role && !r.jukebox_role,
        r.email == email,
{
    let mut folder: Vec<u32> = Vec::new();
    folder.push(1);
    assert(folder@ =~= seq![1u32]);
    User {
        folder,
        username,
        email,
        scrobbling_enabled,
        admin_role: true,
        settings_role: true,
        download_role: true,
        upload_role: false,
        playlist_role: true,
        cover_art_role: true,
        comment_role: false,
        podcast_role: false,
        stream_role: true,
        jukebox_role: false,
        share_role: true,
    }
}

/// The user.
pub fn get_user(username: &String, profile: Option<&Json>, scrobbling_enabled: bool) -> (r: User)
    ensures
        is_user(r, *username, r.email, scrobbling_enabled),
        r.email@ == email_of(
            username@,
            match profile {
                Some(p) => Some(*p),
                None => None,
            },
        ),
        r.username@ == username@,
        r.scrobbling_enabled == scrobbling_enabled,
        r.folder@ == seq![1u32],
        r.admin_role && r.settings_role && r.download_role && r.playlist_role && r.cover_art_role,
        r.stream_role && r.share_role,
        !r.upload_role && !r.comment_role && !r.podcast_role && !r.jukebox_role,
        profile is None ==> r.email@ == username@ + "@localhost"@,
        profile is Some && string(field(*profile->0, "username"@)) is Some && string(
            field(*profile->0, "username"@),
        )->0.contains('@') ==> r.email@ == string(field(*profile->0, "username"@))->0,
        profile is Some && string(field(*profile->0, "username"@)) is Some && string(
            field(*profile->0, "username"@),
        )->0.len() > 0 && !string(field(*profile->0, "username"@))->0.contains('@') ==> r.email@
            == username@ + "@localhost"@,
        profile is Some && string(field(*profile->0, "username"@)) is None && string(
            field(*profile->0, "profileName"@),
        ) is Some && string(field(*profile->0, "profileName"@))->0.contains('@') ==> r.email@ == string(
            field(*profile->0, "profileName"@),
        )->0,
        profile is Some && string(field(*profile->0, "username"@)) is None && (string(
            field(*profile->0, "profileName"@),
        ) is None || !string(field(*profile->0, "profileName"@))->0.contains('@')) ==> r.email@
            == username@ + "@localhost"@,
{
    let (name, email) = account_identity(username, profile);
    user_of(name, email, scrobbling_enabled)
}

/// All users, of whom there is one.
pub fn get_users(username: &String, profile: Option<&Json>, scrobbling_enabled: bool) -> (r: Users)
    ensures
        r.user@.len() == 1,
        is_user(r.user@[0], *username, r.user@[0].email, scrobbling_enabled),
        r.user@[0].email@ == email_of(
            username@,
            match profile {
                Some(p) => Some(*p),
                None => None,
            },
        ),
        r.user@[0].username@ == username@,
        r.user@[0].scrobbling_enabled == scrobbling_enabled,
        r.user@[0].folder@ == seq![1u32],
        r.user@[0].admin_role && r.user@[0].settings_role && r.user@[0].download_role && r.user@[0].playlist_role && r.user@[0].cover_art_role,
        r.user@[0].stream_role && r.user@[0].share_role,
        !r.user@[0].upload_role && !r.user@[0].comment_role && !r.user@[0].podcast_role && !r.user@[0].jukebox_role,
        profile is None ==> r.user@[0].email@ == username@ + "@localhost"@,
        profile is Some && string(field(*profile->0, "username"@)) is Some && string(
            field(*profile->0, "username"@),
        )->0.contains('@') ==> r.user@[0].email@ == string(field(*profile->0, "username"@))->0,
        profile is Some && string(field(*profile->0, "username"@)) is Some && string(
            field(*profile->0, "username"@),
        )->0.len() > 0 && !string(field(*profile->0, "username"@))->0.contains('@') ==> r.user@[0].email@
            == username@ + "@localhost"@,
        profile is Some && string(field(*profile->0, "username"@)) is None && string(
            field(*profile->0, "profileName"@),
        ) is Some && string(field(*profile->0, "profileName"@))->0.contains('@') ==> r.user@[0].email@ == string(
            field(*profile->0, "profileName"@),
        )->0,
        profile is Some && string(field(*profile->0, "username"@)) is None && (string(
            field(*profile->0, "profileName"@),
        ) is None || !string(field(*profile->0, "profileName"@))->0.contains('@')) ==> r.user@[0].email@
            == username@ + "@localhost"@,
{
    let mut user: Vec<User> = Vec::new();
    user.push(get_user(username, profile, scrobbling_enabled));
    Users { user }
}

/// The licence, which is always valid.
pub fn get_license() -> (r: License)
    ensures
        r.valid,
{
    License { valid: true }
}

/// The one folder, which holds all.
pub fn get_music_folders() -> (r: MusicFolders)
    ensures
        r.music_folder@.len() == 1,
        r.music_folder@[0].id == 1,
        r.music_folder@[0].name@ == "Tidal"@,
{
    let mut music_folder: Vec<MusicFolder> = Vec::new();
    music_folder.push(MusicFolder { id: 1, name: "Tidal" });
    MusicFolders { music_folder }
}

/// That nothing is being scanned, since there is nothing to scan.
pub fn get_scan_status() -> (r: ScanStatus)
    ensures
        !r.scanning,
        r.count == 0,
{
    ScanStatus { scanning: false, count: 0 }
}

/// That a scan is over as soon as it is started.
pub fn start_scan() -> (r: ScanStatus)
    ensures
        !r.scanning,
        r.count == 0,
{
    ScanStatus { scanning: false, count: 0 }
}

} // verus!
