//! Response envelope, system endpoints, genres, and jukebox models.

use crate::models::song::Child;
use vstd::prelude::*;

verus! {

/// Root of every response: { "subsonic-response": { ... } }
#[derive(Debug)]
pub struct SubsonicResponse<T> {
    pub inner: T,
}

/// Common fields inside subsonic-response, plus per-endpoint data
#[derive(Debug)]
pub struct SubsonicBody<T> {
    pub status: &'static str,
    pub version: &'static str, // supported Subsonic API version
    pub server_type: &'static str,
    pub server_version: &'static str,
    pub open_subsonic: bool,
    pub data: T,
}

/// ping returns no extra data
#[derive(Debug)]
pub struct PingResponse {}

/// getOpenSubsonicExtensions data: { openSubsonicExtensions: [ { name, versions } ] }
#[derive(Debug)]
pub struct GetOpenSubsonicExtensionsResponse {
    pub extensions: Vec<OpenSubsonicExtension>,
}

#[derive(Debug)]
pub struct OpenSubsonicExtension {
    pub name: &'static str,
    pub versions: Vec<u32>,
}

/// Error body: { status: "failed", ..., error: { code, message } }
#[derive(Debug)]
pub struct SubsonicErrorBody {
    pub status: &'static str,
    pub version: &'static str,
    pub server_type: &'static str,
    pub server_version: &'static str,
    pub open_subsonic: bool,
    pub error: SubsonicError,
}

#[derive(Debug)]
pub struct SubsonicError {
    pub code: u32,
    pub message: &'static str,
}

/// getUser data: { user: { ... } }
#[derive(Debug)]
pub struct GetUserResponse {
    pub user: User,
}

/// The one user of the server, with what it may do.
#[derive(Debug)]
pub struct User {
    pub folder: Vec<u32>,
    pub username: String,
    pub email: String,
    pub scrobbling_enabled: bool,
    pub admin_role: bool,
    pub settings_role: bool,
    pub download_role: bool,
    pub upload_role: bool,
    pub playlist_role: bool,
    pub cover_art_role: bool,
    pub comment_role: bool,
    pub podcast_role: bool,
    pub stream_role: bool,
    pub jukebox_role: bool,
    pub share_role: bool,
}

/// getUsers data: { users: { user: [ User ] } }
#[derive(Debug)]
pub struct GetUsersResponse {
    pub users: Users,
}

#[derive(Debug)]
pub struct Users {
    pub user: Vec<User>,
}

/// getLicense data: { license: License }
#[derive(Debug)]
pub struct LicenseResponse {
    pub license: License,
}

#[derive(Debug)]
pub struct License {
    pub valid: bool,
}

/// getMusicFolders data: { musicFolders: { musicFolder: [ MusicFolder ] } }
#[derive(Debug)]
pub struct MusicFoldersResponse {
    pub music_folders: MusicFolders,
}

#[derive(Debug)]
pub struct MusicFolders {
    pub music_folder: Vec<MusicFolder>,
}

#[derive(Debug)]
pub struct MusicFolder {
    pub id: u32,
    pub name: &'static str,
}

/// getScanStatus data: { scanStatus: ScanStatus }
#[derive(Debug)]
pub struct ScanStatusResponse {
    pub scan_status: ScanStatus,
}

#[derive(Debug)]
pub struct ScanStatus {
    pub scanning: bool,
    pub count: u64,
}

/// getGenres data: { genres: { genre: [ Genre ] } }
#[derive(Debug)]
pub struct GenresResponse {
    pub genres: Genres,
}

#[derive(Debug)]
pub struct Genres {
    pub genre: Vec<Genre>,
}

#[derive(Debug)]
pub struct Genre {
    pub name: String,
    pub song_count: Option<u32>,
    pub album_count: Option<u32>,
}

/// jukeboxControl data: jukeboxStatus (all actions); get also returns
/// jukeboxPlaylist.
#[derive(Debug)]
pub struct JukeboxControlResponse {
    pub status: JukeboxStatus,
    pub playlist: Option<JukeboxPlaylist>,
}

#[derive(Debug)]
pub struct JukeboxStatus {
    pub current_index: u32,
    pub playing: bool,
    /// The bits of the gain as a single.
    pub gain: u32,
    pub position: u32,
}

#[derive(Debug)]
pub struct JukeboxPlaylist {
    pub entry: Vec<Child>,
}

} // verus!
