//! Song models: the Child entry and its list wrappers.

use crate::models::artist::ArtistId3;
use vstd::prelude::*;

verus! {

/// Subsonic child (song entry). Optional fields omitted when unknown.
/// The OpenSubsonic schema marks contentType, suffix, size, path, created
/// and isVideo as required; Feishin's song normalizer dereferences
/// contentType directly, so omitting it crashes the album view.
#[derive(Debug)]
pub struct Child {
    pub id: String,
    pub parent: String,
    pub is_dir: bool,
    pub is_video: bool,
    pub title: String,
    pub album: String,
    pub artist: String,
    pub track: u32,
    pub year: Option<u32>,
    pub genre: Option<String>,
    pub genres: Option<Vec<GenreItem>>,
    pub cover_art: Option<String>,
    pub duration: u32,
    pub bit_rate: Option<u32>,
    pub bit_depth: Option<u32>,
    pub sampling_rate: Option<u32>,
    pub channel_count: Option<u32>,
    pub disc_number: Option<u32>,
    pub album_id: String,
    pub artist_id: String,
    pub artists: Option<Vec<ArtistId3>>,
    pub isrc: Option<String>,
    pub kind: &'static str,
    /// What kind of file the audio is; nothing is probed for it.
    pub content_type: &'static str,
    pub suffix: &'static str,
    pub size: u64,
    pub path: String,
    pub created: String,
    /// Favorite time; present only on favorites-derived song lists. The
    /// legacy `starred` is deprecated in OpenSubsonic 1.16.5, which adds
    /// `starredAt`; clients read one field or the other.
    pub starred: Option<String>,
    pub starred_at: Option<String>,
    pub explicit_status: Option<String>,
    /// OpenSubsonic ReplayGain; always present, inner fields omitted when
    /// unknown.
    pub replay_gain: ReplayGain,
}

/// OpenSubsonic ReplayGain: track gain in dB, track peak a positive
/// amplitude. Tidal supplies both on the track object; album gain lives on
/// playbackinfo only, so it is not sent. Each value is held as the bits of
/// its double.
#[derive(Debug)]
pub struct ReplayGain {
    pub track_gain: Option<u64>,
    pub track_peak: Option<u64>,
}

/// One genre of a song or an album.
#[derive(Debug)]
pub struct GenreItem {
    pub name: String,
}

/// getSong data: { song: Child }
#[derive(Debug)]
pub struct GetSongResponse {
    pub song: Child,
}

/// getTopSongs data: { topSongs: { song: [ Child ] } }
#[derive(Debug)]
pub struct TopSongsResponse {
    pub top_songs: TopSongs,
}

#[derive(Debug)]
pub struct TopSongs {
    pub song: Vec<Child>,
}

/// getRandomSongs data: { randomSongs: { song: [ Child ] } }
#[derive(Debug)]
pub struct RandomSongsResponse {
    pub random_songs: RandomSongs,
}

#[derive(Debug)]
pub struct RandomSongs {
    pub song: Vec<Child>,
}

/// getNowPlaying data: { nowPlaying: { entry: [ NowPlayingEntry ] } }. The
/// entry is a full song plus the playback report fields.
#[derive(Debug)]
pub struct NowPlayingResponse {
    pub now_playing: NowPlaying,
}

#[derive(Debug)]
pub struct NowPlaying {
    pub entry: Vec<NowPlayingEntry>,
}

#[derive(Debug)]
pub struct NowPlayingEntry {
    pub song: Child,
    pub username: String,
    pub minutes_ago: u32,
    pub player_id: u32,
    /// playbackReport extension fields; the server always estimates a
    /// position from the latest report.
    pub state: &'static str,
    pub position_ms: u64,
    /// The bits of the rate as a double.
    pub playback_rate: u64,
}

/// getSimilarSongs2 data: { similarSongs2: { song: [ Child ] } }
#[derive(Debug)]
pub struct SimilarSongs2Response {
    pub similar_songs2: SimilarSongs2,
}

#[derive(Debug)]
pub struct SimilarSongs2 {
    pub song: Vec<Child>,
}

/// getLyricsBySongId data: { lyricsList: { structuredLyrics: [...] } }.
/// Version 1 shape: kind is omitted unless enhanced=true was requested.
#[derive(Debug)]
pub struct LyricsListResponse {
    pub lyrics_list: LyricsList,
}

#[derive(Debug)]
pub struct LyricsList {
    pub structured_lyrics: Vec<StructuredLyrics>,
}

/// getSimilarSongs v1 data: { similarSongs: { song: [ Child ] } }
#[derive(Debug)]
pub struct SimilarSongsResponse {
    pub similar_songs: SimilarSongs,
}

#[derive(Debug)]
pub struct SimilarSongs {
    pub song: Vec<Child>,
}

/// getSongsByGenre data: { songsByGenre: { song: [ Child ] } }
#[derive(Debug)]
pub struct SongsByGenreResponse {
    pub songs_by_genre: SongsByGenre,
}

#[derive(Debug)]
pub struct SongsByGenre {
    pub song: Vec<Child>,
}

/// getLyrics (legacy) data: { lyrics: { artist, title, value } }. The
/// plain text of the song's lyrics goes in value.
#[derive(Debug)]
pub struct LyricsResponse {
    pub lyrics: Lyrics,
}

#[derive(Debug)]
pub struct Lyrics {
    pub artist: String,
    pub title: String,
    pub value: String,
}

pub struct LyricsSource {
    pub name: LyricsSourceNames,
    pub endpoint: Option<&'static str>,
    pub weight: u32,
}

#[derive(Clone, Copy, Debug, PartialEq, Eq, Structural)]
pub enum LyricsMode {
    Plain,
    LineSynced,
    WordSynced,
    SyllableSynced,
}

/// LRCLIB and LRCMUX are provider brand names; keep their acronym casing.
#[derive(Clone, Copy, Debug, PartialEq, Eq, Structural)]
pub enum LyricsSourceNames {
    Tidal,
    LRCLIB,
    LyricsPlus,
    LRCMUX,
}

#[derive(Debug)]
pub struct StructuredLyrics {
    pub display_artist: String,
    pub display_title: String,
    pub lang: String,
    pub offset: i32,
    pub synced: bool,
    pub kind: Option<&'static str>,
    pub line: Vec<LyricLine>,
    /// OpenSubsonic songLyrics v2 fields. Gated behind enhanced=true:
    /// without them the reply is identical to version 1.
    pub cue_line: Option<Vec<CueLine>>,
    pub agents: Option<Vec<Agent>>,
}

#[derive(Debug)]
pub struct LyricLine {
    pub start: Option<u32>,
    pub value: String,
}

/// OpenSubsonic songLyrics v2: word/syllable timings for one parent
/// line. index points at the parent entry in structuredLyrics.line.
/// agentId references an entry in structuredLyrics.agents; simple
/// unattributed lyrics omit it. byteStart and byteEnd are 0-based
/// inclusive offsets into the UTF-8 encoding of value.
#[derive(Debug)]
pub struct CueLine {
    pub index: u32,
    pub start: Option<u32>,
    pub end: Option<u32>,
    pub value: String,
    pub agent_id: Option<String>,
    pub cue: Vec<Cue>,
}

/// One timed word or syllable. start/end are milliseconds; byteStart and
/// byteEnd are 0-based inclusive UTF-8 offsets into cueLine.value. end
/// is present on every cue or none, per the contract.
#[derive(Debug)]
pub struct Cue {
    pub start: u32,
    pub end: Option<u32>,
    pub value: String,
    pub byte_start: u32,
    pub byte_end: u32,
}

/// The semantic vocal layer of an agent: lead/default vocals, an
/// explicit individual voice part, background vocals, or chorus.
#[derive(Clone, Copy, Debug, PartialEq, Eq, Structural)]
pub enum AgentRole {
    Main,
    Voice,
    Bg,
    Group,
}

/// A reusable vocal agent within one structuredLyrics entry. id is only
/// meaningful inside that entry. An attributed entry must mark exactly
/// one agent as Main.
#[derive(Debug)]
pub struct Agent {
    pub id: String,
    pub role: AgentRole,
    pub name: Option<String>,
}

} // verus!
