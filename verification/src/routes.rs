//! Which endpoint a path leads to, and who may reach it.

use crate::text;
use crate::text::before_suffix;
use vstd::prelude::*;

verus! {

/// An endpoint that only a user who is logged in may reach.
#[derive(Debug, Clone, Copy, PartialEq, Eq, Structural)]
pub enum Endpoint {
    GetUser,
    GetUsers,
    GetLicense,
    GetMusicFolders,
    GetScanStatus,
    StartScan,
    Scrobble,
    SetRating,
    Search2,
    Search3,
    GetCoverArt,
    GetAvatar,
    GetAlbum,
    GetAlbumList,
    GetAlbumList2,
    GetAlbumInfo,
    GetAlbumInfo2,
    GetArtist,
    GetArtistInfo,
    GetArtistInfo2,
    GetTopSongs,
    GetSong,
    GetSimilarSongs,
    GetSimilarSongs2,
    GetSongsByGenre,
    GetLyrics,
    GetLyricsBySongId,
    GetRandomSongs,
    Stream,
    UpdateNowPlaying,
    GetNowPlaying,
    ReportPlayback,
    GetStarred,
    GetStarred2,
    Star,
    Unstar,
    GetGenres,
    GetPlaylists,
    GetPlaylist,
    CreatePlaylist,
    UpdatePlaylist,
    DeletePlaylist,
    GetIndexes,
    GetArtists,
    GetMusicDirectory,
    GetPlayQueue,
    SavePlayQueue,
    GetPlayQueueByIndex,
    SavePlayQueueByIndex,
    GetBookmarks,
    CreateBookmark,
    DeleteBookmark,
    JukeboxControl,
    GetShares,
    CreateShare,
    UpdateShare,
    DeleteShare,
    GetInternetRadioStations,
    CreateInternetRadioStation,
    UpdateInternetRadioStation,
    DeleteInternetRadioStation,
    Download,
    GetTranscodeDecision,
}

/// The name of an endpoint in a path.
pub open spec fn name_of(e: Endpoint) -> Seq<char> {
    match e {
        Endpoint::GetUser => "getUser"@,
        Endpoint::GetUsers => "getUsers"@,
        Endpoint::GetLicense => "getLicense"@,
        Endpoint::GetMusicFolders => "getMusicFolders"@,
        Endpoint::GetScanStatus => "getScanStatus"@,
        Endpoint::StartScan => "startScan"@,
        Endpoint::Scrobble => "scrobble"@,
        Endpoint::SetRating => "setRating"@,
        Endpoint::Search2 => "search2"@,
        Endpoint::Search3 => "search3"@,
        Endpoint::GetCoverArt => "getCoverArt"@,
        Endpoint::GetAvatar => "getAvatar"@,
        Endpoint::GetAlbum => "getAlbum"@,
        Endpoint::GetAlbumList => "getAlbumList"@,
        Endpoint::GetAlbumList2 => "getAlbumList2"@,
        Endpoint::GetAlbumInfo => "getAlbumInfo"@,
        Endpoint::GetAlbumInfo2 => "getAlbumInfo2"@,
        Endpoint::GetArtist => "getArtist"@,
        Endpoint::GetArtistInfo => "getArtistInfo"@,
        Endpoint::GetArtistInfo2 => "getArtistInfo2"@,
        Endpoint::GetTopSongs => "getTopSongs"@,
        Endpoint::GetSong => "getSong"@,
        Endpoint::GetSimilarSongs => "getSimilarSongs"@,
        Endpoint::GetSimilarSongs2 => "getSimilarSongs2"@,
        Endpoint::GetSongsByGenre => "getSongsByGenre"@,
        Endpoint::GetLyrics => "getLyrics"@,
        Endpoint::GetLyricsBySongId => "getLyricsBySongId"@,
        Endpoint::GetRandomSongs => "getRandomSongs"@,
        Endpoint::Stream => "stream"@,
        Endpoint::UpdateNowPlaying => "updateNowPlaying"@,
        Endpoint::GetNowPlaying => "getNowPlaying"@,
        Endpoint::ReportPlayback => "reportPlayback"@,
        Endpoint::GetStarred => "getStarred"@,
        Endpoint::GetStarred2 => "getStarred2"@,
        Endpoint::Star => "star"@,
        Endpoint::Unstar => "unstar"@,
        Endpoint::GetGenres => "getGenres"@,
        Endpoint::GetPlaylists => "getPlaylists"@,
        Endpoint::GetPlaylist => "getPlaylist"@,
        Endpoint::CreatePlaylist => "createPlaylist"@,
        Endpoint::UpdatePlaylist => "updatePlaylist"@,
        Endpoint::DeletePlaylist => "deletePlaylist"@,
        Endpoint::GetIndexes => "getIndexes"@,
        Endpoint::GetArtists => "getArtists"@,
        Endpoint::GetMusicDirectory => "getMusicDirectory"@,
        Endpoint::GetPlayQueue => "getPlayQueue"@,
        Endpoint::SavePlayQueue => "savePlayQueue"@,
        Endpoint::GetPlayQueueByIndex => "getPlayQueueByIndex"@,
        Endpoint::SavePlayQueueByIndex => "savePlayQueueByIndex"@,
        Endpoint::GetBookmarks => "getBookmarks"@,
        Endpoint::CreateBookmark => "createBookmark"@,
        Endpoint::DeleteBookmark => "deleteBookmark"@,
        Endpoint::JukeboxControl => "jukeboxControl"@,
        Endpoint::GetShares => "getShares"@,
        Endpoint::CreateShare => "createShare"@,
        Endpoint::UpdateShare => "updateShare"@,
        Endpoint::DeleteShare => "deleteShare"@,
        Endpoint::GetInternetRadioStations => "getInternetRadioStations"@,
        Endpoint::CreateInternetRadioStation => "createInternetRadioStation"@,
        Endpoint::UpdateInternetRadioStation => "updateInternetRadioStation"@,
        Endpoint::DeleteInternetRadioStation => "deleteInternetRadioStation"@,
        Endpoint::Download => "download"@,
        Endpoint::GetTranscodeDecision => "getTranscodeDecision"@,
    }
}

/// The endpoint with a name.
pub open spec fn endpoint_named(name: Seq<char>) -> Option<Endpoint> {
    if name == "getUser"@ {
        Some(Endpoint::GetUser)
    } else if name == "getUsers"@ {
        Some(Endpoint::GetUsers)
    } else if name == "getLicense"@ {
        Some(Endpoint::GetLicense)
    } else if name == "getMusicFolders"@ {
        Some(Endpoint::GetMusicFolders)
    } else if name == "getScanStatus"@ {
        Some(Endpoint::GetScanStatus)
    } else if name == "startScan"@ {
        Some(Endpoint::StartScan)
    } else if name == "scrobble"@ {
        Some(Endpoint::Scrobble)
    } else if name == "setRating"@ {
        Some(Endpoint::SetRating)
    } else if name == "search2"@ {
        Some(Endpoint::Search2)
    } else if name == "search3"@ {
        Some(Endpoint::Search3)
    } else if name == "getCoverArt"@ {
        Some(Endpoint::GetCoverArt)
    } else if name == "getAvatar"@ {
        Some(Endpoint::GetAvatar)
    } else if name == "getAlbum"@ {
        Some(Endpoint::GetAlbum)
    } else if name == "getAlbumList"@ {
        Some(Endpoint::GetAlbumList)
    } else if name == "getAlbumList2"@ {
        Some(Endpoint::GetAlbumList2)
    } else if name == "getAlbumInfo"@ {
        Some(Endpoint::GetAlbumInfo)
    } else if name == "getAlbumInfo2"@ {
        Some(Endpoint::GetAlbumInfo2)
    } else if name == "getArtist"@ {
        Some(Endpoint::GetArtist)
    } else if name == "getArtistInfo"@ {
        Some(Endpoint::GetArtistInfo)
    } else if name == "getArtistInfo2"@ {
        Some(Endpoint::GetArtistInfo2)
    } else if name == "getTopSongs"@ {
        Some(Endpoint::GetTopSongs)
    } else if name == "getSong"@ {
        Some(Endpoint::GetSong)
    } else if name == "getSimilarSongs"@ {
        Some(Endpoint::GetSimilarSongs)
    } else if name == "getSimilarSongs2"@ {
        Some(Endpoint::GetSimilarSongs2)
    } else if name == "getSongsByGenre"@ {
        Some(Endpoint::GetSongsByGenre)
    } else if name == "getLyrics"@ {
        Some(Endpoint::GetLyrics)
    } else if name == "getLyricsBySongId"@ {
        Some(Endpoint::GetLyricsBySongId)
    } else if name == "getRandomSongs"@ {
        Some(Endpoint::GetRandomSongs)
    } else if name == "stream"@ {
        Some(Endpoint::Stream)
    } else if name == "updateNowPlaying"@ {
        Some(Endpoint::UpdateNowPlaying)
    } else if name == "getNowPlaying"@ {
        Some(Endpoint::GetNowPlaying)
    } else if name == "reportPlayback"@ {
        Some(Endpoint::ReportPlayback)
    } else if name == "getStarred"@ {
        Some(Endpoint::GetStarred)
    } else if name == "getStarred2"@ {
        Some(Endpoint::GetStarred2)
    } else if name == "star"@ {
        Some(Endpoint::Star)
    } else if name == "unstar"@ {
        Some(Endpoint::Unstar)
    } else if name == "getGenres"@ {
        Some(Endpoint::GetGenres)
    } else if name == "getPlaylists"@ {
        Some(Endpoint::GetPlaylists)
    } else if name == "getPlaylist"@ {
        Some(Endpoint::GetPlaylist)
    } else if name == "createPlaylist"@ {
        Some(Endpoint::CreatePlaylist)
    } else if name == "updatePlaylist"@ {
        Some(Endpoint::UpdatePlaylist)
    } else if name == "deletePlaylist"@ {
        Some(Endpoint::DeletePlaylist)
    } else if name == "getIndexes"@ {
        Some(Endpoint::GetIndexes)
    } else if name == "getArtists"@ {
        Some(Endpoint::GetArtists)
    } else if name == "getMusicDirectory"@ {
        Some(Endpoint::GetMusicDirectory)
    } else if name == "getPlayQueue"@ {
        Some(Endpoint::GetPlayQueue)
    } else if name == "savePlayQueue"@ {
        Some(Endpoint::SavePlayQueue)
    } else if name == "getPlayQueueByIndex"@ {
        Some(Endpoint::GetPlayQueueByIndex)
    } else if name == "savePlayQueueByIndex"@ {
        Some(Endpoint::SavePlayQueueByIndex)
    } else if name == "getBookmarks"@ {
        Some(Endpoint::GetBookmarks)
    } else if name == "createBookmark"@ {
        Some(Endpoint::CreateBookmark)
    } else if name == "deleteBookmark"@ {
        Some(Endpoint::DeleteBookmark)
    } else if name == "jukeboxControl"@ {
        Some(Endpoint::JukeboxControl)
    } else if name == "getShares"@ {
        Some(Endpoint::GetShares)
    } else if name == "createShare"@ {
        Some(Endpoint::CreateShare)
    } else if name == "updateShare"@ {
        Some(Endpoint::UpdateShare)
    } else if name == "deleteShare"@ {
        Some(Endpoint::DeleteShare)
    } else if name == "getInternetRadioStations"@ {
        Some(Endpoint::GetInternetRadioStations)
    } else if name == "createInternetRadioStation"@ {
        Some(Endpoint::CreateInternetRadioStation)
    } else if name == "updateInternetRadioStation"@ {
        Some(Endpoint::UpdateInternetRadioStation)
    } else if name == "deleteInternetRadioStation"@ {
        Some(Endpoint::DeleteInternetRadioStation)
    } else if name == "download"@ {
        Some(Endpoint::Download)
    } else if name == "getTranscodeDecision"@ {
        Some(Endpoint::GetTranscodeDecision)
    } else {
        None
    }
}

/// Looks for the endpoint with a name.
pub fn dispatch(name: &str) -> (r: Option<Endpoint>)
    ensures
        r == endpoint_named(name@),
{
    if text::same(name, "getUser") {
        Some(Endpoint::GetUser)
    } else if text::same(name, "getUsers") {
        Some(Endpoint::GetUsers)
    } else if text::same(name, "getLicense") {
        Some(Endpoint::GetLicense)
    } else if text::same(name, "getMusicFolders") {
        Some(Endpoint::GetMusicFolders)
    } else if text::same(name, "getScanStatus") {
        Some(Endpoint::GetScanStatus)
    } else if text::same(name, "startScan") {
        Some(Endpoint::StartScan)
    } else if text::same(name, "scrobble") {
        Some(Endpoint::Scrobble)
    } else if text::same(name, "setRating") {
        Some(Endpoint::SetRating)
    } else if text::same(name, "search2") {
        Some(Endpoint::Search2)
    } else if text::same(name, "search3") {
        Some(Endpoint::Search3)
    } else if text::same(name, "getCoverArt") {
        Some(Endpoint::GetCoverArt)
    } else if text::same(name, "getAvatar") {
        Some(Endpoint::GetAvatar)
    } else if text::same(name, "getAlbum") {
        Some(Endpoint::GetAlbum)
    } else if text::same(name, "getAlbumList") {
        Some(Endpoint::GetAlbumList)
    } else if text::same(name, "getAlbumList2") {
        Some(Endpoint::GetAlbumList2)
    } else if text::same(name, "getAlbumInfo") {
        Some(Endpoint::GetAlbumInfo)
    } else if text::same(name, "getAlbumInfo2") {
        Some(Endpoint::GetAlbumInfo2)
    } else if text::same(name, "getArtist") {
        Some(Endpoint::GetArtist)
    } else if text::same(name, "getArtistInfo") {
        Some(Endpoint::GetArtistInfo)
    } else if text::same(name, "getArtistInfo2") {
        Some(Endpoint::GetArtistInfo2)
    } else if text::same(name, "getTopSongs") {
        Some(Endpoint::GetTopSongs)
    } else if text::same(name, "getSong") {
        Some(Endpoint::GetSong)
    } else if text::same(name, "getSimilarSongs") {
        Some(Endpoint::GetSimilarSongs)
    } else if text::same(name, "getSimilarSongs2") {
        Some(Endpoint::GetSimilarSongs2)
    } else if text::same(name, "getSongsByGenre") {
        Some(Endpoint::GetSongsByGenre)
    } else if text::same(name, "getLyrics") {
        Some(Endpoint::GetLyrics)
    } else if text::same(name, "getLyricsBySongId") {
        Some(Endpoint::GetLyricsBySongId)
    } else if text::same(name, "getRandomSongs") {
        Some(Endpoint::GetRandomSongs)
    } else if text::same(name, "stream") {
        Some(Endpoint::Stream)
    } else if text::same(name, "updateNowPlaying") {
        Some(Endpoint::UpdateNowPlaying)
    } else if text::same(name, "getNowPlaying") {
        Some(Endpoint::GetNowPlaying)
    } else if text::same(name, "reportPlayback") {
        Some(Endpoint::ReportPlayback)
    } else if text::same(name, "getStarred") {
        Some(Endpoint::GetStarred)
    } else if text::same(name, "getStarred2") {
        Some(Endpoint::GetStarred2)
    } else if text::same(name, "star") {
        Some(Endpoint::Star)
    } else if text::same(name, "unstar") {
        Some(Endpoint::Unstar)
    } else if text::same(name, "getGenres") {
        Some(Endpoint::GetGenres)
    } else if text::same(name, "getPlaylists") {
        Some(Endpoint::GetPlaylists)
    } else if text::same(name, "getPlaylist") {
        Some(Endpoint::GetPlaylist)
    } else if text::same(name, "createPlaylist") {
        Some(Endpoint::CreatePlaylist)
    } else if text::same(name, "updatePlaylist") {
        Some(Endpoint::UpdatePlaylist)
    } else if text::same(name, "deletePlaylist") {
        Some(Endpoint::DeletePlaylist)
    } else if text::same(name, "getIndexes") {
        Some(Endpoint::GetIndexes)
    } else if text::same(name, "getArtists") {
        Some(Endpoint::GetArtists)
    } else if text::same(name, "getMusicDirectory") {
        Some(Endpoint::GetMusicDirectory)
    } else if text::same(name, "getPlayQueue") {
        Some(Endpoint::GetPlayQueue)
    } else if text::same(name, "savePlayQueue") {
        Some(Endpoint::SavePlayQueue)
    } else if text::same(name, "getPlayQueueByIndex") {
        Some(Endpoint::GetPlayQueueByIndex)
    } else if text::same(name, "savePlayQueueByIndex") {
        Some(Endpoint::SavePlayQueueByIndex)
    } else if text::same(name, "getBookmarks") {
        Some(Endpoint::GetBookmarks)
    } else if text::same(name, "createBookmark") {
        Some(Endpoint::CreateBookmark)
    } else if text::same(name, "deleteBookmark") {
        Some(Endpoint::DeleteBookmark)
    } else if text::same(name, "jukeboxControl") {
        Some(Endpoint::JukeboxControl)
    } else if text::same(name, "getShares") {
        Some(Endpoint::GetShares)
    } else if text::same(name, "createShare") {
        Some(Endpoint::CreateShare)
    } else if text::same(name, "updateShare") {
        Some(Endpoint::UpdateShare)
    } else if text::same(name, "deleteShare") {
        Some(Endpoint::DeleteShare)
    } else if text::same(name, "getInternetRadioStations") {
        Some(Endpoint::GetInternetRadioStations)
    } else if text::same(name, "createInternetRadioStation") {
        Some(Endpoint::CreateInternetRadioStation)
    } else if text::same(name, "updateInternetRadioStation") {
        Some(Endpoint::UpdateInternetRadioStation)
    } else if text::same(name, "deleteInternetRadioStation") {
        Some(Endpoint::DeleteInternetRadioStation)
    } else if text::same(name, "download") {
        Some(Endpoint::Download)
    } else if text::same(name, "getTranscodeDecision") {
        Some(Endpoint::GetTranscodeDecision)
    } else {
        None
    }
}

proof fn lemma_names_differ()
    ensures
        "getUser"@.len() == 7,
        "getUsers"@.len() == 8,
        "getLicense"@.len() == 10,
        "getMusicFolders"@.len() == 15,
        "getScanStatus"@.len() == 13,
        "startScan"@.len() == 9,
        "scrobble"@.len() == 8,
        "setRating"@.len() == 9,
        "search2"@.len() == 7,
        "search3"@.len() == 7,
        "getCoverArt"@.len() == 11,
        "getAvatar"@.len() == 9,
        "getAlbum"@.len() == 8,
        "getAlbumList"@.len() == 12,
        "getAlbumList2"@.len() == 13,
        "getAlbumInfo"@.len() == 12,
        "getAlbumInfo2"@.len() == 13,
        "getArtist"@.len() == 9,
        "getArtistInfo"@.len() == 13,
        "getArtistInfo2"@.len() == 14,
        "getTopSongs"@.len() == 11,
        "getSong"@.len() == 7,
        "getSimilarSongs"@.len() == 15,
        "getSimilarSongs2"@.len() == 16,
        "getSongsByGenre"@.len() == 15,
        "getLyrics"@.len() == 9,
        "getLyricsBySongId"@.len() == 17,
        "getRandomSongs"@.len() == 14,
        "stream"@.len() == 6,
        "updateNowPlaying"@.len() == 16,
        "getNowPlaying"@.len() == 13,
        "reportPlayback"@.len() == 14,
        "getStarred"@.len() == 10,
        "getStarred2"@.len() == 11,
        "star"@.len() == 4,
        "unstar"@.len() == 6,
        "getGenres"@.len() == 9,
        "getPlaylists"@.len() == 12,
        "getPlaylist"@.len() == 11,
        "createPlaylist"@.len() == 14,
        "updatePlaylist"@.len() == 14,
        "deletePlaylist"@.len() == 14,
        "getIndexes"@.len() == 10,
        "getArtists"@.len() == 10,
        "getMusicDirectory"@.len() == 17,
        "getPlayQueue"@.len() == 12,
        "savePlayQueue"@.len() == 13,
        "getPlayQueueByIndex"@.len() == 19,
        "savePlayQueueByIndex"@.len() == 20,
        "getBookmarks"@.len() == 12,
        "createBookmark"@.len() == 14,
        "deleteBookmark"@.len() == 14,
        "jukeboxControl"@.len() == 14,
        "getShares"@.len() == 9,
        "createShare"@.len() == 11,
        "updateShare"@.len() == 11,
        "deleteShare"@.len() == 11,
        "getInternetRadioStations"@.len() == 24,
        "createInternetRadioStation"@.len() == 26,
        "updateInternetRadioStation"@.len() == 26,
        "deleteInternetRadioStation"@.len() == 26,
        "download"@.len() == 8,
        "getTranscodeDecision"@.len() == 20,
        "ping"@.len() == 4,
        "getOpenSubsonicExtensions"@.len() == 25,
        "getUsers"@ != "scrobble"@,
        "startScan"@ != "setRating"@,
        "getUser"@ != "search2"@,
        "getUser"@ != "search3"@,
        "search2"@ != "search3"@,
        "startScan"@ != "getAvatar"@,
        "setRating"@ != "getAvatar"@,
        "getUsers"@ != "getAlbum"@,
        "scrobble"@ != "getAlbum"@,
        "getScanStatus"@ != "getAlbumList2"@,
        "getAlbumList"@ != "getAlbumInfo"@,
        "getScanStatus"@ != "getAlbumInfo2"@,
        "getAlbumList2"@ != "getAlbumInfo2"@,
        "startScan"@ != "getArtist"@,
        "setRating"@ != "getArtist"@,
        "getAvatar"@ != "getArtist"@,
        "getScanStatus"@ != "getArtistInfo"@,
        "getAlbumList2"@ != "getArtistInfo"@,
        "getAlbumInfo2"@ != "getArtistInfo"@,
        "getCoverArt"@ != "getTopSongs"@,
        "getUser"@ != "getSong"@,
        "search2"@ != "getSong"@,
        "search3"@ != "getSong"@,
        "getMusicFolders"@ != "getSimilarSongs"@,
        "getMusicFolders"@ != "getSongsByGenre"@,
        "getSimilarSongs"@ != "getSongsByGenre"@,
        "startScan"@ != "getLyrics"@,
        "setRating"@ != "getLyrics"@,
        "getAvatar"@ != "getLyrics"@,
        "getArtist"@ != "getLyrics"@,
        "getArtistInfo2"@ != "getRandomSongs"@,
        "getSimilarSongs2"@ != "updateNowPlaying"@,
        "getScanStatus"@ != "getNowPlaying"@,
        "getAlbumList2"@ != "getNowPlaying"@,
        "getAlbumInfo2"@ != "getNowPlaying"@,
        "getArtistInfo"@ != "getNowPlaying"@,
        "getArtistInfo2"@ != "reportPlayback"@,
        "getRandomSongs"@ != "reportPlayback"@,
        "getLicense"@ != "getStarred"@,
        "getCoverArt"@ != "getStarred2"@,
        "getTopSongs"@ != "getStarred2"@,
        "stream"@ != "unstar"@,
        "startScan"@ != "getGenres"@,
        "setRating"@ != "getGenres"@,
        "getAvatar"@ != "getGenres"@,
        "getArtist"@ != "getGenres"@,
        "getLyrics"@ != "getGenres"@,
        "getAlbumList"@ != "getPlaylists"@,
        "getAlbumInfo"@ != "getPlaylists"@,
        "getCoverArt"@ != "getPlaylist"@,
        "getTopSongs"@ != "getPlaylist"@,
        "getStarred2"@ != "getPlaylist"@,
        "getArtistInfo2"@ != "createPlaylist"@,
        "getRandomSongs"@ != "createPlaylist"@,
        "reportPlayback"@ != "createPlaylist"@,
        "getArtistInfo2"@ != "updatePlaylist"@,
        "getRandomSongs"@ != "updatePlaylist"@,
        "reportPlayback"@ != "updatePlaylist"@,
        "createPlaylist"@ != "updatePlaylist"@,
        "getArtistInfo2"@ != "deletePlaylist"@,
        "getRandomSongs"@ != "deletePlaylist"@,
        "reportPlayback"@ != "deletePlaylist"@,
        "createPlaylist"@ != "deletePlaylist"@,
        "updatePlaylist"@ != "deletePlaylist"@,
        "getLicense"@ != "getIndexes"@,
        "getStarred"@ != "getIndexes"@,
        "getLicense"@ != "getArtists"@,
        "getStarred"@ != "getArtists"@,
        "getIndexes"@ != "getArtists"@,
        "getLyricsBySongId"@ != "getMusicDirectory"@,
        "getAlbumList"@ != "getPlayQueue"@,
        "getAlbumInfo"@ != "getPlayQueue"@,
        "getPlaylists"@ != "getPlayQueue"@,
        "getScanStatus"@ != "savePlayQueue"@,
        "getAlbumList2"@ != "savePlayQueue"@,
        "getAlbumInfo2"@ != "savePlayQueue"@,
        "getArtistInfo"@ != "savePlayQueue"@,
        "getNowPlaying"@ != "savePlayQueue"@,
        "getAlbumList"@ != "getBookmarks"@,
        "getAlbumInfo"@ != "getBookmarks"@,
        "getPlaylists"@ != "getBookmarks"@,
        "getPlayQueue"@ != "getBookmarks"@,
        "getArtistInfo2"@ != "createBookmark"@,
        "getRandomSongs"@ != "createBookmark"@,
        "reportPlayback"@ != "createBookmark"@,
        "createPlaylist"@ != "createBookmark"@,
        "updatePlaylist"@ != "createBookmark"@,
        "deletePlaylist"@ != "createBookmark"@,
        "getArtistInfo2"@ != "deleteBookmark"@,
        "getRandomSongs"@ != "deleteBookmark"@,
        "reportPlayback"@ != "deleteBookmark"@,
        "createPlaylist"@ != "deleteBookmark"@,
        "updatePlaylist"@ != "deleteBookmark"@,
        "deletePlaylist"@ != "deleteBookmark"@,
        "createBookmark"@ != "deleteBookmark"@,
        "getArtistInfo2"@ != "jukeboxControl"@,
        "getRandomSongs"@ != "jukeboxControl"@,
        "reportPlayback"@ != "jukeboxControl"@,
        "createPlaylist"@ != "jukeboxControl"@,
        "updatePlaylist"@ != "jukeboxControl"@,
        "deletePlaylist"@ != "jukeboxControl"@,
        "createBookmark"@ != "jukeboxControl"@,
        "deleteBookmark"@ != "jukeboxControl"@,
        "startScan"@ != "getShares"@,
        "setRating"@ != "getShares"@,
        "getAvatar"@ != "getShares"@,
        "getArtist"@ != "getShares"@,
        "getLyrics"@ != "getShares"@,
        "getGenres"@ != "getShares"@,
        "getCoverArt"@ != "createShare"@,
        "getTopSongs"@ != "createShare"@,
        "getStarred2"@ != "createShare"@,
        "getPlaylist"@ != "createShare"@,
        "getCoverArt"@ != "updateShare"@,
        "getTopSongs"@ != "updateShare"@,
        "getStarred2"@ != "updateShare"@,
        "getPlaylist"@ != "updateShare"@,
        "createShare"@ != "updateShare"@,
        "getCoverArt"@ != "deleteShare"@,
        "getTopSongs"@ != "deleteShare"@,
        "getStarred2"@ != "deleteShare"@,
        "getPlaylist"@ != "deleteShare"@,
        "createShare"@ != "deleteShare"@,
        "updateShare"@ != "deleteShare"@,
        "createInternetRadioStation"@ != "updateInternetRadioStation"@,
        "createInternetRadioStation"@ != "deleteInternetRadioStation"@,
        "updateInternetRadioStation"@ != "deleteInternetRadioStation"@,
        "getUsers"@ != "download"@,
        "scrobble"@ != "download"@,
        "getAlbum"@ != "download"@,
        "savePlayQueueByIndex"@ != "getTranscodeDecision"@,
        "star"@ != "ping"@,
{
    reveal_strlit("getUser");
    reveal_strlit("getUsers");
    reveal_strlit("getLicense");
    reveal_strlit("getMusicFolders");
    reveal_strlit("getScanStatus");
    reveal_strlit("startScan");
    reveal_strlit("scrobble");
    reveal_strlit("setRating");
    reveal_strlit("search2");
    reveal_strlit("search3");
    reveal_strlit("getCoverArt");
    reveal_strlit("getAvatar");
    reveal_strlit("getAlbum");
    reveal_strlit("getAlbumList");
    reveal_strlit("getAlbumList2");
    reveal_strlit("getAlbumInfo");
    reveal_strlit("getAlbumInfo2");
    reveal_strlit("getArtist");
    reveal_strlit("getArtistInfo");
    reveal_strlit("getArtistInfo2");
    reveal_strlit("getTopSongs");
    reveal_strlit("getSong");
    reveal_strlit("getSimilarSongs");
    reveal_strlit("getSimilarSongs2");
    reveal_strlit("getSongsByGenre");
    reveal_strlit("getLyrics");
    reveal_strlit("getLyricsBySongId");
    reveal_strlit("getRandomSongs");
    reveal_strlit("stream");
    reveal_strlit("updateNowPlaying");
    reveal_strlit("getNowPlaying");
    reveal_strlit("reportPlayback");
    reveal_strlit("getStarred");
    reveal_strlit("getStarred2");
    reveal_strlit("star");
    reveal_strlit("unstar");
    reveal_strlit("getGenres");
    reveal_strlit("getPlaylists");
    reveal_strlit("getPlaylist");
    reveal_strlit("createPlaylist");
    reveal_strlit("updatePlaylist");
    reveal_strlit("deletePlaylist");
    reveal_strlit("getIndexes");
    reveal_strlit("getArtists");
    reveal_strlit("getMusicDirectory");
    reveal_strlit("getPlayQueue");
    reveal_strlit("savePlayQueue");
    reveal_strlit("getPlayQueueByIndex");
    reveal_strlit("savePlayQueueByIndex");
    reveal_strlit("getBookmarks");
    reveal_strlit("createBookmark");
    reveal_strlit("deleteBookmark");
    reveal_strlit("jukeboxControl");
    reveal_strlit("getShares");
    reveal_strlit("createShare");
    reveal_strlit("updateShare");
    reveal_strlit("deleteShare");
    reveal_strlit("getInternetRadioStations");
    reveal_strlit("createInternetRadioStation");
    reveal_strlit("updateInternetRadioStation");
    reveal_strlit("deleteInternetRadioStation");
    reveal_strlit("download");
    reveal_strlit("getTranscodeDecision");
    reveal_strlit("ping");
    reveal_strlit("getOpenSubsonicExtensions");
    assert("getUsers"@[0] == 'g' && "scrobble"@[0] == 's');
    assert("startScan"@[1] == 't' && "setRating"@[1] == 'e');
    assert("getUser"@[0] == 'g' && "search2"@[0] == 's');
    assert("getUser"@[0] == 'g' && "search3"@[0] == 's');
    assert("search2"@[6] == '2' && "search3"@[6] == '3');
    assert("startScan"@[0] == 's' && "getAvatar"@[0] == 'g');
    assert("setRating"@[0] == 's' && "getAvatar"@[0] == 'g');
    assert("getUsers"@[3] == 'U' && "getAlbum"@[3] == 'A');
    assert("scrobble"@[0] == 's' && "getAlbum"@[0] == 'g');
    assert("getScanStatus"@[3] == 'S' && "getAlbumList2"@[3] == 'A');
    assert("getAlbumList"@[8] == 'L' && "getAlbumInfo"@[8] == 'I');
    assert("getScanStatus"@[3] == 'S' && "getAlbumInfo2"@[3] == 'A');
    assert("getAlbumList2"@[8] == 'L' && "getAlbumInfo2"@[8] == 'I');
    assert("startScan"@[0] == 's' && "getArtist"@[0] == 'g');
    assert("setRating"@[0] == 's' && "getArtist"@[0] == 'g');
    assert("getAvatar"@[4] == 'v' && "getArtist"@[4] == 'r');
    assert("getScanStatus"@[3] == 'S' && "getArtistInfo"@[3] == 'A');
    assert("getAlbumList2"@[4] == 'l' && "getArtistInfo"@[4] == 'r');
    assert("getAlbumInfo2"@[4] == 'l' && "getArtistInfo"@[4] == 'r');
    assert("getCoverArt"@[3] == 'C' && "getTopSongs"@[3] == 'T');
    assert("getUser"@[3] == 'U' && "getSong"@[3] == 'S');
    assert("search2"@[0] == 's' && "getSong"@[0] == 'g');
    assert("search3"@[0] == 's' && "getSong"@[0] == 'g');
    assert("getMusicFolders"@[3] == 'M' && "getSimilarSongs"@[3] == 'S');
    assert("getMusicFolders"@[3] == 'M' && "getSongsByGenre"@[3] == 'S');
    assert("getSimilarSongs"@[4] == 'i' && "getSongsByGenre"@[4] == 'o');
    assert("startScan"@[0] == 's' && "getLyrics"@[0] == 'g');
    assert("setRating"@[0] == 's' && "getLyrics"@[0] == 'g');
    assert("getAvatar"@[3] == 'A' && "getLyrics"@[3] == 'L');
    assert("getArtist"@[3] == 'A' && "getLyrics"@[3] == 'L');
    assert("getArtistInfo2"@[3] == 'A' && "getRandomSongs"@[3] == 'R');
    assert("getSimilarSongs2"@[0] == 'g' && "updateNowPlaying"@[0] == 'u');
    assert("getScanStatus"@[3] == 'S' && "getNowPlaying"@[3] == 'N');
    assert("getAlbumList2"@[3] == 'A' && "getNowPlaying"@[3] == 'N');
    assert("getAlbumInfo2"@[3] == 'A' && "getNowPlaying"@[3] == 'N');
    assert("getArtistInfo"@[3] == 'A' && "getNowPlaying"@[3] == 'N');
    assert("getArtistInfo2"@[0] == 'g' && "reportPlayback"@[0] == 'r');
    assert("getRandomSongs"@[0] == 'g' && "reportPlayback"@[0] == 'r');
    assert("getLicense"@[3] == 'L' && "getStarred"@[3] == 'S');
    assert("getCoverArt"@[3] == 'C' && "getStarred2"@[3] == 'S');
    assert("getTopSongs"@[3] == 'T' && "getStarred2"@[3] == 'S');
    assert("stream"@[0] == 's' && "unstar"@[0] == 'u');
    assert("startScan"@[0] == 's' && "getGenres"@[0] == 'g');
    assert("setRating"@[0] == 's' && "getGenres"@[0] == 'g');
    assert("getAvatar"@[3] == 'A' && "getGenres"@[3] == 'G');
    assert("getArtist"@[3] == 'A' && "getGenres"@[3] == 'G');
    assert("getLyrics"@[3] == 'L' && "getGenres"@[3] == 'G');
    assert("getAlbumList"@[3] == 'A' && "getPlaylists"@[3] == 'P');
    assert("getAlbumInfo"@[3] == 'A' && "getPlaylists"@[3] == 'P');
    assert("getCoverArt"@[3] == 'C' && "getPlaylist"@[3] == 'P');
    assert("getTopSongs"@[3] == 'T' && "getPlaylist"@[3] == 'P');
    assert("getStarred2"@[3] == 'S' && "getPlaylist"@[3] == 'P');
    assert("getArtistInfo2"@[0] == 'g' && "createPlaylist"@[0] == 'c');
    assert("getRandomSongs"@[0] == 'g' && "createPlaylist"@[0] == 'c');
    assert("reportPlayback"@[0] == 'r' && "createPlaylist"@[0] == 'c');
    assert("getArtistInfo2"@[0] == 'g' && "updatePlaylist"@[0] == 'u');
    assert("getRandomSongs"@[0] == 'g' && "updatePlaylist"@[0] == 'u');
    assert("reportPlayback"@[0] == 'r' && "updatePlaylist"@[0] == 'u');
    assert("createPlaylist"@[0] == 'c' && "updatePlaylist"@[0] == 'u');
    assert("getArtistInfo2"@[0] == 'g' && "deletePlaylist"@[0] == 'd');
    assert("getRandomSongs"@[0] == 'g' && "deletePlaylist"@[0] == 'd');
    assert("reportPlayback"@[0] == 'r' && "deletePlaylist"@[0] == 'd');
    assert("createPlaylist"@[0] == 'c' && "deletePlaylist"@[0] == 'd');
    assert("updatePlaylist"@[0] == 'u' && "deletePlaylist"@[0] == 'd');
    assert("getLicense"@[3] == 'L' && "getIndexes"@[3] == 'I');
    assert("getStarred"@[3] == 'S' && "getIndexes"@[3] == 'I');
    assert("getLicense"@[3] == 'L' && "getArtists"@[3] == 'A');
    assert("getStarred"@[3] == 'S' && "getArtists"@[3] == 'A');
    assert("getIndexes"@[3] == 'I' && "getArtists"@[3] == 'A');
    assert("getLyricsBySongId"@[3] == 'L' && "getMusicDirectory"@[3] == 'M');
    assert("getAlbumList"@[3] == 'A' && "getPlayQueue"@[3] == 'P');
    assert("getAlbumInfo"@[3] == 'A' && "getPlayQueue"@[3] == 'P');
    assert("getPlaylists"@[7] == 'l' && "getPlayQueue"@[7] == 'Q');
    assert("getScanStatus"@[0] == 'g' && "savePlayQueue"@[0] == 's');
    assert("getAlbumList2"@[0] == 'g' && "savePlayQueue"@[0] == 's');
    assert("getAlbumInfo2"@[0] == 'g' && "savePlayQueue"@[0] == 's');
    assert("getArtistInfo"@[0] == 'g' && "savePlayQueue"@[0] == 's');
    assert("getNowPlaying"@[0] == 'g' && "savePlayQueue"@[0] == 's');
    assert("getAlbumList"@[3] == 'A' && "getBookmarks"@[3] == 'B');
    assert("getAlbumInfo"@[3] == 'A' && "getBookmarks"@[3] == 'B');
    assert("getPlaylists"@[3] == 'P' && "getBookmarks"@[3] == 'B');
    assert("getPlayQueue"@[3] == 'P' && "getBookmarks"@[3] == 'B');
    assert("getArtistInfo2"@[0] == 'g' && "createBookmark"@[0] == 'c');
    assert("getRandomSongs"@[0] == 'g' && "createBookmark"@[0] == 'c');
    assert("reportPlayback"@[0] == 'r' && "createBookmark"@[0] == 'c');
    assert("createPlaylist"@[6] == 'P' && "createBookmark"@[6] == 'B');
    assert("updatePlaylist"@[0] == 'u' && "createBookmark"@[0] == 'c');
    assert("deletePlaylist"@[0] == 'd' && "createBookmark"@[0] == 'c');
    assert("getArtistInfo2"@[0] == 'g' && "deleteBookmark"@[0] == 'd');
    assert("getRandomSongs"@[0] == 'g' && "deleteBookmark"@[0] == 'd');
    assert("reportPlayback"@[0] == 'r' && "deleteBookmark"@[0] == 'd');
    assert("createPlaylist"@[0] == 'c' && "deleteBookmark"@[0] == 'd');
    assert("updatePlaylist"@[0] == 'u' && "deleteBookmark"@[0] == 'd');
    assert("deletePlaylist"@[6] == 'P' && "deleteBookmark"@[6] == 'B');
    assert("createBookmark"@[0] == 'c' && "deleteBookmark"@[0] == 'd');
    assert("getArtistInfo2"@[0] == 'g' && "jukeboxControl"@[0] == 'j');
    assert("getRandomSongs"@[0] == 'g' && "jukeboxControl"@[0] == 'j');
    assert("reportPlayback"@[0] == 'r' && "jukeboxControl"@[0] == 'j');
    assert("createPlaylist"@[0] == 'c' && "jukeboxControl"@[0] == 'j');
    assert("updatePlaylist"@[0] == 'u' && "jukeboxControl"@[0] == 'j');
    assert("deletePlaylist"@[0] == 'd' && "jukeboxControl"@[0] == 'j');
    assert("createBookmark"@[0] == 'c' && "jukeboxControl"@[0] == 'j');
    assert("deleteBookmark"@[0] == 'd' && "jukeboxControl"@[0] == 'j');
    assert("startScan"@[0] == 's' && "getShares"@[0] == 'g');
    assert("setRating"@[0] == 's' && "getShares"@[0] == 'g');
    assert("getAvatar"@[3] == 'A' && "getShares"@[3] == 'S');
    assert("getArtist"@[3] == 'A' && "getShares"@[3] == 'S');
    assert("getLyrics"@[3] == 'L' && "getShares"@[3] == 'S');
    assert("getGenres"@[3] == 'G' && "getShares"@[3] == 'S');
    assert("getCoverArt"@[0] == 'g' && "createShare"@[0] == 'c');
    assert("getTopSongs"@[0] == 'g' && "createShare"@[0] == 'c');
    assert("getStarred2"@[0] == 'g' && "createShare"@[0] == 'c');
    assert("getPlaylist"@[0] == 'g' && "createShare"@[0] == 'c');
    assert("getCoverArt"@[0] == 'g' && "updateShare"@[0] == 'u');
    assert("getTopSongs"@[0] == 'g' && "updateShare"@[0] == 'u');
    assert("getStarred2"@[0] == 'g' && "updateShare"@[0] == 'u');
    assert("getPlaylist"@[0] == 'g' && "updateShare"@[0] == 'u');
    assert("createShare"@[0] == 'c' && "updateShare"@[0] == 'u');
    assert("getCoverArt"@[0] == 'g' && "deleteShare"@[0] == 'd');
    assert("getTopSongs"@[0] == 'g' && "deleteShare"@[0] == 'd');
    assert("getStarred2"@[0] == 'g' && "deleteShare"@[0] == 'd');
    assert("getPlaylist"@[0] == 'g' && "deleteShare"@[0] == 'd');
    assert("createShare"@[0] == 'c' && "deleteShare"@[0] == 'd');
    assert("updateShare"@[0] == 'u' && "deleteShare"@[0] == 'd');
    assert("createInternetRadioStation"@[0] == 'c' && "updateInternetRadioStation"@[0] == 'u');
    assert("createInternetRadioStation"@[0] == 'c' && "deleteInternetRadioStation"@[0] == 'd');
    assert("updateInternetRadioStation"@[0] == 'u' && "deleteInternetRadioStation"@[0] == 'd');
    assert("getUsers"@[0] == 'g' && "download"@[0] == 'd');
    assert("scrobble"@[0] == 's' && "download"@[0] == 'd');
    assert("getAlbum"@[0] == 'g' && "download"@[0] == 'd');
    assert("savePlayQueueByIndex"@[0] == 's' && "getTranscodeDecision"@[0] == 'g');
    assert("star"@[0] == 's' && "ping"@[0] == 'p');
}

/// Every endpoint is found under its name.
pub proof fn law_every_endpoint_is_found(e: Endpoint)
    ensures
        endpoint_named(name_of(e)) == Some(e),
{
    lemma_names_differ();
}

/// The name in the last part of a path, which may end in `.view`.
pub open spec fn plain_name(part: Seq<char>) -> Seq<char> {
    match before_suffix(part, ".view"@) {
        Some(n) => n,
        None => part,
    }
}

/// What a request comes to.
#[derive(Debug, Clone, Copy, PartialEq, Eq, Structural)]
pub enum Route {
    /// That the server is there; anyone may know.
    Ping,
    /// What the server can do; anyone may know.
    Extensions,
    Endpoint(Endpoint),
    /// The user is not logged in.
    Unauthorized,
    NotFound,
}

/// What a request comes to: two endpoints are open to all, and anything else is refused to those
/// who are not logged in, whether it is there or not.
pub open spec fn route_of(part: Seq<char>, logged_in: bool) -> Route {
    let name = plain_name(part);
    if name == "ping"@ {
        Route::Ping
    } else if name == "getOpenSubsonicExtensions"@ {
        Route::Extensions
    } else if !logged_in {
        Route::Unauthorized
    } else {
        match endpoint_named(name) {
            Some(e) => Route::Endpoint(e),
            None => Route::NotFound,
        }
    }
}

/// Decides what a request comes to, by the last part of its path.
pub fn route(part: &str, logged_in: bool) -> (r: Route)
    ensures
        r == route_of(part@, logged_in),
        part@ == "ping"@ || part@ == "ping"@ + ".view"@ ==> r == Route::Ping,
        part@ == "getOpenSubsonicExtensions"@ || part@ == "getOpenSubsonicExtensions"@ + ".view"@ ==> r
            == Route::Extensions,
        !logged_in ==> r == Route::Ping || r == Route::Extensions || r == Route::Unauthorized,
        logged_in ==> r != Route::Unauthorized,
{
    proof {
        text::law_a_suffix_leaves_what_is_before("ping"@, ".view"@, "ping"@);
        text::law_a_suffix_leaves_what_is_before(
            "getOpenSubsonicExtensions"@,
            ".view"@,
            "getOpenSubsonicExtensions"@,
        );
        reveal_strlit("ping");
        reveal_strlit(".view");
        reveal_strlit("getOpenSubsonicExtensions");
        assert("ping"@.len() == 4 && ".view"@.len() == 5 && "getOpenSubsonicExtensions"@.len() == 25);
        let e = "getOpenSubsonicExtensions"@;
        assert(".view"@[0] == '.' && e[20] == 's');
        assert(before_suffix("ping"@, ".view"@) is None);
        assert(before_suffix(e, ".view"@) is None) by {
            assert(e.subrange(20, 25)[0] == e[20]);
        }
    }
    let name = match text::strip_suffix(part, ".view") {
        Some(n) => n,
        None => part,
    };
    if text::same(name, "ping") {
        Route::Ping
    } else if text::same(name, "getOpenSubsonicExtensions") {
        Route::Extensions
    } else if !logged_in {
        Route::Unauthorized
    } else {
        match dispatch(name) {
            Some(e) => Route::Endpoint(e),
            None => Route::NotFound,
        }
    }
}

/// Who is not logged in reaches none of the endpoints, whatever the path.
pub proof fn law_denied_by_default(part: Seq<char>)
    ensures
        !(route_of(part, false) is Endpoint),
        !(route_of(part, false) is NotFound),
{
}

/// Who is logged in reaches every endpoint, with the ending or without it; the open endpoints do
/// not stand in the way of any.
pub proof fn law_every_endpoint_is_reached(e: Endpoint)
    ensures
        route_of(name_of(e), true) == Route::Endpoint(e),
        route_of(name_of(e) + ".view"@, true) == Route::Endpoint(e),
{
    lemma_names_differ();
    law_every_endpoint_is_found(e);
    let n = name_of(e);
    reveal_strlit(".view");
    let long = n + ".view"@;
    assert(long.subrange(long.len() - 5, long.len() as int) =~= ".view"@);
    assert(long.subrange(0, long.len() - 5) =~= n);
    lemma_no_ending(e);
}

/// No name of an endpoint has the ending itself.
proof fn lemma_no_ending(e: Endpoint)
    ensures
        before_suffix(name_of(e), ".view"@) is None,
{
    reveal_strlit(".view");
    reveal_strlit("getUser");
    reveal_strlit("getUsers");
    reveal_strlit("getLicense");
    reveal_strlit("getMusicFolders");
    reveal_strlit("getScanStatus");
    reveal_strlit("startScan");
    reveal_strlit("scrobble");
    reveal_strlit("setRating");
    reveal_strlit("search2");
    reveal_strlit("search3");
    reveal_strlit("getCoverArt");
    reveal_strlit("getAvatar");
    reveal_strlit("getAlbum");
    reveal_strlit("getAlbumList");
    reveal_strlit("getAlbumList2");
    reveal_strlit("getAlbumInfo");
    reveal_strlit("getAlbumInfo2");
    reveal_strlit("getArtist");
    reveal_strlit("getArtistInfo");
    reveal_strlit("getArtistInfo2");
    reveal_strlit("getTopSongs");
    reveal_strlit("getSong");
    reveal_strlit("getSimilarSongs");
    reveal_strlit("getSimilarSongs2");
    reveal_strlit("getSongsByGenre");
    reveal_strlit("getLyrics");
    reveal_strlit("getLyricsBySongId");
    reveal_strlit("getRandomSongs");
    reveal_strlit("stream");
    reveal_strlit("updateNowPlaying");
    reveal_strlit("getNowPlaying");
    reveal_strlit("reportPlayback");
    reveal_strlit("getStarred");
    reveal_strlit("getStarred2");
    reveal_strlit("star");
    reveal_strlit("unstar");
    reveal_strlit("getGenres");
    reveal_strlit("getPlaylists");
    reveal_strlit("getPlaylist");
    reveal_strlit("createPlaylist");
    reveal_strlit("updatePlaylist");
    reveal_strlit("deletePlaylist");
    reveal_strlit("getIndexes");
    reveal_strlit("getArtists");
    reveal_strlit("getMusicDirectory");
    reveal_strlit("getPlayQueue");
    reveal_strlit("savePlayQueue");
    reveal_strlit("getPlayQueueByIndex");
    reveal_strlit("savePlayQueueByIndex");
    reveal_strlit("getBookmarks");
    reveal_strlit("createBookmark");
    reveal_strlit("deleteBookmark");
    reveal_strlit("jukeboxControl");
    reveal_strlit("getShares");
    reveal_strlit("createShare");
    reveal_strlit("updateShare");
    reveal_strlit("deleteShare");
    reveal_strlit("getInternetRadioStations");
    reveal_strlit("createInternetRadioStation");
    reveal_strlit("updateInternetRadioStation");
    reveal_strlit("deleteInternetRadioStation");
    reveal_strlit("download");
    reveal_strlit("getTranscodeDecision");
    let s = name_of(e);
    if s.len() >= 5 {
        let t = s.subrange(s.len() - 5, s.len() as int);
        assert(t[0] == s[s.len() - 5]);
        assert(".view"@[0] == '.');
        match e {
            Endpoint::GetUser => assert("getUser"@[2] == 't'),
            Endpoint::GetUsers => assert("getUsers"@[3] == 'U'),
            Endpoint::GetLicense => assert("getLicense"@[5] == 'c'),
            Endpoint::GetMusicFolders => assert("getMusicFolders"@[10] == 'l'),
            Endpoint::GetScanStatus => assert("getScanStatus"@[8] == 't'),
            Endpoint::StartScan => assert("startScan"@[4] == 't'),
            Endpoint::Scrobble => assert("scrobble"@[3] == 'o'),
            Endpoint::SetRating => assert("setRating"@[4] == 'a'),
            Endpoint::Search2 => assert("search2"@[2] == 'a'),
            Endpoint::Search3 => assert("search3"@[2] == 'a'),
            Endpoint::GetCoverArt => assert("getCoverArt"@[6] == 'e'),
            Endpoint::GetAvatar => assert("getAvatar"@[4] == 'v'),
            Endpoint::GetAlbum => assert("getAlbum"@[3] == 'A'),
            Endpoint::GetAlbumList => assert("getAlbumList"@[7] == 'm'),
            Endpoint::GetAlbumList2 => assert("getAlbumList2"@[8] == 'L'),
            Endpoint::GetAlbumInfo => assert("getAlbumInfo"@[7] == 'm'),
            Endpoint::GetAlbumInfo2 => assert("getAlbumInfo2"@[8] == 'I'),
            Endpoint::GetArtist => assert("getArtist"@[4] == 'r'),
            Endpoint::GetArtistInfo => assert("getArtistInfo"@[8] == 't'),
            Endpoint::GetArtistInfo2 => assert("getArtistInfo2"@[9] == 'I'),
            Endpoint::GetTopSongs => assert("getTopSongs"@[6] == 'S'),
            Endpoint::GetSong => assert("getSong"@[2] == 't'),
            Endpoint::GetSimilarSongs => assert("getSimilarSongs"@[10] == 'S'),
            Endpoint::GetSimilarSongs2 => assert("getSimilarSongs2"@[11] == 'o'),
            Endpoint::GetSongsByGenre => assert("getSongsByGenre"@[10] == 'G'),
            Endpoint::GetLyrics => assert("getLyrics"@[4] == 'y'),
            Endpoint::GetLyricsBySongId => assert("getLyricsBySongId"@[12] == 'o'),
            Endpoint::GetRandomSongs => assert("getRandomSongs"@[9] == 'S'),
            Endpoint::Stream => assert("stream"@[1] == 't'),
            Endpoint::UpdateNowPlaying => assert("updateNowPlaying"@[11] == 'a'),
            Endpoint::GetNowPlaying => assert("getNowPlaying"@[8] == 'a'),
            Endpoint::ReportPlayback => assert("reportPlayback"@[9] == 'y'),
            Endpoint::GetStarred => assert("getStarred"@[5] == 'a'),
            Endpoint::GetStarred2 => assert("getStarred2"@[6] == 'r'),
            Endpoint::Star => {},
            Endpoint::Unstar => assert("unstar"@[1] == 'n'),
            Endpoint::GetGenres => assert("getGenres"@[4] == 'e'),
            Endpoint::GetPlaylists => assert("getPlaylists"@[7] == 'l'),
            Endpoint::GetPlaylist => assert("getPlaylist"@[6] == 'y'),
            Endpoint::CreatePlaylist => assert("createPlaylist"@[9] == 'y'),
            Endpoint::UpdatePlaylist => assert("updatePlaylist"@[9] == 'y'),
            Endpoint::DeletePlaylist => assert("deletePlaylist"@[9] == 'y'),
            Endpoint::GetIndexes => assert("getIndexes"@[5] == 'd'),
            Endpoint::GetArtists => assert("getArtists"@[5] == 't'),
            Endpoint::GetMusicDirectory => assert("getMusicDirectory"@[12] == 'c'),
            Endpoint::GetPlayQueue => assert("getPlayQueue"@[7] == 'Q'),
            Endpoint::SavePlayQueue => assert("savePlayQueue"@[8] == 'Q'),
            Endpoint::GetPlayQueueByIndex => assert("getPlayQueueByIndex"@[14] == 'I'),
            Endpoint::SavePlayQueueByIndex => assert("savePlayQueueByIndex"@[15] == 'I'),
            Endpoint::GetBookmarks => assert("getBookmarks"@[7] == 'm'),
            Endpoint::CreateBookmark => assert("createBookmark"@[9] == 'k'),
            Endpoint::DeleteBookmark => assert("deleteBookmark"@[9] == 'k'),
            Endpoint::JukeboxControl => assert("jukeboxControl"@[9] == 'n'),
            Endpoint::GetShares => assert("getShares"@[4] == 'h'),
            Endpoint::CreateShare => assert("createShare"@[6] == 'S'),
            Endpoint::UpdateShare => assert("updateShare"@[6] == 'S'),
            Endpoint::DeleteShare => assert("deleteShare"@[6] == 'S'),
            Endpoint::GetInternetRadioStations => assert("getInternetRadioStations"@[19] == 't'),
            Endpoint::CreateInternetRadioStation => assert("createInternetRadioStation"@[21] == 'a'),
            Endpoint::UpdateInternetRadioStation => assert("updateInternetRadioStation"@[21] == 'a'),
            Endpoint::DeleteInternetRadioStation => assert("deleteInternetRadioStation"@[21] == 'a'),
            Endpoint::Download => assert("download"@[3] == 'n'),
            Endpoint::GetTranscodeDecision => assert("getTranscodeDecision"@[15] == 'i'),
        }
    }
}

/// Each endpoint has its own name.
pub proof fn law_endpoints_have_their_names()
    ensures
        name_of(Endpoint::GetUser) == "getUser"@,
        name_of(Endpoint::GetUsers) == "getUsers"@,
        name_of(Endpoint::GetLicense) == "getLicense"@,
        name_of(Endpoint::GetMusicFolders) == "getMusicFolders"@,
        name_of(Endpoint::GetScanStatus) == "getScanStatus"@,
        name_of(Endpoint::StartScan) == "startScan"@,
        name_of(Endpoint::Scrobble) == "scrobble"@,
        name_of(Endpoint::SetRating) == "setRating"@,
        name_of(Endpoint::Search2) == "search2"@,
        name_of(Endpoint::Search3) == "search3"@,
        name_of(Endpoint::GetCoverArt) == "getCoverArt"@,
        name_of(Endpoint::GetAvatar) == "getAvatar"@,
        name_of(Endpoint::GetAlbum) == "getAlbum"@,
        name_of(Endpoint::GetAlbumList) == "getAlbumList"@,
        name_of(Endpoint::GetAlbumList2) == "getAlbumList2"@,
        name_of(Endpoint::GetAlbumInfo) == "getAlbumInfo"@,
        name_of(Endpoint::GetAlbumInfo2) == "getAlbumInfo2"@,
        name_of(Endpoint::GetArtist) == "getArtist"@,
        name_of(Endpoint::GetArtistInfo) == "getArtistInfo"@,
        name_of(Endpoint::GetArtistInfo2) == "getArtistInfo2"@,
        name_of(Endpoint::GetTopSongs) == "getTopSongs"@,
        name_of(Endpoint::GetSong) == "getSong"@,
        name_of(Endpoint::GetSimilarSongs) == "getSimilarSongs"@,
        name_of(Endpoint::GetSimilarSongs2) == "getSimilarSongs2"@,
        name_of(Endpoint::GetSongsByGenre) == "getSongsByGenre"@,
        name_of(Endpoint::GetLyrics) == "getLyrics"@,
        name_of(Endpoint::GetLyricsBySongId) == "getLyricsBySongId"@,
        name_of(Endpoint::GetRandomSongs) == "getRandomSongs"@,
        name_of(Endpoint::Stream) == "stream"@,
        name_of(Endpoint::UpdateNowPlaying) == "updateNowPlaying"@,
        name_of(Endpoint::GetNowPlaying) == "getNowPlaying"@,
        name_of(Endpoint::ReportPlayback) == "reportPlayback"@,
        name_of(Endpoint::GetStarred) == "getStarred"@,
        name_of(Endpoint::GetStarred2) == "getStarred2"@,
        name_of(Endpoint::Star) == "star"@,
        name_of(Endpoint::Unstar) == "unstar"@,
        name_of(Endpoint::GetGenres) == "getGenres"@,
        name_of(Endpoint::GetPlaylists) == "getPlaylists"@,
        name_of(Endpoint::GetPlaylist) == "getPlaylist"@,
        name_of(Endpoint::CreatePlaylist) == "createPlaylist"@,
        name_of(Endpoint::UpdatePlaylist) == "updatePlaylist"@,
        name_of(Endpoint::DeletePlaylist) == "deletePlaylist"@,
        name_of(Endpoint::GetIndexes) == "getIndexes"@,
        name_of(Endpoint::GetArtists) == "getArtists"@,
        name_of(Endpoint::GetMusicDirectory) == "getMusicDirectory"@,
        name_of(Endpoint::GetPlayQueue) == "getPlayQueue"@,
        name_of(Endpoint::SavePlayQueue) == "savePlayQueue"@,
        name_of(Endpoint::GetPlayQueueByIndex) == "getPlayQueueByIndex"@,
        name_of(Endpoint::SavePlayQueueByIndex) == "savePlayQueueByIndex"@,
        name_of(Endpoint::GetBookmarks) == "getBookmarks"@,
        name_of(Endpoint::CreateBookmark) == "createBookmark"@,
        name_of(Endpoint::DeleteBookmark) == "deleteBookmark"@,
        name_of(Endpoint::JukeboxControl) == "jukeboxControl"@,
        name_of(Endpoint::GetShares) == "getShares"@,
        name_of(Endpoint::CreateShare) == "createShare"@,
        name_of(Endpoint::UpdateShare) == "updateShare"@,
        name_of(Endpoint::DeleteShare) == "deleteShare"@,
        name_of(Endpoint::GetInternetRadioStations) == "getInternetRadioStations"@,
        name_of(Endpoint::CreateInternetRadioStation) == "createInternetRadioStation"@,
        name_of(Endpoint::UpdateInternetRadioStation) == "updateInternetRadioStation"@,
        name_of(Endpoint::DeleteInternetRadioStation) == "deleteInternetRadioStation"@,
        name_of(Endpoint::Download) == "download"@,
        name_of(Endpoint::GetTranscodeDecision) == "getTranscodeDecision"@,
{
}

/// What is no name of an endpoint leads to none.
pub proof fn law_other_names_lead_nowhere(name: Seq<char>)
    ensures
        match endpoint_named(name) {
            Some(e) => name_of(e) == name,
            None => true,
        },
{
}

} // verus!
