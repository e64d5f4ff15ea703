use subtidal::handlers::{fail, ok, recover, Rejection};
use subtidal::handlers::system::ping;
use subtidal::routes::{dispatch, route, Route};

const PRIVATE: [&str; 64] = [
    "getUser",
    "getUsers",
    "getLicense",
    "getMusicFolders",
    "getScanStatus",
    "startScan",
    "scrobble",
    "setRating",
    "search2",
    "getUser.view",
    "search3",
    "getCoverArt",
    "getAvatar",
    "getAlbum",
    "getAlbumList",
    "getAlbumList2",
    "getAlbumInfo",
    "getAlbumInfo2",
    "getArtist",
    "getArtistInfo",
    "getArtistInfo2",
    "getTopSongs",
    "getSong",
    "getSimilarSongs",
    "getSimilarSongs2",
    "getSongsByGenre",
    "getLyrics",
    "getLyricsBySongId",
    "getRandomSongs",
    "stream",
    "updateNowPlaying",
    "getNowPlaying",
    "reportPlayback",
    "getStarred",
    "getStarred2",
    "star",
    "unstar",
    "getPlaylists",
    "getPlaylist",
    "createPlaylist",
    "updatePlaylist",
    "deletePlaylist",
    "getIndexes",
    "getArtists",
    "getMusicDirectory",
    "getPlayQueue",
    "savePlayQueue",
    "getPlayQueueByIndex",
    "savePlayQueueByIndex",
    "getBookmarks",
    "createBookmark",
    "deleteBookmark",
    "getGenres",
    "jukeboxControl",
    "getShares",
    "createShare",
    "updateShare",
    "deleteShare",
    "getInternetRadioStations",
    "createInternetRadioStation",
    "updateInternetRadioStation",
    "deleteInternetRadioStation",
    "download",
    "getTranscodeDecision",
];

// Deny-by-default: the whitelist stays short and every other endpoint
// rejects requests without credentials, which recover maps to a 40.
#[test]
fn private_endpoints_require_auth() {
    for part in PRIVATE {
        assert_eq!(route(part, false), Route::Unauthorized, "{part} must require auth");
        let answer = recover(Rejection::Unauthorized).unwrap();
        assert_eq!(answer.code, 40, "{part} must fail with code 40");
    }
}

#[test]
fn public_endpoints_skip_auth() {
    assert_eq!(route("ping", false), Route::Ping);
    assert_eq!(route("ping.view", false), Route::Ping);
    assert_eq!(route("getOpenSubsonicExtensions", false), Route::Extensions);
    assert_eq!(ok(ping()).inner.status, "ok");
}

// Auth runs before routing, so unknown paths are denied without
// credentials. With valid credentials they still 404 via the fallback.
#[test]
fn unknown_path_without_credentials_is_denied() {
    assert_eq!(route("doesNotExist", false), Route::Unauthorized);
    assert_eq!(route("doesNotExist", true), Route::NotFound);
    assert_eq!(recover(Rejection::NotFound).unwrap_err(), Rejection::NotFound);
}

// dispatch() rejects names no endpoint owns; the fallback turns that
// into a 404 for authenticated requests.
#[test]
fn unknown_endpoint_name_rejects() {
    assert!(dispatch("bogus").is_none());
}

#[test]
fn every_private_endpoint_is_reached_with_credentials() {
    for part in PRIVATE {
        let name = part.strip_suffix(".view").unwrap_or(part);
        let endpoint = dispatch(name).unwrap();
        assert_eq!(route(part, true), Route::Endpoint(endpoint));
        assert_eq!(route(&format!("{name}.view"), true), Route::Endpoint(endpoint));
    }
}

#[test]
fn failures_carry_their_code() {
    let f = fail(70, "Song not found").inner;
    assert_eq!(f.status, "failed");
    assert_eq!((f.error.code, f.error.message), (70, "Song not found"));
    assert_eq!(f.version, "1.16.1");
}
