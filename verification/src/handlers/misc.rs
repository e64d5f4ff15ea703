//! Shares and internet radio. Nothing of either is kept: lists are empty, a share is only the
//! address of a thing, and changes are refused.

use crate::handlers::{first_id, first_id_of, is_missing, missing, Failure};
use crate::ids;
use crate::ids::IdKind;
use crate::models::misc::{InternetRadioStations, Share, Shares};
use crate::params::QueryParams;
use crate::text;
use crate::text::decimal;
use vstd::prelude::*;

verus! {

/// The shares that there are: none.
pub fn get_shares() -> (r: Shares)
    ensures
        r.share@.len() == 0,
{
    Shares { share: Vec::new() }
}

/// The stations that there are: none.
pub fn get_internet_radio_stations() -> (r: InternetRadioStations)
    ensures
        r.internet_radio_station@.len() == 0,
{
    InternetRadioStations { internet_radio_station: Vec::new() }
}

/// The word for a kind of thing in an address.
pub open spec fn path_of(kind: IdKind) -> Seq<char> {
    match kind {
        IdKind::Track => "track"@,
        IdKind::Album => "album"@,
        IdKind::Artist => "artist"@,
        IdKind::Playlist => "playlist"@,
    }
}

/// The share of a thing, made at this time.
pub open spec fn is_share(s: Share, kind: IdKind, n: nat, created: Seq<char>) -> bool {
    &&& s.id@ == "0"@
    &&& s.url@ == "https://tidal.com/browse/"@ + path_of(kind) + "/"@ + decimal(n)
    &&& s.description is None
    &&& s.username@ == "user"@
    &&& s.created@ == created
    &&& s.expires is None
}

/// The share that a request is for, made at a given time.
pub fn share_at(q: &QueryParams, created: String) -> (r: Result<Shares, Failure>)
    ensures
        match first_id_of(*q) {
            Some(id) => match ids::parsed(id) {
                Some((kind, n)) => r matches Ok(v) && v.share@.len() == 1 && is_share(
                    v.share@[0],
                    kind,
                    n,
                    created@,
                ),
                None => r matches Err(f) && f.is(10, "Invalid id"@),
            },
            None => r matches Err(f) && is_missing(f),
        },
        r is Ok ==> {
            let s = r->Ok_0.share@[0];
            let (kind, n) = ids::parsed(q.id.0@[0]@)->0;
            &&& r->Ok_0.share@.len() == 1
            &&& s.id@ == "0"@
            &&& s.username@ == "user"@
            &&& s.description is None
            &&& s.expires is None
            &&& kind == IdKind::Track ==> s.url@ == "https://tidal.com/browse/"@ + "track"@ + "/"@
                + decimal(n)
            &&& kind == IdKind::Album ==> s.url@ == "https://tidal.com/browse/"@ + "album"@ + "/"@
                + decimal(n)
            &&& kind == IdKind::Artist ==> s.url@ == "https://tidal.com/browse/"@ + "artist"@ + "/"@
                + decimal(n)
            &&& kind == IdKind::Playlist ==> s.url@ == "https://tidal.com/browse/"@ + "playlist"@ + "/"@
                + decimal(n)
            &&& s.created@ == created@
        },
{
    let id = match first_id(q) {
        Some(s) => s,
        None => {
            return Err(missing());
        },
    };
    let (kind, n): (IdKind, u64) = match ids::parse(id) {
        Some(p) => p,
        None => {
            return Err(Failure { code: 10, message: "Invalid id" });
        },
    };
    let path = match kind {
        IdKind::Track => "track",
        IdKind::Album => "album",
        IdKind::Artist => "artist",
        IdKind::Playlist => "playlist",
    };
    let mut url = "https://tidal.com/browse/".to_owned();
    url.append(path);
    url.append("/");
    url.append(text::decimal_text(n).as_str());
    let mut share: Vec<Share> = Vec::new();
    share.push(
        Share {
            id: "0".to_owned(),
            url,
            description: None,
            username: "user".to_owned(),
            created,
            expires: None,
        },
    );
    Ok(Shares { share })
}

/// `chrono::Utc::now` is the time of the machine's clock, and `to_rfc3339` writes it as text. It
/// depends on the clock, so nothing is said of it.
#[verifier::external_body]
fn time_text() -> (r: String)
{
    chrono::Utc::now().to_rfc3339()
}

/// The share that a request is for, made now.
pub fn create_share(q: &QueryParams) -> (r: Result<Shares, Failure>)
    ensures
        match first_id_of(*q) {
            Some(id) => match ids::parsed(id) {
                Some((kind, n)) => r matches Ok(v) && v.share@.len() == 1 && is_share(
                    v.share@[0],
                    kind,
                    n,
                    v.share@[0].created@,
                ),
                None => r matches Err(f) && f.is(10, "Invalid id"@),
            },
            None => r matches Err(f) && is_missing(f),
        },
        r is Ok ==> {
            let s = r->Ok_0.share@[0];
            let (kind, n) = ids::parsed(q.id.0@[0]@)->0;
            &&& r->Ok_0.share@.len() == 1
            &&& s.id@ == "0"@
            &&& s.username@ == "user"@
            &&& s.description is None
            &&& s.expires is None
            &&& kind == IdKind::Track ==> s.url@ == "https://tidal.com/browse/"@ + "track"@ + "/"@
                + decimal(n)
            &&& kind == IdKind::Album ==> s.url@ == "https://tidal.com/browse/"@ + "album"@ + "/"@
                + decimal(n)
            &&& kind == IdKind::Artist ==> s.url@ == "https://tidal.com/browse/"@ + "artist"@ + "/"@
                + decimal(n)
            &&& kind == IdKind::Playlist ==> s.url@ == "https://tidal.com/browse/"@ + "playlist"@ + "/"@
                + decimal(n)
        },
{
    share_at(q, time_text())
}

/// Refuses to change a share.
pub fn update_share() -> (r: Failure)
    ensures
        r.is(0, "Sharing is not supported"@),
{
    Failure { code: 0, message: "Sharing is not supported" }
}

/// Refuses to remove a share.
pub fn delete_share() -> (r: Failure)
    ensures
        r.is(0, "Sharing is not supported"@),
{
    Failure { code: 0, message: "Sharing is not supported" }
}

/// Refuses to make a station.
pub fn create_internet_radio_station() -> (r: Failure)
    ensures
        r.is(0, "Internet radio is not supported"@),
{
    Failure { code: 0, message: "Internet radio is not supported" }
}

/// Refuses to change a station.
pub fn update_internet_radio_station() -> (r: Failure)
    ensures
        r.is(0, "Internet radio is not supported"@),
{
    Failure { code: 0, message: "Internet radio is not supported" }
}

/// Refuses to remove a station.
pub fn delete_internet_radio_station() -> (r: Failure)
    ensures
        r.is(0, "Internet radio is not supported"@),
{
    Failure { code: 0, message: "Internet radio is not supported" }
}

} // verus!
