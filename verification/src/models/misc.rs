//! Shares and internet radio. Neither has a backend, so nothing of them is kept.

use vstd::prelude::*;

verus! {

/// getShares data: { shares: { share: [ Share ] } }
#[derive(Debug)]
pub struct SharesResponse {
    pub shares: Shares,
}

#[derive(Debug)]
pub struct Shares {
    pub share: Vec<Share>,
}

#[derive(Debug)]
pub struct Share {
    pub id: String,
    pub url: String,
    pub description: Option<String>,
    pub username: String,
    pub created: String,
    pub expires: Option<String>,
}

/// getInternetRadioStations data:
/// { internetRadioStations: { internetRadioStation: [ InternetRadioStation ] } }
#[derive(Debug)]
pub struct InternetRadioStationsResponse {
    pub internet_radio_stations: InternetRadioStations,
}

#[derive(Debug)]
pub struct InternetRadioStations {
    pub internet_radio_station: Vec<InternetRadioStation>,
}

#[derive(Debug)]
pub struct InternetRadioStation {
    pub id: String,
    pub name: String,
    pub stream_url: String,
    pub homepage_url: Option<String>,
}

} // verus!
