//! What the catalogue service answers with, as far as this library reads it.

use crate::text;
use vstd::prelude::*;

verus! {

/// The audio tiers of the service, from the smallest up.
#[derive(Debug, Clone, Copy, PartialEq, Eq, Structural)]
pub enum Quality {
    Low,
    High,
    Lossless,
    HiResLossless,
    Atmos,
}

/// The tier of a name in the settings.
pub open spec fn tier_named(name: Seq<char>) -> Option<Quality> {
    if name == "LOW"@ {
        Some(Quality::Low)
    } else if name == "HIGH"@ {
        Some(Quality::High)
    } else if name == "LOSSLESS"@ {
        Some(Quality::Lossless)
    } else if name == "HI_RES_LOSSLESS"@ {
        Some(Quality::HiResLossless)
    } else if name == "ATMOS"@ {
        Some(Quality::Atmos)
    } else {
        None
    }
}

impl Quality {
    /// The tier of a name in the settings.
    pub fn from_setting(name: &str) -> (r: Option<Self>)
        ensures
            r == tier_named(name@),
    {
        if text::same(name, "LOW") {
            Some(Quality::Low)
        } else if text::same(name, "HIGH") {
            Some(Quality::High)
        } else if text::same(name, "LOSSLESS") {
            Some(Quality::Lossless)
        } else if text::same(name, "HI_RES_LOSSLESS") {
            Some(Quality::HiResLossless)
        } else if text::same(name, "ATMOS") {
            Some(Quality::Atmos)
        } else {
            None
        }
    }
}

/// Why a call to the service failed.
#[derive(Debug)]
pub enum Error {
    /// The service refused: the status and the body of its reply.
    Tidal(u16, String),
    /// Too many streams were started.
    RateLimited,
    /// There is no usable login.
    NotLoggedIn,
    /// What came back does not hold what it should.
    Malformed(String),
    /// The request did not get through.
    Http(String),
}

/// Where the audio of a track lies.
#[derive(Debug)]
pub enum Asset {
    /// One whole file at this address.
    File(String),
    /// An init segment and the media segments that follow it.
    Segmented { init: String, segments: Vec<String> },
}

/// What the service says of a track's audio.
#[derive(Debug)]
pub struct StreamInfo {
    pub quality: Option<Quality>,
    pub codec: String,
    pub sample_rate: Option<u32>,
    pub bit_depth: Option<u32>,
    pub encrypted: bool,
    pub asset: Asset,
}

/// Each tier has its name, and no other text names one.
pub proof fn law_tiers_have_names(name: Seq<char>)
    ensures
        tier_named(name) == Some(Quality::Low) <==> name == "LOW"@,
        tier_named(name) == Some(Quality::High) <==> name == "HIGH"@,
        tier_named(name) == Some(Quality::Lossless) <==> name == "LOSSLESS"@,
        tier_named(name) == Some(Quality::HiResLossless) <==> name == "HI_RES_LOSSLESS"@,
        tier_named(name) == Some(Quality::Atmos) <==> name == "ATMOS"@,
{
    reveal_strlit("LOW");
    reveal_strlit("HIGH");
    reveal_strlit("LOSSLESS");
    reveal_strlit("HI_RES_LOSSLESS");
    reveal_strlit("ATMOS");
    assert("LOW"@.len() == 3 && "HIGH"@.len() == 4 && "LOSSLESS"@.len() == 8 && "HI_RES_LOSSLESS"@.len()
        == 15 && "ATMOS"@.len() == 5);
}

} // verus!
