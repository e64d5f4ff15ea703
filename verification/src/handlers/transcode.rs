//! Whether audio would be converted. It never is: what the service has is what is streamed.

use crate::handlers::{first_id, first_id_of, is_missing, missing, not_found, Failure};
use crate::ids;
use crate::ids::{track_of, IdKind};
use crate::json;
use crate::json::{field, string, Json};
use crate::models::transcode::{StreamDetails, TranscodeDecision};
use crate::params::QueryParams;
use crate::text;
use crate::text::{opt_text, opt_view};
use vstd::prelude::*;

verus! {

/// What a tier typically is: container, codec, channels, bits per second, profile, samples per
/// second, and bits per sample.
pub struct Tier {
    pub container: Seq<char>,
    pub codec: Seq<char>,
    pub channels: u32,
    pub bitrate: u32,
    pub profile: Seq<char>,
    pub samplerate: u32,
    pub bitdepth: u32,
}

/// The tier with this name. Without a name it is the lossless one, and one that is not known is
/// like the high one.
pub open spec fn tier_of(quality: Option<Seq<char>>) -> Tier {
    let lossless = Tier {
        container: "flac"@,
        codec: "flac"@,
        channels: 2,
        bitrate: 1_411_000,
        profile: ""@,
        samplerate: 44_100,
        bitdepth: 16,
    };
    let high = Tier {
        container: "mp4"@,
        codec: "aac"@,
        channels: 2,
        bitrate: 320_000,
        profile: ""@,
        samplerate: 44_100,
        bitdepth: 16,
    };
    match quality {
        Some(q) => if q == "ATMOS"@ {
            Tier {
                container: "mp4"@,
                codec: "eac3"@,
                channels: 6,
                bitrate: 768_000,
                profile: "JOC"@,
                samplerate: 48_000,
                bitdepth: 16,
            }
        } else if q == "HIRES_LOSSLESS"@ {
            Tier { bitrate: 3_000_000, samplerate: 96_000, bitdepth: 24, ..lossless }
        } else if q == "LOSSLESS"@ {
            lossless
        } else if q == "LOW"@ {
            Tier { bitrate: 96_000, ..high }
        } else {
            high
        },
        None => lossless,
    }
}

/// The details are those of a tier.
pub open spec fn is_tier(d: StreamDetails, t: Tier) -> bool {
    &&& d.protocol@ == "http"@
    &&& d.container@ == t.container
    &&& d.codec@ == t.codec
    &&& d.audio_channels == t.channels
    &&& d.audio_bitrate == t.bitrate
    &&& d.audio_profile@ == t.profile
    &&& d.audio_samplerate == t.samplerate
    &&& d.audio_bitdepth == t.bitdepth
}

/// The details of a stream.
fn details(
    container: &str,
    codec: &str,
    channels: u32,
    bitrate: u32,
    profile: &str,
    samplerate: u32,
    bitdepth: u32,
) -> (r: StreamDetails)
    ensures
        is_tier(
            r,
            (Tier {
                container: container@,
                codec: codec@,
                channels,
                bitrate,
                profile: profile@,
                samplerate,
                bitdepth,
            }),
        ),
{
    StreamDetails {
        protocol: "http".to_owned(),
        container: container.to_owned(),
        codec: codec.to_owned(),
        audio_channels: channels,
        audio_bitrate: bitrate,
        audio_profile: profile.to_owned(),
        audio_samplerate: samplerate,
        audio_bitdepth: bitdepth,
    }
}

/// No two tiers have the same name.
proof fn lemma_tier_names()
    ensures
        "ATMOS"@ != "HIRES_LOSSLESS"@,
        "ATMOS"@ != "LOSSLESS"@,
        "ATMOS"@ != "LOW"@,
        "ATMOS"@ != "HIGH"@,
        "HIRES_LOSSLESS"@ != "LOSSLESS"@,
        "HIRES_LOSSLESS"@ != "LOW"@,
        "HIRES_LOSSLESS"@ != "HIGH"@,
        "LOSSLESS"@ != "LOW"@,
        "LOSSLESS"@ != "HIGH"@,
        "LOW"@ != "HIGH"@,
{
    reveal_strlit("ATMOS");
    assert("ATMOS"@.len() == 5);
    reveal_strlit("HIRES_LOSSLESS");
    assert("HIRES_LOSSLESS"@.len() == 14);
    reveal_strlit("LOSSLESS");
    assert("LOSSLESS"@.len() == 8);
    reveal_strlit("LOW");
    assert("LOW"@.len() == 3);
    reveal_strlit("HIGH");
    assert("HIGH"@.len() == 4);
}

/// The stream that is served for a tier.
pub fn source_stream(quality: Option<&str>) -> (r: StreamDetails)
    ensures
        is_tier(r, tier_of(opt_view(quality))),
        r.protocol@ == "http"@,
        quality is Some && quality->0@ == "ATMOS"@ ==> r.container@ == "mp4"@ && r.codec@ == "eac3"@ && r.audio_channels == 6
            && r.audio_bitrate == 768_000 && r.audio_profile@ == "JOC"@ && r.audio_samplerate
            == 48_000 && r.audio_bitdepth == 16,
        quality is Some && quality->0@ == "HIRES_LOSSLESS"@ ==> r.container@ == "flac"@ && r.codec@ == "flac"@ && r.audio_channels == 2
            && r.audio_bitrate == 3_000_000 && r.audio_profile@ == ""@ && r.audio_samplerate
            == 96_000 && r.audio_bitdepth == 24,
        quality is Some && quality->0@ == "LOSSLESS"@ ==> r.container@ == "flac"@ && r.codec@ == "flac"@ && r.audio_channels == 2
            && r.audio_bitrate == 1_411_000 && r.audio_profile@ == ""@ && r.audio_samplerate
            == 44_100 && r.audio_bitdepth == 16,
        quality is Some && quality->0@ == "LOW"@ ==> r.container@ == "mp4"@ && r.codec@ == "aac"@ && r.audio_channels == 2
            && r.audio_bitrate == 96_000 && r.audio_profile@ == ""@ && r.audio_samplerate
            == 44_100 && r.audio_bitdepth == 16,
        quality is Some && quality->0@ == "HIGH"@ ==> r.container@ == "mp4"@ && r.codec@ == "aac"@ && r.audio_channels == 2
            && r.audio_bitrate == 320_000 && r.audio_profile@ == ""@ && r.audio_samplerate
            == 44_100 && r.audio_bitdepth == 16,
        quality is None ==> r.container@ == "flac"@ && r.codec@ == "flac"@ && r.audio_channels == 2
            && r.audio_bitrate == 1_411_000 && r.audio_profile@ == ""@ && r.audio_samplerate
            == 44_100 && r.audio_bitdepth == 16,
{
    proof {
        lemma_tier_names();
    }
    match quality {
        Some(q) => if text::same(q, "ATMOS") {
            details("mp4", "eac3", 6, 768_000, "JOC", 48_000, 16)
        } else if text::same(q, "HIRES_LOSSLESS") {
            details("flac", "flac", 2, 3_000_000, "", 96_000, 24)
        } else if text::same(q, "LOSSLESS") {
            details("flac", "flac", 2, 1_411_000, "", 44_100, 16)
        } else if text::same(q, "LOW") {
            details("mp4", "aac", 2, 96_000, "", 44_100, 16)
        } else {
            details("mp4", "aac", 2, 320_000, "", 44_100, 16)
        },
        None => details("flac", "flac", 2, 1_411_000, "", 44_100, 16),
    }
}

/// What a request is about: by the parameter for it, or by its first identifier.
pub open spec fn media_of(q: QueryParams) -> Option<Seq<char>> {
    match q.media_id {
        Some(m) => Some(m@),
        None => first_id_of(q),
    }
}

/// The song that a request is about.
pub fn get_transcode_decision(q: &QueryParams) -> (r: Result<u64, Failure>)
    ensures
        match media_of(*q) {
            Some(id) => if opt_text(q.media_type) != Some("song"@) {
                r matches Err(f) && f.is(0, "Podcasts are not supported"@)
            } else {
                match track_of(id) {
                    Some(n) => r matches Ok(m) && m == n,
                    None => r matches Err(f) && f.is(70, "Song not found"@),
                }
            },
            None => r matches Err(f) && is_missing(f),
        },
        r is Ok ==> q.media_type is Some && q.media_type->0@ == "song"@,
        r is Ok && q.media_id is Some ==> track_of(q.media_id->0@) == Some(r->Ok_0 as nat),
        r is Ok && q.media_id is None ==> q.id.0@.len() > 0 && track_of(q.id.0@[0]@) == Some(
            r->Ok_0 as nat,
        ),
        q.media_type is Some && q.media_type->0@ == "song"@ && q.media_id is Some && track_of(
            q.media_id->0@,
        ) is Some ==> r is Ok,
        q.media_type is Some && q.media_type->0@ == "song"@ && q.media_id is None && q.id.0@.len() > 0
            && track_of(q.id.0@[0]@) is Some ==> r is Ok,
        q.media_id is None && q.id.0@.len() == 0 ==> r is Err && r->Err_0.code == 10,
{
    let id = match &q.media_id {
        Some(m) => m.as_str(),
        None => match first_id(q) {
            Some(s) => s,
            None => {
                return Err(missing());
            },
        },
    };
    let song = match &q.media_type {
        Some(t) => text::same(t.as_str(), "song"),
        None => false,
    };
    if !song {
        return Err(Failure { code: 0, message: "Podcasts are not supported" });
    }
    match ids::parse_track_id(id) {
        Some(n) => Ok(n),
        None => Err(not_found(IdKind::Track)),
    }
}

/// The decision for a track: to play it as it is.
pub fn decide(detail: &Json) -> (r: TranscodeDecision)
    ensures
        r.can_direct_play,
        !r.can_transcode,
        r.transcode_reason@.len() == 0,
        r.error_reason@.len() == 0,
        r.transcode_params@.len() == 0,
        is_tier(r.source_stream, tier_of(string(field(*detail, "audioQuality"@)))),
        r.transcode_stream is None,
        r.source_stream.protocol@ == "http"@,
        string(field(*detail, "audioQuality"@)) == Some("ATMOS"@) ==> r.source_stream.container@ == "mp4"@ && r.source_stream.codec@ == "eac3"@ && r.source_stream.audio_channels == 6
            && r.source_stream.audio_bitrate == 768_000 && r.source_stream.audio_profile@ == "JOC"@ && r.source_stream.audio_samplerate
            == 48_000 && r.source_stream.audio_bitdepth == 16,
        string(field(*detail, "audioQuality"@)) == Some("HIRES_LOSSLESS"@) ==> r.source_stream.container@ == "flac"@ && r.source_stream.codec@ == "flac"@ && r.source_stream.audio_channels == 2
            && r.source_stream.audio_bitrate == 3_000_000 && r.source_stream.audio_profile@ == ""@ && r.source_stream.audio_samplerate
            == 96_000 && r.source_stream.audio_bitdepth == 24,
        string(field(*detail, "audioQuality"@)) == Some("LOSSLESS"@) ==> r.source_stream.container@ == "flac"@ && r.source_stream.codec@ == "flac"@ && r.source_stream.audio_channels == 2
            && r.source_stream.audio_bitrate == 1_411_000 && r.source_stream.audio_profile@ == ""@ && r.source_stream.audio_samplerate
            == 44_100 && r.source_stream.audio_bitdepth == 16,
        string(field(*detail, "audioQuality"@)) == Some("LOW"@) ==> r.source_stream.container@ == "mp4"@ && r.source_stream.codec@ == "aac"@ && r.source_stream.audio_channels == 2
            && r.source_stream.audio_bitrate == 96_000 && r.source_stream.audio_profile@ == ""@ && r.source_stream.audio_samplerate
            == 44_100 && r.source_stream.audio_bitdepth == 16,
        string(field(*detail, "audioQuality"@)) == Some("HIGH"@) ==> r.source_stream.container@ == "mp4"@ && r.source_stream.codec@ == "aac"@ && r.source_stream.audio_channels == 2
            && r.source_stream.audio_bitrate == 320_000 && r.source_stream.audio_profile@ == ""@ && r.source_stream.audio_samplerate
            == 44_100 && r.source_stream.audio_bitdepth == 16,
        string(field(*detail, "audioQuality"@)) is None ==> r.source_stream.container@ == "flac"@ && r.source_stream.codec@ == "flac"@ && r.source_stream.audio_channels == 2
            && r.source_stream.audio_bitrate == 1_411_000 && r.source_stream.audio_profile@ == ""@ && r.source_stream.audio_samplerate
            == 44_100 && r.source_stream.audio_bitdepth == 16,
{
    proof {
        lemma_tier_names();
    }
    TranscodeDecision {
        can_direct_play: true,
        can_transcode: false,
        transcode_reason: Vec::new(),
        error_reason: String::new(),
        transcode_params: String::new(),
        source_stream: source_stream(json::as_str(detail.get("audioQuality"))),
        transcode_stream: None,
    }
}

} // verus!
