//! getTranscodeDecision response models (OpenSubsonic #168). The server
//! never transcodes, so canTranscode is always false and transcodeStream
//! is never present; sourceStream describes the Tidal stream the client
//! will receive.

use vstd::prelude::*;

verus! {

/// getTranscodeDecision data: { transcodeDecision: TranscodeDecision }
#[derive(Debug)]
pub struct TranscodeDecisionResponse {
    pub transcode_decision: TranscodeDecision,
}

#[derive(Debug)]
pub struct TranscodeDecision {
    pub can_direct_play: bool,
    pub can_transcode: bool,
    pub transcode_reason: Vec<String>,
    pub error_reason: String,
    pub transcode_params: String,
    pub source_stream: StreamDetails,
    pub transcode_stream: Option<StreamDetails>,
}

/// One side of the decision: the source Tidal stream, or (never here) a
/// transcoded target.
#[derive(Debug)]
pub struct StreamDetails {
    pub protocol: String,
    pub container: String,
    pub codec: String,
    pub audio_channels: u32,
    pub audio_bitrate: u32,
    pub audio_profile: String,
    pub audio_samplerate: u32,
    pub audio_bitdepth: u32,
}

} // verus!
