//! Lyric-source DTOs and fetcher state for the lyrics handlers. These are
//! not Subsonic response models: they parse external source payloads
//! (LRCLIB, LRCMUX, LyricsPlus, radiant) or hold candidate state for the
//! ranker.

use vstd::prelude::*;

verus! {

/// The radiant /lyrics response. `type` is "Word" for word-synced
/// lyrics, "Line" for line-synced ones (no syllabus, no element) and
/// "None" for plain text (every timing 0). Each data entry is
/// one parent line; its syllabus array holds the per-word timings.
#[derive(Debug)]
pub struct RadiantLyrics {
    pub kind: String,
    pub data: Vec<RadiantLine>,
    pub metadata: RadiantMetadata,
}

#[derive(Debug)]
pub struct RadiantLine {
    pub text: String,
    /// Milliseconds from track start, like the syllabus timings below.
    pub start_time: u32,
    pub duration: u32,
    pub end_time: u32,
    /// Absent when the line is only line-synced, not word-by-word.
    pub syllabus: Vec<RadiantSyllable>,
    pub translation: Option<String>,
}

#[derive(Debug)]
pub struct RadiantSyllable {
    pub text: String,
    /// Milliseconds from track start.
    pub time: u32,
    pub duration: u32,
    pub is_background: bool,
}

#[derive(Debug)]
pub struct RadiantMetadata {
    pub source: String,
    pub song_writers: Vec<String>,
    pub copyright: Option<String>,
    pub licence: Option<String>,
}

} // verus!
