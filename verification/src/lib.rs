//! Subtidal: a Tidal library behind the OpenSubsonic API.
//!
//! This is what the server decides and computes, from plain values to plain values: who may log
//! in, what a request asks for, how audio in segments is rewrapped and cut to a range, what is
//! kept and how it is listed. What a function does is stated in its contract. Laws that span
//! functions are proof functions whose names begin with `law_`.

pub mod aligner;
pub mod auth;
pub mod cache;
pub mod calendar;
pub mod clock;
pub mod flac;
pub mod handlers;
pub mod ids;
pub mod json;
pub mod lists;
pub mod log;
pub mod models;
pub mod now_playing;
pub mod number;
pub mod order;
pub mod params;
pub mod play_state;
pub mod routes;
pub mod scrobble;
pub mod settings;
pub mod setup;
pub mod sorting;
pub mod startup;
pub mod state;
pub mod text;
pub mod tidal;
