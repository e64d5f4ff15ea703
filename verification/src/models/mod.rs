//! The shapes of the responses, one module per family of things.

pub mod album;
pub mod artist;
pub mod browse;
pub mod favorites;
pub mod lyrics;
pub mod misc;
pub mod playlist;
pub mod queue;
pub mod search;
pub mod song;
pub mod system;
pub mod transcode;
