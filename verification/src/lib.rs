//! Verified core of a Spotify track downloader: audio format and quality
//! selection, the download queue and worker scheduling, file name templates,
//! metadata tags, input parsing and status reporting.
pub mod text;
pub mod media;
pub mod config;
pub mod queue;
pub mod template;
pub mod error;
pub mod uri;
pub mod tags;
pub mod status;
pub mod converter;
pub mod spotify_id;
