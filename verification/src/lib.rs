//! PlayOnAir: Chromecast devices as AirPlay speakers.

pub mod airplay;
pub mod app;
pub mod audio;
pub mod bridge;
pub mod cast;
pub mod clock;
pub mod config;
pub mod discover;
pub mod error;
pub mod media;
pub mod names;
pub mod net;
pub mod registry;
pub mod table;
pub mod text;
