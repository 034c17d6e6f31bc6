//! Verified core of a terminal client for Subsonic music servers.

pub mod api;
pub mod cache;
pub mod config;
pub mod error;
pub mod playback;
pub mod text;
pub mod ui;
pub mod session;
