//! Chromia: the verified core of a desktop music player.

pub mod audio;
pub mod config;
pub mod download;
pub mod integrations;
pub mod library;
pub mod sources;
pub mod text;
pub mod theme;
pub mod ui;
pub mod lyrics;
