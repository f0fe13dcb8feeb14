//! Synchronised lyrics: LRC parsing and interpretation of lrclib replies.

pub mod lrclib;
