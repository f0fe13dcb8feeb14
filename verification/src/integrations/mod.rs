//! External integrations: Discord Rich Presence and the MPRIS2 D-Bus service.
//!
//! The D-Bus and IPC plumbing lives at the application's edge; these modules
//! hold what is decided: which presence to publish, and how the MPRIS state
//! follows the audio engine's events.

pub mod discord;
pub mod mpris;
