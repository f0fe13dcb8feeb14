//! What the widgets compute before they draw: album grouping and time
//! formatting.

pub mod album_grid;
pub mod audio_info;
pub mod player;
