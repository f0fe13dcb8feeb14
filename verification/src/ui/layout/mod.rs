//! Customisable layout: bottom-player presets and right-panel slots.

pub mod presets;
pub mod slots;
