//! Pure parts of the user interface: layout catalogues and display helpers.

pub mod layout;
pub mod sidebar;
pub mod widgets;
