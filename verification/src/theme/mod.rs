//! Theme resolution: palette selection and GTK CSS generation.
//!
//! Four modes exist: colors extracted from album art, the static Catppuccin
//! palette, a ready-made palette from the bundled [`presets`] catalog, and
//! user-supplied hex colors.

pub mod catppuccin;
pub mod css;
pub mod dynamic;
pub mod presets;

use vstd::prelude::*;

use crate::config::schema::{CustomThemeConfig, ThemeConfig, ThemeMode};

verus! {

/// A resolved color palette; every color is a hex string like `#1e1e2e`.
#[derive(Debug, Clone, PartialEq, Eq)]
pub struct Palette {
    /// Window / page background.
    pub background: String,
    /// Raised surface background.
    pub surface: String,
    /// Overlay / elevated elements.
    pub overlay: String,
    /// Primary accent color.
    pub accent: String,
    /// Primary text color.
    pub text: String,
    /// Secondary (muted) text color.
    pub subtext: String,
}

/// The six colors of a palette, in field order.
pub open spec fn palette_colors(p: Palette) -> (
    Seq<char>,
    Seq<char>,
    Seq<char>,
    Seq<char>,
    Seq<char>,
    Seq<char>,
) {
    (p.background@, p.surface@, p.overlay@, p.accent@, p.text@, p.subtext@)
}

impl Palette {
    /// Builds a palette straight from the user-supplied custom theme config.
    pub fn from_custom(custom: &CustomThemeConfig) -> (p: Self)
        ensures
            palette_colors(p) == (
                custom.background@,
                custom.surface@,
                custom.overlay@,
                custom.accent@,
                custom.text@,
                custom.subtext@,
            ),
    {
        Palette {
            background: custom.background.clone(),
            surface: custom.surface.clone(),
            overlay: custom.overlay.clone(),
            accent: custom.accent.clone(),
            text: custom.text.clone(),
            subtext: custom.subtext.clone(),
        }
    }
}

/// The palette the theme settings select: the cover's palette in dynamic
/// mode (the Catppuccin one until a cover has been read), the configured
/// Catppuccin flavor and accent, or the custom colors.
pub open spec fn selected_palette(theme: ThemeConfig, cover: Option<Palette>, p: Palette) -> bool {
    let i = catppuccin::flavor_index(theme.catppuccin.flavor);
    let catppuccin_colors = (
        catppuccin::base_background(i),
        catppuccin::base_surface(i),
        catppuccin::base_overlay(i),
        catppuccin::resolved_accent(theme.catppuccin.accent@, i),
        catppuccin::base_text(i),
        catppuccin::base_subtext(i),
    );
    match theme.mode {
        ThemeMode::Dynamic => match cover {
            Some(c) => palette_colors(p) == palette_colors(c),
            None => palette_colors(p) == catppuccin_colors,
        },
        ThemeMode::Catppuccin => palette_colors(p) == catppuccin_colors,
        ThemeMode::Custom => palette_colors(p) == (
            theme.custom.background@,
            theme.custom.surface@,
            theme.custom.overlay@,
            theme.custom.accent@,
            theme.custom.text@,
            theme.custom.subtext@,
        ),
    }
}

/// Resolves the palette to show for the theme settings, given the palette
/// read from the current cover, if any.
pub fn resolve_palette(theme: &ThemeConfig, cover: Option<Palette>) -> (p: Palette)
    ensures
        selected_palette(*theme, cover, p),
{
    match theme.mode {
        ThemeMode::Dynamic => match cover {
            Some(c) => c,
            None => catppuccin::palette_for(theme.catppuccin.flavor, theme.catppuccin.accent.as_str()),
        },
        ThemeMode::Catppuccin => catppuccin::palette_for(
            theme.catppuccin.flavor,
            theme.catppuccin.accent.as_str(),
        ),
        ThemeMode::Custom => Palette::from_custom(&theme.custom),
    }
}

} // verus!
