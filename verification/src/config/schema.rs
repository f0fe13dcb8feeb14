//! Typed configuration schema.
//!
//! Every struct mirrors a section of `~/.config/chromia/config.toml`; the
//! `Default` impls state the values a missing field falls back to.

use vstd::prelude::*;

verus! {

/// Theme resolution mode.
#[derive(Debug, Clone, Copy, PartialEq, Eq, Structural)]
pub enum ThemeMode {
    /// Colors extracted from the current album art.
    Dynamic,
    /// Static Catppuccin palette.
    Catppuccin,
    /// User-supplied colors from `theme.custom`.
    Custom,
}

/// Catppuccin flavor.
#[derive(Debug, Clone, Copy, PartialEq, Eq, Structural)]
pub enum Flavor {
    Mocha,
    Macchiato,
    Frappe,
    Latte,
}

/// Catppuccin palette settings.
#[derive(Debug, Clone, PartialEq)]
pub struct CatppuccinConfig {
    /// Flavor: mocha / macchiato / frappe / latte.
    pub flavor: Flavor,
    /// Accent color name, e.g. `mauve`, `blue`, `green`.
    pub accent: String,
}

impl Default for CatppuccinConfig {
    fn default() -> (r: Self)
        ensures
            r.flavor == Flavor::Mocha,
            r.accent@ == "mauve"@,
    {
        CatppuccinConfig { flavor: Flavor::Mocha, accent: "mauve".to_string() }
    }
}

/// User-defined theme palette (hex strings like `#1e1e2e`).
#[derive(Debug, Clone, PartialEq)]
pub struct CustomThemeConfig {
    /// Window / page background.
    pub background: String,
    /// Raised surface background.
    pub surface: String,
    /// Overlay / elevated elements.
    pub overlay: String,
    /// Primary accent color.
    pub accent: String,
    /// Primary text color.
    pub text: String,
    /// Secondary (muted) text color.
    pub subtext: String,
}

impl Default for CustomThemeConfig {
    fn default() -> (r: Self)
        ensures
            r.background@ == "#1e1e2e"@,
            r.surface@ == "#313244"@,
            r.overlay@ == "#45475a"@,
            r.accent@ == "#cba6f7"@,
            r.text@ == "#cdd6f4"@,
            r.subtext@ == "#a6adc8"@,
    {
        CustomThemeConfig {
            background: "#1e1e2e".to_string(),
            surface: "#313244".to_string(),
            overlay: "#45475a".to_string(),
            accent: "#cba6f7".to_string(),
            text: "#cdd6f4".to_string(),
            subtext: "#a6adc8".to_string(),
        }
    }
}

/// Theme configuration.
#[derive(Debug, Clone, PartialEq)]
pub struct ThemeConfig {
    /// Active theme mode.
    pub mode: ThemeMode,
    /// Crossfade duration for color transitions, in milliseconds.
    pub transition_ms: u32,
    /// Whether to blur the album art behind the window.
    pub blur_background: bool,
    /// Blur strength, 0-100.
    pub blur_strength: u8,
    /// Catppuccin flavor settings (used in `catppuccin` mode and as fallback).
    pub catppuccin: CatppuccinConfig,
    /// User-defined palette (used in `custom` mode).
    pub custom: CustomThemeConfig,
}

impl Default for ThemeConfig {
    fn default() -> (r: Self)
        ensures
            r.mode == ThemeMode::Dynamic,
            r.transition_ms == 300,
            r.blur_background,
            r.blur_strength == 20,
            r.catppuccin.flavor == Flavor::Mocha,
            r.catppuccin.accent@ == "mauve"@,
            r.custom.background@ == "#1e1e2e"@,
            r.custom.surface@ == "#313244"@,
            r.custom.overlay@ == "#45475a"@,
            r.custom.accent@ == "#cba6f7"@,
            r.custom.text@ == "#cdd6f4"@,
            r.custom.subtext@ == "#a6adc8"@,
    {
        ThemeConfig {
            mode: ThemeMode::Dynamic,
            transition_ms: 300,
            blur_background: true,
            blur_strength: 20,
            catppuccin: CatppuccinConfig::default(),
            custom: CustomThemeConfig::default(),
        }
    }
}

/// A single widget placement in the layout grid.
#[derive(Debug, Clone, PartialEq)]
pub struct WidgetPlacement {
    /// Widget identifier, e.g. `PlayerCore`.
    pub id: String,
    /// Horizontal grid position.
    pub x: i32,
    /// Vertical grid position.
    pub y: i32,
    /// Widget width in grid cells.
    pub width: i32,
    /// Widget height in grid cells.
    pub height: i32,
    /// Whether the widget is shown.
    pub visible: bool,
}

/// A placement taken as (id, x, y, width, height, visible).
pub open spec fn placement_view(w: WidgetPlacement) -> (Seq<char>, int, int, int, int, bool) {
    (w.id@, w.x as int, w.y as int, w.width as int, w.height as int, w.visible)
}

impl Default for WidgetPlacement {
    fn default() -> (r: Self)
        ensures
            placement_view(r) == ("PlayerCore"@, 0int, 0int, 1int, 1int, true),
    {
        WidgetPlacement {
            id: "PlayerCore".to_string(),
            x: 0,
            y: 0,
            width: 1,
            height: 1,
            visible: true,
        }
    }
}

/// The default window arrangement.
pub open spec fn default_placements() -> Seq<(Seq<char>, int, int, int, int, bool)> {
    seq![
        ("PlayerCore"@, 0int, 0int, 3int, 1int, true),
        ("Library"@, 3int, 0int, 3int, 2int, true),
        ("Queue"@, 6int, 0int, 2int, 2int, true),
        ("Lyrics"@, 0int, 1int, 3int, 2int, true),
        ("Equalizer"@, 0int, 2int, 8int, 1int, false),
        ("MiniPlayer"@, 0int, 0int, 8int, 1int, false),
    ]
}

fn placement(id: &str, x: i32, y: i32, width: i32, height: i32, visible: bool) -> (r:
    WidgetPlacement)
    ensures
        placement_view(r) == (id@, x as int, y as int, width as int, height as int, visible),
{
    WidgetPlacement { id: id.to_string(), x, y, width, height, visible }
}

/// Drag-and-drop widget layout.
#[derive(Debug, Clone, PartialEq)]
pub struct LayoutConfig {
    /// Ordered placement of every widget in the window.
    pub widgets: Vec<WidgetPlacement>,
}

impl Default for LayoutConfig {
    fn default() -> (r: Self)
        ensures
            r.widgets@.map_values(|w: WidgetPlacement| placement_view(w)) == default_placements(),
    {
        let widgets = vec![
            placement("PlayerCore", 0, 0, 3, 1, true),
            placement("Library", 3, 0, 3, 2, true),
            placement("Queue", 6, 0, 2, 2, true),
            placement("Lyrics", 0, 1, 3, 2, true),
            placement("Equalizer", 0, 2, 8, 1, false),
            placement("MiniPlayer", 0, 0, 8, 1, false),
        ];
        assert(widgets@.map_values(|w: WidgetPlacement| placement_view(w)) =~= default_placements());
        LayoutConfig { widgets }
    }
}

/// Local filesystem source.
#[derive(Debug, Clone, PartialEq)]
pub struct LocalSourceConfig {
    /// Folders scanned for audio files.
    pub paths: Vec<String>,
    /// Re-scan folders on startup when the library changed.
    pub watch: bool,
}

impl Default for LocalSourceConfig {
    fn default() -> (r: Self)
        ensures
            r.paths@.len() == 1,
            r.paths@[0]@ == "~/Music"@,
            r.watch,
    {
        LocalSourceConfig { paths: vec!["~/Music".to_string()], watch: true }
    }
}

/// YouTube (Music) source backed by yt-dlp.
#[derive(Debug, Clone, PartialEq)]
pub struct YoutubeSourceConfig {
    /// Preferred quality: `best`, `320k`, `256k` or `128k`.
    pub quality: String,
    /// Directory for cached stream downloads.
    pub cache_dir: String,
}

impl Default for YoutubeSourceConfig {
    fn default() -> (r: Self)
        ensures
            r.quality@ == "best"@,
            r.cache_dir@ == "~/.cache/chromia/youtube"@,
    {
        YoutubeSourceConfig {
            quality: "best".to_string(),
            cache_dir: "~/.cache/chromia/youtube".to_string(),
        }
    }
}

/// Music source configuration.
#[derive(Debug, Clone, PartialEq)]
pub struct SourcesConfig {
    /// Enabled sources, in priority order.
    pub enabled: Vec<String>,
    /// Default source used for lookups.
    pub default: String,
    /// Local folder scanning.
    pub local: LocalSourceConfig,
    /// YouTube via yt-dlp.
    pub youtube: YoutubeSourceConfig,
}

impl Default for SourcesConfig {
    fn default() -> (r: Self)
        ensures
            r.enabled@.map_values(|s: String| s@) == seq!["local"@, "youtube"@, "soundcloud"@],
            r.default@ == "local"@,
            r.local.paths@.len() == 1,
            r.local.paths@[0]@ == "~/Music"@,
            r.local.watch,
            r.youtube.quality@ == "best"@,
            r.youtube.cache_dir@ == "~/.cache/chromia/youtube"@,
    {
        let enabled = vec!["local".to_string(), "youtube".to_string(), "soundcloud".to_string()];
        assert(enabled@.map_values(|s: String| s@) =~= seq!["local"@, "youtube"@, "soundcloud"@]);
        SourcesConfig {
            enabled,
            default: "local".to_string(),
            local: LocalSourceConfig::default(),
            youtube: YoutubeSourceConfig::default(),
        }
    }
}

/// Optional integrations toggle.
#[derive(Debug, Clone, PartialEq)]
pub struct IntegrationsConfig {
    /// Export MPRIS2 over D-Bus (media keys, waybar, eww).
    pub mpris: bool,
    /// Publish Discord Rich Presence.
    pub discord: bool,
}

impl Default for IntegrationsConfig {
    fn default() -> (r: Self)
        ensures
            r.mpris,
            r.discord,
    {
        IntegrationsConfig { mpris: true, discord: true }
    }
}

/// Filesystem paths.
#[derive(Debug, Clone, PartialEq)]
pub struct PathsConfig {
    /// Cache directory for cover art, streams and database snapshots.
    pub cache_dir: String,
}

impl Default for PathsConfig {
    fn default() -> (r: Self)
        ensures
            r.cache_dir@ == "~/.cache/chromia"@,
    {
        PathsConfig { cache_dir: "~/.cache/chromia".to_string() }
    }
}

} // verus!
