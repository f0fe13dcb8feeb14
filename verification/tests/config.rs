use chromia::config::schema::{
    CatppuccinConfig, Flavor, IntegrationsConfig, LayoutConfig, PathsConfig, ThemeConfig, ThemeMode, WidgetPlacement,
    YoutubeSourceConfig,
};
use chromia::config::{app_dir_in, expand_path, expand_path_with, DirError, DEFAULT_CONFIG};

#[test]
fn expand_path_expands_tilde() {
    let home = dirs::home_dir().expect("home dir exists");
    assert_eq!(expand_path("~/Music"), home.join("Music").to_string_lossy().to_string());
    assert_eq!(expand_path("/abs/path"), "/abs/path");
}

#[test]
fn expansion_needs_a_whole_tilde_component() {
    assert_eq!(expand_path_with("~/Music", Some("/home/u")), "/home/u/Music");
    assert_eq!(expand_path_with("~user/Music", Some("/home/u")), "~user/Music");
    assert_eq!(expand_path_with("~/Music", None), "~/Music");
}

#[test]
fn app_dirs_live_under_the_base() {
    assert_eq!(app_dir_in(Some("/home/u/.config".into()), DirError::ConfigDir), Ok("/home/u/.config/chromia".to_string()));
    assert_eq!(app_dir_in(None, DirError::CacheDir), Err(DirError::CacheDir));
    assert_eq!(DirError::ConfigDir.message(), "could not resolve the XDG config directory");
}

#[test]
fn defaults_match_the_bundled_config() {
    let theme = ThemeConfig::default();
    assert_eq!(theme.mode, ThemeMode::Dynamic);
    assert_eq!(theme.transition_ms, 300);
    assert_eq!(theme.catppuccin, CatppuccinConfig { flavor: Flavor::Mocha, accent: "mauve".into() });
    assert!(DEFAULT_CONFIG.contains("mode = \"dynamic\""));
    assert!(DEFAULT_CONFIG.contains("flavor = \"mocha\""));
    assert!(DEFAULT_CONFIG.contains("volume = 0.8"));
    let layout = LayoutConfig::default();
    assert_eq!(layout.widgets.len(), 6);
    assert_eq!(layout.widgets[4].id, "Equalizer");
    assert!(!layout.widgets[4].visible);
    assert_eq!(WidgetPlacement::default().width, 1);
    assert_eq!(YoutubeSourceConfig::default().quality, "best");
    assert!(IntegrationsConfig::default().mpris);
    assert_eq!(PathsConfig::default().cache_dir, "~/.cache/chromia");
}
