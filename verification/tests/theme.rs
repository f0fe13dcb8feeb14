use chromia::theme::dynamic::{cover_colors_of, CoverError};
use chromia::config::schema::{ThemeConfig, ThemeMode};
use chromia::theme::resolve_palette;
use chromia::config::schema::Flavor;
use chromia::theme::catppuccin::{palette_for, ALL_ACCENTS};
use chromia::theme::css::{full_css, generate_css, hex_channels_ok, lighten, load_base_css, parse_hex_channels};
use chromia::theme::dynamic::rgb_to_hex;
use chromia::theme::presets::{all, resolve};
use chromia::theme::Palette;

fn sample_palette() -> Palette {
    Palette {
        background: "#1e1e2e".into(),
        surface: "#313244".into(),
        overlay: "#45475a".into(),
        accent: "#cba6f7".into(),
        text: "#cdd6f4".into(),
        subtext: "#a6adc8".into(),
    }
}

#[test]
fn mocha_mauve_default_matches_expected_hexes() {
    let palette = palette_for(Flavor::Mocha, "mauve");
    assert_eq!(palette.background, "#1e1e2e");
    assert_eq!(palette.surface, "#313244");
    assert_eq!(palette.overlay, "#45475a");
    assert_eq!(palette.accent, "#cba6f7");
    assert_eq!(palette.text, "#cdd6f4");
    assert_eq!(palette.subtext, "#a6adc8");
}

#[test]
fn unknown_accent_falls_back_to_mauve() {
    let palette = palette_for(Flavor::Macchiato, "not-a-color");
    assert_eq!(palette.accent, "#c6a0f6");
}

#[test]
fn each_flavor_has_a_distinct_background() {
    let backgrounds: Vec<String> = [Flavor::Mocha, Flavor::Macchiato, Flavor::Frappe, Flavor::Latte]
        .into_iter()
        .map(|f| palette_for(f, "mauve").background)
        .collect();
    assert_eq!(backgrounds, vec!["#1e1e2e", "#24273a", "#303446", "#eff1f5"]);
}

#[test]
fn all_accents_is_sorted() {
    let mut sorted = ALL_ACCENTS.to_vec();
    sorted.sort_unstable();
    assert_eq!(ALL_ACCENTS.to_vec(), sorted);
}

#[test]
fn known_accent_names_resolve_per_flavor() {
    assert_eq!(palette_for(Flavor::Latte, "blue").accent, "#1e66f5");
    assert_eq!(palette_for(Flavor::Frappe, "green").accent, "#a6d189");
    assert_eq!(palette_for(Flavor::Mocha, "pink").accent, "#f5c2e7");
}

#[test]
fn every_offered_accent_has_its_own_color() {
    for flavor in [Flavor::Mocha, Flavor::Macchiato, Flavor::Frappe, Flavor::Latte] {
        let mauve = palette_for(flavor, "mauve").accent;
        for name in ALL_ACCENTS {
            let accent = palette_for(flavor, name).accent;
            assert_eq!(accent == mauve, name == "mauve", "{name}");
        }
    }
}

#[test]
fn generate_css_defines_all_six_palette_colors() {
    let css = generate_css(&sample_palette());
    for (name, value) in [
        ("background", "#1e1e2e"),
        ("surface", "#313244"),
        ("overlay", "#45475a"),
        ("accent", "#cba6f7"),
        ("text", "#cdd6f4"),
        ("subtext", "#a6adc8"),
    ] {
        assert!(
            css.contains(&format!("@define-color {name} {value};")),
            "missing @define-color {name} {value};"
        );
    }
}

#[test]
fn generate_css_includes_derived_colors_and_classes() {
    let css = generate_css(&sample_palette());
    assert!(css.contains("@define-color border"));
    assert!(css.contains("@define-color accent-hover"));
    for class in ["chromia-cover", "chromia-list", "chromia-title", "chromia-subtitle", "chromia-lyrics-text"] {
        assert!(css.contains(class), "missing {class} rule");
    }
}

#[test]
fn generate_css_derives_border_and_hover() {
    let css = generate_css(&sample_palette());
    // #45475a moved 15% toward white, #cba6f7 moved 10% toward white.
    assert!(css.contains("@define-color border #616373;"), "{css}");
    assert!(css.contains("@define-color accent-hover #d0aff8;"), "{css}");
}

#[test]
fn full_css_includes_the_base_stylesheet() {
    let css = full_css(&sample_palette());
    assert!(css.contains(".chromia-shell"), "base.css marker missing");
    assert!(css.starts_with(load_base_css()));
}

#[test]
fn lighten_moves_toward_white() {
    assert_eq!(lighten("#45475a", 0), "#45475a");
    assert_eq!(lighten("#000000", 100), "#ffffff");
}

#[test]
fn lighten_reads_a_bad_channel_as_zero() {
    assert_eq!(lighten("#zz8000", 0), "#008000");
    assert_eq!(parse_hex_channels("##+f0102"), (15, 1, 2));
}

#[test]
fn short_colors_cannot_be_lightened() {
    assert!(!hex_channels_ok("#fff"));
    assert!(hex_channels_ok("#ffffff"));
    assert!(hex_channels_ok("#ffé000"));
    assert_eq!(parse_hex_channels("#ffé000"), (255, 0, 0));
    assert!(!hex_channels_ok("#fé0000"));
    assert!(!hex_channels_ok("#12345é"));
    assert!(hex_channels_ok("#ééé"));
    assert_eq!(parse_hex_channels("#ééé"), (0, 0, 0));
}

#[test]
fn rgb_to_hex_formats_lowercase() {
    assert_eq!(rgb_to_hex([0x1e, 0x1e, 0x2e]), "#1e1e2e");
    assert_eq!(rgb_to_hex([0xff, 0x80, 0x00]), "#ff8000");
}

#[test]
fn hex_round_trips_through_channels() {
    for rgb in [[0u8, 0, 0], [255, 255, 255], [0x12, 0xab, 0x7f]] {
        assert_eq!(parse_hex_channels(&rgb_to_hex(rgb)), (rgb[0], rgb[1], rgb[2]));
    }
}

#[test]
fn catalog_has_seven_presets() {
    assert_eq!(all().len(), 7);
}

#[test]
fn resolve_finds_every_preset() {
    for preset in all() {
        assert_eq!(resolve(preset.name), Some(preset.palette()));
    }
}

#[test]
fn resolve_unknown_name_returns_none() {
    assert_eq!(resolve("not-a-preset"), None);
    assert_eq!(resolve(""), None);
}

/// Perceived luminance of a `#rrggbb` hex in the [0, 1] range.
fn luminance(hex: &str) -> f64 {
    let hex = hex.trim_start_matches('#');
    let byte = |i: usize| u8::from_str_radix(hex.get(i..i + 2).unwrap_or("00"), 16).unwrap_or(0) as f64;
    let lin = |c: f64| if c <= 0.04045 { c / 12.92 } else { ((c + 0.055) / 1.055).powf(2.4) };
    let r = lin(byte(0) / 255.0);
    let g = lin(byte(2) / 255.0);
    let b = lin(byte(4) / 255.0);
    0.2126 * r + 0.7152 * g + 0.0722 * b
}

#[test]
fn split_is_four_light_three_dark() {
    let presets = all();
    let names: Vec<&str> = presets.iter().map(|p| p.name).collect();
    for name in ["Snow", "Pearl", "Cloud", "Porcelain"] {
        assert!(names.contains(&name), "missing light preset {name}");
        let preset = presets.iter().find(|p| p.name == name).unwrap();
        assert!(luminance(preset.background) > 0.5, "{name} background is too dark");
    }
    for name in ["Midnight", "Slate", "Charcoal"] {
        assert!(names.contains(&name), "missing dark preset {name}");
        let preset = presets.iter().find(|p| p.name == name).unwrap();
        assert!(luminance(preset.background) < 0.5, "{name} background is too light");
    }
}

#[test]
fn every_palette_color_is_a_nonempty_hex() {
    for preset in all() {
        let palette = preset.palette();
        for color in [&palette.background, &palette.surface, &palette.overlay, &palette.accent, &palette.text, &palette.subtext] {
            assert!(!color.is_empty(), "empty color in preset {}", preset.name);
            assert!(color.starts_with('#'), "{} does not start with '#' in preset {}", color, preset.name);
        }
    }
}

#[test]
fn custom_palette_copies_the_config() {
    let custom = chromia::config::schema::CustomThemeConfig::default();
    let palette = Palette::from_custom(&custom);
    assert_eq!(palette, sample_palette());
}

#[test]
fn theme_mode_picks_the_palette() {
    let mut theme = ThemeConfig::default();
    assert_eq!(resolve_palette(&theme, None), palette_for(Flavor::Mocha, "mauve"));
    let cover = palette_for(Flavor::Latte, "red");
    assert_eq!(resolve_palette(&theme, Some(cover.clone())), cover);
    theme.mode = ThemeMode::Catppuccin;
    theme.catppuccin.flavor = Flavor::Frappe;
    assert_eq!(resolve_palette(&theme, Some(cover)), palette_for(Flavor::Frappe, "mauve"));
    theme.mode = ThemeMode::Custom;
    theme.custom.accent = "#123456".into();
    assert_eq!(resolve_palette(&theme, None).accent, "#123456");
}

#[test]
fn each_flavor_has_its_own_blue() {
    assert_eq!(palette_for(Flavor::Mocha, "blue").accent, "#89b4fa");
    assert_eq!(palette_for(Flavor::Macchiato, "blue").accent, "#8aadf4");
    assert_eq!(palette_for(Flavor::Frappe, "blue").accent, "#8caaee");
}

fn solid_png(color: [u8; 3]) -> Vec<u8> {
    let img = image::RgbImage::from_pixel(64, 64, image::Rgb(color));
    let mut bytes = Vec::new();
    img.write_to(&mut std::io::Cursor::new(&mut bytes), image::ImageFormat::Png).expect("png encodes in memory");
    bytes
}

#[test]
fn cover_colors_follow_the_image() {
    let colors = cover_colors_of(&solid_png([200, 120, 240])).expect("a palette");
    assert!(!colors.is_empty());
    let (r, g, b) = colors[0];
    for (got, want) in [(r, 200u8), (g, 120), (b, 240)] {
        assert!((got as i16 - want as i16).unsigned_abs() <= 30, "channel {got} not close to {want}");
    }
    assert_eq!(cover_colors_of(b"definitely not an image"), Err(CoverError::Undecodable));
}

#[test]
fn appearance_css_emits_radius_and_blur() {
    let css = chromia::theme::css::appearance_css(16, 24, false, "0.8");
    assert!(css.contains("border-radius: 16px"));
    assert!(css.contains("blur(24px)"));
    assert!(css.contains("alpha(@surface"));
    assert!(css.contains(".chromia-shell.glass"));
}

#[test]
fn strong_glass_doubles_the_blur_with_a_floor() {
    let css = chromia::theme::css::appearance_css(0, 10, true, "0.52");
    assert!(css.contains("border-radius: 1px"));
    assert!(!css.contains("border-radius: 0px"));
    assert_eq!(css.matches("blur(28px)").count(), 2);
    assert_eq!(css.matches("alpha(@surface, 0.52)").count(), 2);
    let css = chromia::theme::css::appearance_css(8, 200, true, "0.55");
    assert_eq!(css.matches("blur(400px)").count(), 2);
    assert_eq!(css.matches("border-radius: 8px").count(), 3);
}

#[test]
fn invalid_bytes_return_an_error() {
    assert!(cover_colors_of(b"definitely not an image").is_err());
    assert_eq!(cover_colors_of(b""), Err(CoverError::Undecodable));
}
