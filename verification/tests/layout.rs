use chromia::ui::layout::presets::{BottomPlayerElement, BottomPlayerPreset};
use chromia::ui::layout::slots::{default_slots, parse_slots, SlotWidget};

#[test]
fn default_preset_is_default() {
    assert_eq!(BottomPlayerPreset::default(), BottomPlayerPreset::Default);
}

#[test]
fn preset_round_trips_through_name() {
    for preset in BottomPlayerPreset::all() {
        assert_eq!(
            BottomPlayerPreset::from_str(preset.as_str()),
            Some(preset),
            "{} should round-trip through name",
            preset.as_str()
        );
    }
}

#[test]
fn preset_index_matches_all_order() {
    for (i, preset) in BottomPlayerPreset::all().iter().enumerate() {
        assert_eq!(preset.as_index(), i);
        assert_eq!(BottomPlayerPreset::from_index(i), Some(*preset));
    }
}

#[test]
fn minimal_preset_omits_volume_and_progress() {
    let minimal = BottomPlayerPreset::Minimal.elements();
    assert!(!minimal.contains(&BottomPlayerElement::Volume));
    assert!(!minimal.contains(&BottomPlayerElement::Progress));
    assert!(minimal.contains(&BottomPlayerElement::Cover));
}

#[test]
fn audiophile_preset_includes_codec_and_sample_rate() {
    let audiophile = BottomPlayerPreset::Audiophile.elements();
    assert!(audiophile.contains(&BottomPlayerElement::Codec));
    assert!(audiophile.contains(&BottomPlayerElement::SampleRate));
    assert!(audiophile.contains(&BottomPlayerElement::Device));
}

#[test]
fn preset_names_are_trimmed_and_unknown_ones_rejected() {
    assert_eq!(BottomPlayerPreset::from_str("  minimal "), Some(BottomPlayerPreset::Minimal));
    assert_eq!(BottomPlayerPreset::from_str("Minimal"), None);
    assert_eq!(BottomPlayerPreset::from_index(3), None);
}

#[test]
fn slot_widget_round_trips() {
    for widget in SlotWidget::all() {
        assert_eq!(
            SlotWidget::from_str(widget.as_str()),
            Some(widget),
            "{} should round-trip",
            widget.as_str()
        );
    }
}

#[test]
fn unknown_slot_name_is_ignored() {
    assert!(SlotWidget::from_str("DefinitelyNotAWidget").is_none());
}

#[test]
fn default_slots_match_spec() {
    let defaults = default_slots();
    assert_eq!(
        defaults,
        vec![SlotWidget::AlbumArt, SlotWidget::Player, SlotWidget::Lyrics, SlotWidget::Queue]
    );
}

#[test]
fn parse_slots_filters_unknowns() {
    let raw = vec!["AlbumArt".to_string(), "Unknown".to_string(), "Queue".to_string()];
    let parsed = parse_slots(&raw);
    assert_eq!(parsed, vec![SlotWidget::AlbumArt, SlotWidget::Queue]);
}
