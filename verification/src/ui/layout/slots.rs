//! Right-panel slot definitions.
//!
//! The right panel is composed of vertical slots. Each slot hosts one widget
//! from a fixed catalogue; the string form of a widget is the identifier used
//! in the `layout.right_panel.slots` config section.

use vstd::prelude::*;

use crate::text::{chars_eq, chars_of, trim, trim_chars, trim_end, trim_start};

verus! {

/// Catalogue of widgets that can live in the right panel.
#[derive(Debug, Clone, Copy, PartialEq, Eq, Hash, Structural)]
pub enum SlotWidget {
    /// Large album cover with shadow.
    AlbumArt,
    /// Standalone transport widget (progress + controls).
    Player,
    /// Synchronised lyrics view.
    Lyrics,
    /// Up-next playback queue.
    Queue,
    /// 10-band graphical equalizer.
    Equalizer,
    /// Audio spectrum / waveform visualizer.
    Visualizer,
    /// Album year, genre, label readout.
    AlbumInfo,
    /// Artist biography readout.
    ArtistInfo,
    /// "Similar albums" recommendations.
    SimilarAlbums,
    /// Bitrate / codec / sample-rate readout.
    AudioInfo,
    /// Output device picker.
    Devices,
}

/// The canonical identifier of a slot widget.
pub open spec fn slot_name(w: SlotWidget) -> Seq<char> {
    match w {
        SlotWidget::AlbumArt => "AlbumArt"@,
        SlotWidget::Player => "Player"@,
        SlotWidget::Lyrics => "Lyrics"@,
        SlotWidget::Queue => "Queue"@,
        SlotWidget::Equalizer => "Equalizer"@,
        SlotWidget::Visualizer => "Visualizer"@,
        SlotWidget::AlbumInfo => "AlbumInfo"@,
        SlotWidget::ArtistInfo => "ArtistInfo"@,
        SlotWidget::SimilarAlbums => "SimilarAlbums"@,
        SlotWidget::AudioInfo => "AudioInfo"@,
        SlotWidget::Devices => "Devices"@,
    }
}

/// The widget a (surrounding white space aside) identifier names.
pub open spec fn slot_from_name(name: Seq<char>) -> Option<SlotWidget> {
    let t = trim(name);
    if t == "AlbumArt"@ {
        Some(SlotWidget::AlbumArt)
    } else if t == "Player"@ {
        Some(SlotWidget::Player)
    } else if t == "Lyrics"@ {
        Some(SlotWidget::Lyrics)
    } else if t == "Queue"@ {
        Some(SlotWidget::Queue)
    } else if t == "Equalizer"@ {
        Some(SlotWidget::Equalizer)
    } else if t == "Visualizer"@ {
        Some(SlotWidget::Visualizer)
    } else if t == "AlbumInfo"@ {
        Some(SlotWidget::AlbumInfo)
    } else if t == "ArtistInfo"@ {
        Some(SlotWidget::ArtistInfo)
    } else if t == "SimilarAlbums"@ {
        Some(SlotWidget::SimilarAlbums)
    } else if t == "AudioInfo"@ {
        Some(SlotWidget::AudioInfo)
    } else if t == "Devices"@ {
        Some(SlotWidget::Devices)
    } else {
        None
    }
}

/// Every slot widget in canonical order.
pub open spec fn all_slots() -> Seq<SlotWidget> {
    seq![
        SlotWidget::AlbumArt,
        SlotWidget::Player,
        SlotWidget::Lyrics,
        SlotWidget::Queue,
        SlotWidget::Equalizer,
        SlotWidget::Visualizer,
        SlotWidget::AlbumInfo,
        SlotWidget::ArtistInfo,
        SlotWidget::SimilarAlbums,
        SlotWidget::AudioInfo,
        SlotWidget::Devices,
    ]
}

/// The default slot order.
pub open spec fn default_slot_order() -> Seq<SlotWidget> {
    seq![SlotWidget::AlbumArt, SlotWidget::Player, SlotWidget::Lyrics, SlotWidget::Queue]
}

/// The widgets named by `raw`, unknown names left out, order kept.
pub open spec fn parsed_slots(raw: Seq<Seq<char>>) -> Seq<SlotWidget>
    decreases raw.len(),
{
    if raw.len() == 0 {
        Seq::empty()
    } else {
        let rest = parsed_slots(raw.drop_last());
        match slot_from_name(raw.last()) {
            Some(w) => rest.push(w),
            None => rest,
        }
    }
}

impl SlotWidget {
    /// Returns the canonical TOML identifier.
    pub fn as_str(self) -> (s: &'static str)
        ensures
            s@ == slot_name(self),
    {
        match self {
            SlotWidget::AlbumArt => "AlbumArt",
            SlotWidget::Player => "Player",
            SlotWidget::Lyrics => "Lyrics",
            SlotWidget::Queue => "Queue",
            SlotWidget::Equalizer => "Equalizer",
            SlotWidget::Visualizer => "Visualizer",
            SlotWidget::AlbumInfo => "AlbumInfo",
            SlotWidget::ArtistInfo => "ArtistInfo",
            SlotWidget::SimilarAlbums => "SimilarAlbums",
            SlotWidget::AudioInfo => "AudioInfo",
            SlotWidget::Devices => "Devices",
        }
    }

    /// Parses a TOML identifier back into a [`SlotWidget`], ignoring
    /// surrounding white space.
    pub fn from_str(name: &str) -> (w: Option<Self>)
        ensures
            w == slot_from_name(name@),
    {
        let chars = chars_of(name);
        let t = trim_chars(chars.as_slice());
        let t = t.as_slice();
        if chars_eq(t, "AlbumArt") {
            Some(SlotWidget::AlbumArt)
        } else if chars_eq(t, "Player") {
            Some(SlotWidget::Player)
        } else if chars_eq(t, "Lyrics") {
            Some(SlotWidget::Lyrics)
        } else if chars_eq(t, "Queue") {
            Some(SlotWidget::Queue)
        } else if chars_eq(t, "Equalizer") {
            Some(SlotWidget::Equalizer)
        } else if chars_eq(t, "Visualizer") {
            Some(SlotWidget::Visualizer)
        } else if chars_eq(t, "AlbumInfo") {
            Some(SlotWidget::AlbumInfo)
        } else if chars_eq(t, "ArtistInfo") {
            Some(SlotWidget::ArtistInfo)
        } else if chars_eq(t, "SimilarAlbums") {
            Some(SlotWidget::SimilarAlbums)
        } else if chars_eq(t, "AudioInfo") {
            Some(SlotWidget::AudioInfo)
        } else if chars_eq(t, "Devices") {
            Some(SlotWidget::Devices)
        } else {
            None
        }
    }

    /// Every slot widget in the canonical order.
    pub fn all() -> (a: [Self; 11])
        ensures
            a@ == all_slots(),
    {
        let a = [
            SlotWidget::AlbumArt,
            SlotWidget::Player,
            SlotWidget::Lyrics,
            SlotWidget::Queue,
            SlotWidget::Equalizer,
            SlotWidget::Visualizer,
            SlotWidget::AlbumInfo,
            SlotWidget::ArtistInfo,
            SlotWidget::SimilarAlbums,
            SlotWidget::AudioInfo,
            SlotWidget::Devices,
        ];
        assert(a@ =~= all_slots());
        a
    }
}

/// Default slot order used when the user has no right-panel configuration.
pub fn default_slots() -> (v: Vec<SlotWidget>)
    ensures
        v@ == default_slot_order(),
{
    let v = vec![SlotWidget::AlbumArt, SlotWidget::Player, SlotWidget::Lyrics, SlotWidget::Queue];
    assert(v@ =~= default_slot_order());
    v
}

/// Parses a TOML slot list, ignoring unknown identifiers so the right panel
/// always renders even if the user mistyped a widget name.
pub fn parse_slots(raw: &[String]) -> (v: Vec<SlotWidget>)
    ensures
        v@ == parsed_slots(raw@.map_values(|s: String| s@)),
{
    let ghost names = raw@.map_values(|s: String| s@);
    let mut v: Vec<SlotWidget> = Vec::new();
    let mut i: usize = 0;
    while i < raw.len()
        invariant
            i <= raw@.len(),
            names == raw@.map_values(|s: String| s@),
            v@ == parsed_slots(names.take(i as int)),
        decreases raw@.len() - i,
    {
        let parsed = SlotWidget::from_str(raw[i].as_str());
        proof {
            assert(names.take(i + 1).drop_last() =~= names.take(i as int));
            assert(names.take(i + 1).last() == raw@[i as int]@);
        }
        if let Some(w) = parsed {
            v.push(w);
        }
        i = i + 1;
    }
    assert(names.take(raw@.len() as int) =~= names);
    v
}

/// Every slot widget survives a trip through its identifier, and no two
/// widgets share one.
pub proof fn law_slot_round_trips(w: SlotWidget)
    ensures
        slot_from_name(slot_name(w)) == Some(w),
{
    reveal_strlit("AlbumArt");
    reveal_strlit("Player");
    reveal_strlit("Lyrics");
    reveal_strlit("Queue");
    reveal_strlit("Equalizer");
    reveal_strlit("Visualizer");
    reveal_strlit("AlbumInfo");
    reveal_strlit("ArtistInfo");
    reveal_strlit("SimilarAlbums");
    reveal_strlit("AudioInfo");
    reveal_strlit("Devices");
    let n = slot_name(w);
    assert(trim_start(n) == n);
    assert(trim_end(n) == n);
    // Names of equal length differ in their first letter, or in the fifth for
    // the two that start alike.
    assert("AlbumArt"@[0] != "Player"@[0]);
    assert("Player"@[0] != "Lyrics"@[0]);
    assert("Lyrics"@[0] != "Devices"@[0]);
    assert("AlbumInfo"@[0] != "Equalizer"@[0]);
    assert("AudioInfo"@[0] != "AlbumInfo"@[1] || "AudioInfo"@[1] != "AlbumInfo"@[1]);
    assert("Equalizer"@[0] != "AudioInfo"@[0]);
    assert("Visualizer"@[0] != "ArtistInfo"@[0]);
}

} // verus!
