//! Bottom Player presets.
//!
//! Presets are pure UI affordances: each preset maps to an ordered list of
//! [`BottomPlayerElement`]s that the bottom player reveals or hides.
//!
//! | Preset      | Elements                                                            |
//! |-------------|---------------------------------------------------------------------|
//! | minimal     | `Cover Song Play`                                                   |
//! | default     | `Cover Song Artist Progress Controls Volume`                        |
//! | audiophile  | `Cover Song Artist Waveform Bitrate SampleRate Codec Device ...`    |

use vstd::prelude::*;

use crate::text::{chars_eq, chars_of, trim, trim_chars, trim_end, trim_start};

verus! {

/// Identifiers for every element that can appear in the bottom player bar.
#[derive(Debug, Clone, Copy, PartialEq, Eq, Structural)]
pub enum BottomPlayerElement {
    /// Square album cover thumbnail.
    Cover,
    /// Track title.
    Song,
    /// Track artist.
    Artist,
    /// Seek bar with timestamps.
    Progress,
    /// Transport controls (shuffle / prev / play / next / repeat).
    Controls,
    /// Volume icon + scale.
    Volume,
    /// Audio waveform.
    Waveform,
    /// Bitrate readout, e.g. `320 kbps`.
    Bitrate,
    /// Sample-rate readout, e.g. `44.1 kHz`.
    SampleRate,
    /// Codec readout, e.g. `FLAC`.
    Codec,
    /// Output device selector.
    Device,
}

/// The canonical TOML identifier of an element.
pub open spec fn element_name(e: BottomPlayerElement) -> Seq<char> {
    match e {
        BottomPlayerElement::Cover => "Cover"@,
        BottomPlayerElement::Song => "Song"@,
        BottomPlayerElement::Artist => "Artist"@,
        BottomPlayerElement::Progress => "Progress"@,
        BottomPlayerElement::Controls => "Controls"@,
        BottomPlayerElement::Volume => "Volume"@,
        BottomPlayerElement::Waveform => "Waveform"@,
        BottomPlayerElement::Bitrate => "Bitrate"@,
        BottomPlayerElement::SampleRate => "SampleRate"@,
        BottomPlayerElement::Codec => "Codec"@,
        BottomPlayerElement::Device => "Device"@,
    }
}

impl BottomPlayerElement {
    /// Returns the canonical TOML identifier for this element.
    pub fn as_str(self) -> (s: &'static str)
        ensures
            s@ == element_name(self),
    {
        match self {
            BottomPlayerElement::Cover => "Cover",
            BottomPlayerElement::Song => "Song",
            BottomPlayerElement::Artist => "Artist",
            BottomPlayerElement::Progress => "Progress",
            BottomPlayerElement::Controls => "Controls",
            BottomPlayerElement::Volume => "Volume",
            BottomPlayerElement::Waveform => "Waveform",
            BottomPlayerElement::Bitrate => "Bitrate",
            BottomPlayerElement::SampleRate => "SampleRate",
            BottomPlayerElement::Codec => "Codec",
            BottomPlayerElement::Device => "Device",
        }
    }
}

/// Available bottom-player presets.
#[derive(Debug, Clone, Copy, PartialEq, Eq, Structural)]
pub enum BottomPlayerPreset {
    /// `Cover Song Play`: minimal footprint.
    Minimal,
    /// `Cover Song Artist Progress Controls Volume`: the recommended default.
    Default,
    /// Maximum information density (bitrate, codec, sample rate, device, ...).
    Audiophile,
}

impl Default for BottomPlayerPreset {
    fn default() -> (p: Self)
        ensures
            p == BottomPlayerPreset::Default,
    {
        BottomPlayerPreset::Default
    }
}

/// The display name of a preset.
pub open spec fn preset_name(p: BottomPlayerPreset) -> Seq<char> {
    match p {
        BottomPlayerPreset::Minimal => "minimal"@,
        BottomPlayerPreset::Default => "default"@,
        BottomPlayerPreset::Audiophile => "audiophile"@,
    }
}

/// Every preset in display order.
pub open spec fn all_presets() -> Seq<BottomPlayerPreset> {
    seq![BottomPlayerPreset::Minimal, BottomPlayerPreset::Default, BottomPlayerPreset::Audiophile]
}

/// The index of a preset in display order.
pub open spec fn preset_index(p: BottomPlayerPreset) -> usize {
    match p {
        BottomPlayerPreset::Minimal => 0,
        BottomPlayerPreset::Default => 1,
        BottomPlayerPreset::Audiophile => 2,
    }
}

/// The preset a (surrounding white space aside) name denotes.
pub open spec fn preset_from_name(name: Seq<char>) -> Option<BottomPlayerPreset> {
    let t = trim(name);
    if t == "minimal"@ {
        Some(BottomPlayerPreset::Minimal)
    } else if t == "default"@ {
        Some(BottomPlayerPreset::Default)
    } else if t == "audiophile"@ {
        Some(BottomPlayerPreset::Audiophile)
    } else {
        None
    }
}

/// The ordered elements a preset shows.
pub open spec fn preset_elements(p: BottomPlayerPreset) -> Seq<BottomPlayerElement> {
    match p {
        BottomPlayerPreset::Minimal => seq![
            BottomPlayerElement::Cover,
            BottomPlayerElement::Song,
            BottomPlayerElement::Controls,
        ],
        BottomPlayerPreset::Default => seq![
            BottomPlayerElement::Cover,
            BottomPlayerElement::Song,
            BottomPlayerElement::Artist,
            BottomPlayerElement::Progress,
            BottomPlayerElement::Controls,
            BottomPlayerElement::Volume,
        ],
        BottomPlayerPreset::Audiophile => seq![
            BottomPlayerElement::Cover,
            BottomPlayerElement::Song,
            BottomPlayerElement::Artist,
            BottomPlayerElement::Waveform,
            BottomPlayerElement::Bitrate,
            BottomPlayerElement::SampleRate,
            BottomPlayerElement::Codec,
            BottomPlayerElement::Device,
            BottomPlayerElement::Progress,
            BottomPlayerElement::Controls,
            BottomPlayerElement::Volume,
        ],
    }
}

impl BottomPlayerPreset {
    /// Returns the preset's display name.
    pub fn as_str(self) -> (s: &'static str)
        ensures
            s@ == preset_name(self),
    {
        match self {
            BottomPlayerPreset::Minimal => "minimal",
            BottomPlayerPreset::Default => "default",
            BottomPlayerPreset::Audiophile => "audiophile",
        }
    }

    /// Returns the index of this preset in [`Self::all`].
    pub fn as_index(self) -> (i: usize)
        ensures
            i == preset_index(self),
            all_presets()[i as int] == self,
    {
        let all = Self::all();
        let mut i: usize = 0;
        while i < 3
            invariant
                i <= 3,
                all@ == all_presets(),
                forall|k: int| 0 <= k < i ==> all_presets()[k] != self,
            decreases 3 - i,
        {
            if all[i] == self {
                return i;
            }
            i = i + 1;
        }
        1
    }

    /// Every preset in display order.
    pub fn all() -> (a: [Self; 3])
        ensures
            a@ == all_presets(),
    {
        let a = [BottomPlayerPreset::Minimal, BottomPlayerPreset::Default, BottomPlayerPreset::Audiophile];
        assert(a@ =~= all_presets());
        a
    }

    /// Returns the display names of every preset, in order.
    pub fn all_names() -> (v: Vec<String>)
        ensures
            v@.len() == 3,
            forall|i: int| 0 <= i < 3 ==> #[trigger] v@[i]@ == preset_name(all_presets()[i]),
    {
        let all = Self::all();
        let mut v: Vec<String> = Vec::new();
        let mut i: usize = 0;
        while i < 3
            invariant
                i <= 3,
                all@ == all_presets(),
                v@.len() == i,
                forall|k: int| 0 <= k < i ==> #[trigger] v@[k]@ == preset_name(all_presets()[k]),
            decreases 3 - i,
        {
            v.push(String::from_str(all[i].as_str()));
            i = i + 1;
        }
        v
    }

    /// Parses a preset from its display name, ignoring surrounding white space.
    pub fn from_str(name: &str) -> (p: Option<Self>)
        ensures
            p == preset_from_name(name@),
    {
        let chars = chars_of(name);
        let t = trim_chars(chars.as_slice());
        if chars_eq(t.as_slice(), "minimal") {
            Some(BottomPlayerPreset::Minimal)
        } else if chars_eq(t.as_slice(), "default") {
            Some(BottomPlayerPreset::Default)
        } else if chars_eq(t.as_slice(), "audiophile") {
            Some(BottomPlayerPreset::Audiophile)
        } else {
            None
        }
    }

    /// Resolves a preset from a drop-down index.
    pub fn from_index(index: usize) -> (p: Option<Self>)
        ensures
            p == (if index < 3 {
                Some(all_presets()[index as int])
            } else {
                None
            }),
    {
        let all = Self::all();
        if index < 3 {
            Some(all[index])
        } else {
            None
        }
    }

    /// Returns the ordered list of elements this preset exposes.
    pub fn elements(self) -> (v: Vec<BottomPlayerElement>)
        ensures
            v@ == preset_elements(self),
    {
        let v = match self {
            BottomPlayerPreset::Minimal => vec![
                BottomPlayerElement::Cover,
                BottomPlayerElement::Song,
                BottomPlayerElement::Controls,
            ],
            BottomPlayerPreset::Default => vec![
                BottomPlayerElement::Cover,
                BottomPlayerElement::Song,
                BottomPlayerElement::Artist,
                BottomPlayerElement::Progress,
                BottomPlayerElement::Controls,
                BottomPlayerElement::Volume,
            ],
            BottomPlayerPreset::Audiophile => vec![
                BottomPlayerElement::Cover,
                BottomPlayerElement::Song,
                BottomPlayerElement::Artist,
                BottomPlayerElement::Waveform,
                BottomPlayerElement::Bitrate,
                BottomPlayerElement::SampleRate,
                BottomPlayerElement::Codec,
                BottomPlayerElement::Device,
                BottomPlayerElement::Progress,
                BottomPlayerElement::Controls,
                BottomPlayerElement::Volume,
            ],
        };
        assert(v@ =~= preset_elements(self));
        v
    }
}

/// Returns the canonical element list for the default preset.
pub fn default_elements() -> (v: Vec<BottomPlayerElement>)
    ensures
        v@ == preset_elements(BottomPlayerPreset::Default),
{
    BottomPlayerPreset::default().elements()
}

/// Every preset survives a trip through its name and through its index.
pub proof fn law_preset_round_trips(p: BottomPlayerPreset)
    ensures
        preset_from_name(preset_name(p)) == Some(p),
        preset_index(p) < 3 && all_presets()[preset_index(p) as int] == p,
{
    reveal_strlit("minimal");
    reveal_strlit("default");
    reveal_strlit("audiophile");
    let n = preset_name(p);
    assert(trim_start(n) == n);
    assert(trim_end(n) == n);
}

} // verus!
