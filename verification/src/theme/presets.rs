//! Ready-made theme presets: a catalog of light and dark palettes selectable
//! from the Settings page.
//!
//! Seven presets ship with the app: four light (white-ish backgrounds with
//! dark text) and three dark (deep backgrounds with light text). Every preset
//! has a distinct accent, and text colors contrast with the background.

use vstd::prelude::*;

use crate::text::str_eq;
use crate::theme::{palette_colors, Palette};

verus! {

/// A named, ready-made theme preset.
///
/// Hex colors are stored as `&'static str` so the catalog can live as a
/// constant; [`ThemePreset::palette`] materializes a [`Palette`] on demand.
pub struct ThemePreset {
    /// Canonical name, used in config (`theme.preset`) and the settings combo.
    pub name: &'static str,
    /// Window / page background.
    pub background: &'static str,
    /// Raised surface background.
    pub surface: &'static str,
    /// Overlay / elevated elements.
    pub overlay: &'static str,
    /// Primary accent color.
    pub accent: &'static str,
    /// Primary text color.
    pub text: &'static str,
    /// Secondary (muted) text color.
    pub subtext: &'static str,
}

/// The six colors of a preset, in palette field order.
pub open spec fn preset_colors(t: ThemePreset) -> (
    Seq<char>,
    Seq<char>,
    Seq<char>,
    Seq<char>,
    Seq<char>,
    Seq<char>,
) {
    (t.background@, t.surface@, t.overlay@, t.accent@, t.text@, t.subtext@)
}

impl ThemePreset {
    /// Builds the [`Palette`] for this preset.
    pub fn palette(&self) -> (p: Palette)
        ensures
            palette_colors(p) == preset_colors(*self),
    {
        Palette {
            background: self.background.to_string(),
            surface: self.surface.to_string(),
            overlay: self.overlay.to_string(),
            accent: self.accent.to_string(),
            text: self.text.to_string(),
            subtext: self.subtext.to_string(),
        }
    }
}

/// Catalog of every built-in preset, ordered as shown in the Settings combo.
pub open spec fn catalog() -> Seq<ThemePreset> {
    seq![
        ThemePreset {
            name: "Snow",
            background: "#ffffff",
            surface: "#f4f4f5",
            overlay: "#e4e4e7",
            accent: "#e11d48",
            text: "#18181b",
            subtext: "#71717a",
        },
        ThemePreset {
            name: "Pearl",
            background: "#fdfbf7",
            surface: "#f6f0e7",
            overlay: "#ece3d3",
            accent: "#b45309",
            text: "#292524",
            subtext: "#78716c",
        },
        ThemePreset {
            name: "Cloud",
            background: "#f4f6fb",
            surface: "#e8edf6",
            overlay: "#d9e1ef",
            accent: "#2563eb",
            text: "#0f172a",
            subtext: "#64748b",
        },
        ThemePreset {
            name: "Porcelain",
            background: "#f7f8f7",
            surface: "#eceded",
            overlay: "#dfe2e0",
            accent: "#0d9488",
            text: "#1c1917",
            subtext: "#6b7280",
        },
        ThemePreset {
            name: "Midnight",
            background: "#0f1115",
            surface: "#191d24",
            overlay: "#232833",
            accent: "#bd93f9",
            text: "#e6e6eb",
            subtext: "#8b94a3",
        },
        ThemePreset {
            name: "Slate",
            background: "#1e293b",
            surface: "#273449",
            overlay: "#334158",
            accent: "#38bdf8",
            text: "#f1f5f9",
            subtext: "#94a3b8",
        },
        ThemePreset {
            name: "Charcoal",
            background: "#17171a",
            surface: "#212125",
            overlay: "#2d2d33",
            accent: "#1db954",
            text: "#f5f5f5",
            subtext: "#a1a1aa",
        },
    ]
}

/// Returns the catalog of every built-in preset, in display order.
pub fn all() -> (r: Vec<ThemePreset>)
    ensures
        r@ == catalog(),
{
    let r = vec![
        ThemePreset {
            name: "Snow",
            background: "#ffffff",
            surface: "#f4f4f5",
            overlay: "#e4e4e7",
            accent: "#e11d48",
            text: "#18181b",
            subtext: "#71717a",
        },
        ThemePreset {
            name: "Pearl",
            background: "#fdfbf7",
            surface: "#f6f0e7",
            overlay: "#ece3d3",
            accent: "#b45309",
            text: "#292524",
            subtext: "#78716c",
        },
        ThemePreset {
            name: "Cloud",
            background: "#f4f6fb",
            surface: "#e8edf6",
            overlay: "#d9e1ef",
            accent: "#2563eb",
            text: "#0f172a",
            subtext: "#64748b",
        },
        ThemePreset {
            name: "Porcelain",
            background: "#f7f8f7",
            surface: "#eceded",
            overlay: "#dfe2e0",
            accent: "#0d9488",
            text: "#1c1917",
            subtext: "#6b7280",
        },
        ThemePreset {
            name: "Midnight",
            background: "#0f1115",
            surface: "#191d24",
            overlay: "#232833",
            accent: "#bd93f9",
            text: "#e6e6eb",
            subtext: "#8b94a3",
        },
        ThemePreset {
            name: "Slate",
            background: "#1e293b",
            surface: "#273449",
            overlay: "#334158",
            accent: "#38bdf8",
            text: "#f1f5f9",
            subtext: "#94a3b8",
        },
        ThemePreset {
            name: "Charcoal",
            background: "#17171a",
            surface: "#212125",
            overlay: "#2d2d33",
            accent: "#1db954",
            text: "#f5f5f5",
            subtext: "#a1a1aa",
        },
    ];
    assert(r@ =~= catalog());
    r
}

/// Index of the first preset in `s` named `name`.
pub open spec fn first_named(s: Seq<ThemePreset>, name: Seq<char>) -> Option<int>
    decreases s.len(),
{
    if s.len() == 0 {
        None
    } else if s[0].name@ == name {
        Some(0)
    } else {
        match first_named(s.drop_first(), name) {
            Some(k) => Some(k + 1),
            None => None,
        }
    }
}

proof fn lemma_first_named_skip(s: Seq<ThemePreset>, name: Seq<char>, i: int)
    requires
        0 <= i <= s.len(),
        forall|k: int| 0 <= k < i ==> (#[trigger] s[k]).name@ != name,
    ensures
        first_named(s, name) == match first_named(s.skip(i), name) {
            Some(k) => Some(k + i),
            None => None,
        },
    decreases i,
{
    if i > 0 {
        lemma_first_named_skip(s.drop_first(), name, i - 1);
        assert(s.drop_first().skip(i - 1) =~= s.skip(i));
    } else {
        assert(s.skip(0) =~= s);
    }
}

/// Resolves a preset palette by name, returning `None` for unknown names.
pub fn resolve(name: &str) -> (r: Option<Palette>)
    ensures
        match first_named(catalog(), name@) {
            Some(k) => match r {
                Some(p) => palette_colors(p) == preset_colors(catalog()[k]),
                None => false,
            },
            None => r is None,
        },
{
    let presets = all();
    let mut i: usize = 0;
    while i < presets.len()
        invariant
            i <= presets@.len(),
            presets@ == catalog(),
            forall|k: int| 0 <= k < i ==> (#[trigger] presets@[k]).name@ != name@,
        decreases presets@.len() - i,
    {
        if str_eq(presets[i].name, name) {
            proof {
                lemma_first_named_skip(presets@, name@, i as int);
            }
            return Some(presets[i].palette());
        }
        i = i + 1;
    }
    proof {
        lemma_first_named_skip(presets@, name@, i as int);
    }
    None
}

/// Every preset of the catalog is found by its own name: the names are
/// distinct, so [`resolve`] gives each preset's own palette.
pub proof fn law_presets_resolve_by_name(k: int)
    requires
        0 <= k < catalog().len(),
    ensures
        first_named(catalog(), catalog()[k].name@) == Some(k),
{
    reveal_strlit("Snow");
    reveal_strlit("Pearl");
    reveal_strlit("Cloud");
    reveal_strlit("Porcelain");
    reveal_strlit("Midnight");
    reveal_strlit("Slate");
    reveal_strlit("Charcoal");
    let c = catalog();
    let name = c[k].name@;
    assert forall|j: int| 0 <= j < k implies (#[trigger] c[j]).name@ != name by {
        assert(c[j].name@.len() != name.len() || c[j].name@[0] != name[0] || c[j].name@ != name);
    }
    lemma_first_named_skip(c, name, k);
    assert(c.skip(k)[0] == c[k]);
}

} // verus!
