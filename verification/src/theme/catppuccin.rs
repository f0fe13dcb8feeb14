//! Official Catppuccin palette data for all four flavors.
//!
//! Values are taken from the Catppuccin reference palette. For every flavor
//! the accent lookup falls back to `mauve` when an unknown name is requested.

use vstd::prelude::*;

use crate::config::schema::Flavor;
use crate::text::{chars_eq, chars_of};
use crate::theme::{palette_colors, Palette};

verus! {

/// Valid accent names, sorted alphabetically.
pub const ALL_ACCENTS: [&'static str; 14] = [
    "blue",
    "flamingo",
    "green",
    "lavender",
    "maroon",
    "mauve",
    "peach",
    "pink",
    "red",
    "rosewater",
    "sapphire",
    "sky",
    "teal",
    "yellow",
];

/// The index of a flavor in the color tables: mocha, macchiato, frappe, latte.
pub open spec fn flavor_index(flavor: Flavor) -> int {
    match flavor {
        Flavor::Mocha => 0,
        Flavor::Macchiato => 1,
        Flavor::Frappe => 2,
        Flavor::Latte => 3,
    }
}

/// The `i`-th of four values.
pub open spec fn pick4(i: int, a: Seq<char>, b: Seq<char>, c: Seq<char>, d: Seq<char>) -> Seq<
    char,
> {
    if i == 0 {
        a
    } else if i == 1 {
        b
    } else if i == 2 {
        c
    } else {
        d
    }
}

/// Base background per flavor index.
pub open spec fn base_background(i: int) -> Seq<char> {
    pick4(i, "#1e1e2e"@, "#24273a"@, "#303446"@, "#eff1f5"@)
}

/// Base surface per flavor index.
pub open spec fn base_surface(i: int) -> Seq<char> {
    pick4(i, "#313244"@, "#363a4f"@, "#414559"@, "#e6e9ef"@)
}

/// Base overlay per flavor index.
pub open spec fn base_overlay(i: int) -> Seq<char> {
    pick4(i, "#45475a"@, "#494d64"@, "#51576d"@, "#dce0e8"@)
}

/// Base text per flavor index.
pub open spec fn base_text(i: int) -> Seq<char> {
    pick4(i, "#cdd6f4"@, "#cad3f5"@, "#c6d0f5"@, "#4c4f69"@)
}

/// Base subtext per flavor index.
pub open spec fn base_subtext(i: int) -> Seq<char> {
    pick4(i, "#a6adc8"@, "#b8c0e0"@, "#b5bfe2"@, "#6c6f85"@)
}

/// The mauve accent per flavor index, the fallback for unknown accent names.
pub open spec fn mauve(i: int) -> Seq<char> {
    pick4(i, "#cba6f7"@, "#c6a0f6"@, "#ca9ee6"@, "#8839ef"@)
}

/// The hex of accent `name` for flavor index `i`, `None` for unknown names.
pub open spec fn accent_hex(name: Seq<char>, i: int) -> Option<Seq<char>> {
    if name == "rosewater"@ {
        Some(pick4(i, "#f5e0dc"@, "#f4dbd6"@, "#f2d5cf"@, "#dc8a78"@))
    } else if name == "flamingo"@ {
        Some(pick4(i, "#f2cdcd"@, "#f0c6c6"@, "#eebebe"@, "#dd7878"@))
    } else if name == "pink"@ {
        Some(pick4(i, "#f5c2e7"@, "#f5bde6"@, "#f4b8e4"@, "#ea76cb"@))
    } else if name == "mauve"@ {
        Some(mauve(i))
    } else if name == "red"@ {
        Some(pick4(i, "#f38ba8"@, "#ed8796"@, "#e78284"@, "#d20f39"@))
    } else if name == "maroon"@ {
        Some(pick4(i, "#eba0ac"@, "#ee99a0"@, "#ea999c"@, "#e64553"@))
    } else if name == "peach"@ {
        Some(pick4(i, "#fab387"@, "#f5a97f"@, "#ef9f76"@, "#fe640b"@))
    } else if name == "yellow"@ {
        Some(pick4(i, "#f9e2af"@, "#eed49f"@, "#e5c890"@, "#df8e1d"@))
    } else if name == "green"@ {
        Some(pick4(i, "#a6e3a1"@, "#a6da95"@, "#a6d189"@, "#40a02b"@))
    } else if name == "teal"@ {
        Some(pick4(i, "#94e2d5"@, "#8bd5ca"@, "#81c8be"@, "#179299"@))
    } else if name == "sky"@ {
        Some(pick4(i, "#89dceb"@, "#91d7e3"@, "#99d1db"@, "#04a5e5"@))
    } else if name == "sapphire"@ {
        Some(pick4(i, "#74c7ec"@, "#7dc4e4"@, "#85c1dc"@, "#209fb5"@))
    } else if name == "blue"@ {
        Some(pick4(i, "#89b4fa"@, "#8aadf4"@, "#8caaee"@, "#1e66f5"@))
    } else if name == "lavender"@ {
        Some(pick4(i, "#b4befe"@, "#b7bdf8"@, "#babbf1"@, "#7287fd"@))
    } else {
        None
    }
}

/// The accent a palette gets: the named accent, or mauve for unknown names.
pub open spec fn resolved_accent(name: Seq<char>, i: int) -> Seq<char> {
    match accent_hex(name, i) {
        Some(h) => h,
        None => mauve(i),
    }
}

/// Maps a flavor to the index used by the color tables.
fn flavor_index_of(flavor: Flavor) -> (i: usize)
    ensures
        i == flavor_index(flavor),
{
    match flavor {
        Flavor::Mocha => 0,
        Flavor::Macchiato => 1,
        Flavor::Frappe => 2,
        Flavor::Latte => 3,
    }
}

/// Chooses one of four values by flavor index.
fn choose4(i: usize, a: &'static str, b: &'static str, c: &'static str, d: &'static str) -> (r:
    &'static str)
    ensures
        r@ == pick4(i as int, a@, b@, c@, d@),
{
    if i == 0 {
        a
    } else if i == 1 {
        b
    } else if i == 2 {
        c
    } else {
        d
    }
}

/// Returns the accent hex for the fallback `mauve` accent of a flavor.
fn mauve_for(i: usize) -> (r: &'static str)
    ensures
        r@ == mauve(i as int),
{
    choose4(i, "#cba6f7", "#c6a0f6", "#ca9ee6", "#8839ef")
}

/// Looks up the hex of an accent name for a flavor index.
fn accent_lookup(name: &[char], i: usize) -> (r: Option<&'static str>)
    ensures
        match r {
            Some(h) => accent_hex(name@, i as int) == Some(h@),
            None => accent_hex(name@, i as int) is None,
        },
{
    if chars_eq(name, "rosewater") {
        Some(choose4(i, "#f5e0dc", "#f4dbd6", "#f2d5cf", "#dc8a78"))
    } else if chars_eq(name, "flamingo") {
        Some(choose4(i, "#f2cdcd", "#f0c6c6", "#eebebe", "#dd7878"))
    } else if chars_eq(name, "pink") {
        Some(choose4(i, "#f5c2e7", "#f5bde6", "#f4b8e4", "#ea76cb"))
    } else if chars_eq(name, "mauve") {
        Some(mauve_for(i))
    } else if chars_eq(name, "red") {
        Some(choose4(i, "#f38ba8", "#ed8796", "#e78284", "#d20f39"))
    } else if chars_eq(name, "maroon") {
        Some(choose4(i, "#eba0ac", "#ee99a0", "#ea999c", "#e64553"))
    } else if chars_eq(name, "peach") {
        Some(choose4(i, "#fab387", "#f5a97f", "#ef9f76", "#fe640b"))
    } else if chars_eq(name, "yellow") {
        Some(choose4(i, "#f9e2af", "#eed49f", "#e5c890", "#df8e1d"))
    } else if chars_eq(name, "green") {
        Some(choose4(i, "#a6e3a1", "#a6da95", "#a6d189", "#40a02b"))
    } else if chars_eq(name, "teal") {
        Some(choose4(i, "#94e2d5", "#8bd5ca", "#81c8be", "#179299"))
    } else if chars_eq(name, "sky") {
        Some(choose4(i, "#89dceb", "#91d7e3", "#99d1db", "#04a5e5"))
    } else if chars_eq(name, "sapphire") {
        Some(choose4(i, "#74c7ec", "#7dc4e4", "#85c1dc", "#209fb5"))
    } else if chars_eq(name, "blue") {
        Some(choose4(i, "#89b4fa", "#8aadf4", "#8caaee", "#1e66f5"))
    } else if chars_eq(name, "lavender") {
        Some(choose4(i, "#b4befe", "#b7bdf8", "#babbf1", "#7287fd"))
    } else {
        None
    }
}

/// Resolves a palette for a flavor, honoring `accent` (falling back to
/// `mauve` for unknown accent names).
pub fn palette_for(flavor: Flavor, accent: &str) -> (p: Palette)
    ensures
        ({
            let i = flavor_index(flavor);
            palette_colors(p) == (
                base_background(i),
                base_surface(i),
                base_overlay(i),
                resolved_accent(accent@, i),
                base_text(i),
                base_subtext(i),
            )
        }),
{
    let i = flavor_index_of(flavor);
    let name = chars_of(accent);
    let accent_hex = match accent_lookup(&name, i) {
        Some(h) => h,
        None => mauve_for(i),
    };
    Palette {
        background: choose4(i, "#1e1e2e", "#24273a", "#303446", "#eff1f5").to_string(),
        surface: choose4(i, "#313244", "#363a4f", "#414559", "#e6e9ef").to_string(),
        overlay: choose4(i, "#45475a", "#494d64", "#51576d", "#dce0e8").to_string(),
        accent: accent_hex.to_string(),
        text: choose4(i, "#cdd6f4", "#cad3f5", "#c6d0f5", "#4c4f69").to_string(),
        subtext: choose4(i, "#a6adc8", "#b8c0e0", "#b5bfe2", "#6c6f85").to_string(),
    }
}

/// Every accent name offered in [`ALL_ACCENTS`] has its own color in every
/// flavor: none of them falls back to mauve by accident.
pub proof fn law_offered_accents_known(k: int, flavor: Flavor)
    requires
        0 <= k < 14,
    ensures
        accent_hex(ALL_ACCENTS@[k]@, flavor_index(flavor)) is Some,
{
    reveal_strlit("blue");
    reveal_strlit("flamingo");
    reveal_strlit("green");
    reveal_strlit("lavender");
    reveal_strlit("maroon");
    reveal_strlit("mauve");
    reveal_strlit("peach");
    reveal_strlit("pink");
    reveal_strlit("red");
    reveal_strlit("rosewater");
    reveal_strlit("sapphire");
    reveal_strlit("sky");
    reveal_strlit("teal");
    reveal_strlit("yellow");
    let n = ALL_ACCENTS@[k]@;
    assert(n == ALL_ACCENTS[k as int]@);
}

} // verus!
