//! GTK CSS generation.
//!
//! [`generate_css`] emits the palette-dependent stylesheet and [`full_css`]
//! prepends the bundled base stylesheet.

use vstd::prelude::*;
use vstd::string::StringExecFns;

use vstd::utf8::{encode_scalar, encode_utf8, is_ascii_chars, is_ascii_chars_encode_utf8, is_continuation_byte};
use crate::theme::dynamic::{rgb_hex, rgb_to_hex};
use crate::theme::Palette;

verus! {

/// The static part of the theme: layout and shape rules that every palette
/// shares. Colors come from the `@define-color` names that [`generate_css`]
/// emits.
pub const BASE_CSS: &'static str = "/* Chromia base stylesheet: layout and shapes shared by every palette. */
.chromia-shell {
    background-color: @background;
    color: @text;
}

.chromia-sidebar,
.chromia-right-panel {
    background-color: @surface;
    padding: 6px;
}

.chromia-bottom-player {
    background-color: @surface;
    border-top: 1px solid @border;
    padding: 8px 12px;
}

.chromia-card,
.chromia-slot,
.chromia-album-card {
    background-color: @surface;
    border-radius: 12px;
    padding: 8px;
}

.chromia-album-card:hover {
    background-color: @overlay;
}

.chromia-shell button.suggested-action {
    background-color: @accent;
    color: @background;
}

.chromia-shell button.suggested-action:hover {
    background-color: @accent-hover;
}

.chromia-shell scale highlight {
    background-color: @accent;
}

.chromia-shell entry {
    background-color: @overlay;
    color: @text;
}
";

/// The widget rules that follow the color definitions in [`generate_css`].
pub const WIDGET_RULES: &'static str = "
window {
    background-color: @background;
    color: @text;
}

.chromia-cover {
    border-radius: 8px;
}

.chromia-title {
    color: @text;
    font-weight: bold;
}

.chromia-subtitle {
    color: @subtext;
}

.chromia-row-title {
    color: @text;
}

.chromia-row-subtitle {
    color: @subtext;
}

.chromia-lyrics-text {
    color: @text;
}

.chromia-list row:hover {
    background-color: @overlay;
}

.chromia-list row.current {
    background-color: alpha(@accent, 0.18);
}
";

/// Returns the bundled base stylesheet.
pub fn load_base_css() -> (s: &'static str)
    ensures
        s@ == BASE_CSS@,
{
    BASE_CSS
}

/// The value of a hexadecimal digit byte (either case), `None` for other
/// bytes.
pub open spec fn hex_digit(b: u8) -> Option<int> {
    if 48 <= b <= 57 {
        Some(b - 48)
    } else if 97 <= b <= 102 {
        Some(b - 87)
    } else if 65 <= b <= 70 {
        Some(b - 55)
    } else {
        None
    }
}

/// `b` without its leading `#` bytes.
pub open spec fn strip_hashes(b: Seq<u8>) -> Seq<u8>
    decreases b.len(),
{
    if b.len() > 0 && b[0] == 35 {
        strip_hashes(b.drop_first())
    } else {
        b
    }
}

/// What `u8::from_str_radix(_, 16)` reads from a two-byte string, with 0 in
/// place of an error: two hex digits, or a `+` sign and one digit.
pub open spec fn hex_byte(a: u8, b: u8) -> int {
    if a == 43 {
        match hex_digit(b) {
            Some(v) => v,
            None => 0,
        }
    } else {
        match (hex_digit(a), hex_digit(b)) {
            (Some(x), Some(y)) => 16 * x + y,
            _ => 0,
        }
    }
}

/// The bytes a color's channels are read from: its UTF-8 encoding without
/// the leading `#`s.
pub open spec fn hex_body(s: Seq<char>) -> Seq<u8> {
    strip_hashes(encode_utf8(s))
}

/// Whether byte offset `k` of `t` starts a character or ends the text.
pub open spec fn char_boundary(t: Seq<u8>, k: int) -> bool {
    k == t.len() || (0 <= k < t.len() && !is_continuation_byte(t[k]))
}

/// A color string that can be cut into three two-byte channels: after its
/// leading `#`s it has at least six bytes, and the cuts at bytes 2, 4 and 6
/// fall between characters.
pub open spec fn hex_ok(s: Seq<char>) -> bool {
    let t = hex_body(s);
    &&& t.len() >= 6
    &&& char_boundary(t, 2)
    &&& char_boundary(t, 4)
    &&& char_boundary(t, 6)
}

/// The `(r, g, b)` channels of a `#rrggbb` string.
pub open spec fn parse_hex(s: Seq<char>) -> (int, int, int) {
    let t = hex_body(s);
    (hex_byte(t[0], t[1]), hex_byte(t[2], t[3]), hex_byte(t[4], t[5]))
}

/// A channel mixed `percent`% toward white, rounded half away from zero.
pub open spec fn mix(c: int, percent: int) -> int {
    (100 * c + (255 - c) * percent + 50) / 100
}

/// The color `s` mixed `percent`% toward white.
pub open spec fn lightened(s: Seq<char>, percent: int) -> Seq<char> {
    let (r, g, b) = parse_hex(s);
    rgb_hex(mix(r, percent), mix(g, percent), mix(b, percent))
}

/// The palette block: one `@define-color` line per palette color and per
/// derived color, then the widget rules.
pub open spec fn palette_block(p: Palette) -> Seq<char> {
    "@define-color background "@ + p.background@ + ";\n@define-color surface "@ + p.surface@
        + ";\n@define-color overlay "@ + p.overlay@ + ";\n@define-color accent "@ + p.accent@
        + ";\n@define-color text "@ + p.text@ + ";\n@define-color subtext "@ + p.subtext@
        + ";\n@define-color border "@ + lightened(p.overlay@, 15)
        + ";\n@define-color accent-hover "@ + lightened(p.accent@, 10) + ";\n"@ + WIDGET_RULES@
}

/// The value of a hexadecimal digit byte.
fn hex_digit_of(c: u8) -> (r: Option<u8>)
    ensures
        match r {
            Some(v) => hex_digit(c) == Some(v as int) && v < 16,
            None => hex_digit(c) is None,
        },
{
    if 48 <= c && c <= 57 {
        Some(c - 48)
    } else if 97 <= c && c <= 102 {
        Some(c - 87)
    } else if 65 <= c && c <= 70 {
        Some(c - 55)
    } else {
        None
    }
}

/// Reads two bytes as one hex byte, 0 when they are not one.
fn hex_byte_of(a: u8, b: u8) -> (r: u8)
    ensures
        r as int == hex_byte(a, b),
{
    if a == 43 {
        match hex_digit_of(b) {
            Some(v) => v,
            None => 0,
        }
    } else {
        match (hex_digit_of(a), hex_digit_of(b)) {
            (Some(x), Some(y)) => x * 16 + y,
            _ => 0,
        }
    }
}

proof fn lemma_strip_hashes_skip(s: Seq<u8>, i: int)
    requires
        0 <= i <= s.len(),
        forall|k: int| 0 <= k < i ==> s[k] == 35,
    ensures
        strip_hashes(s) == strip_hashes(s.skip(i)),
    decreases i,
{
    if i > 0 {
        lemma_strip_hashes_skip(s.drop_first(), i - 1);
        assert(s.drop_first().skip(i - 1) =~= s.skip(i));
    } else {
        assert(s.skip(0) =~= s);
    }
}

/// The offset of the first byte of `bytes` that is not `#`, with the body
/// after it.
fn skip_hashes(bytes: &[u8]) -> (i: usize)
    ensures
        i <= bytes@.len(),
        strip_hashes(bytes@) == bytes@.skip(i as int),
{
    let mut i: usize = 0;
    while i < bytes.len() && bytes[i] == 35
        invariant
            i <= bytes@.len(),
            forall|k: int| 0 <= k < i ==> bytes@[k] == 35,
        decreases bytes@.len() - i,
    {
        i = i + 1;
    }
    proof {
        lemma_strip_hashes_skip(bytes@, i as int);
        assert(strip_hashes(bytes@.skip(i as int)) == bytes@.skip(i as int));
    }
    i
}

/// Parses a `#rrggbb` hex string into its channels; a channel that is not
/// hex reads as 0.
pub fn parse_hex_channels(hex: &str) -> (r: (u8, u8, u8))
    requires
        hex_ok(hex@),
    ensures
        (r.0 as int, r.1 as int, r.2 as int) == parse_hex(hex@),
{
    let bytes = hex.as_bytes();
    let i = skip_hashes(bytes);
    let ghost t = hex_body(hex@);
    assert(t == bytes@.skip(i as int));
    assert(forall|k: int| 0 <= k < 6 ==> t[k] == bytes@[i + k]);
    (
        hex_byte_of(bytes[i], bytes[i + 1]),
        hex_byte_of(bytes[i + 2], bytes[i + 3]),
        hex_byte_of(bytes[i + 4], bytes[i + 5]),
    )
}

/// Whether a byte continues a character rather than starting one.
fn continues(b: u8) -> (r: bool)
    ensures
        r == is_continuation_byte(b),
{
    0x80 <= b && b <= 0xbf
}

/// Whether `hex` can be cut into three two-byte channels, which
/// [`parse_hex_channels`], [`lighten`] and [`generate_css`] need.
pub fn hex_channels_ok(hex: &str) -> (r: bool)
    ensures
        r == hex_ok(hex@),
{
    let bytes = hex.as_bytes();
    let i = skip_hashes(bytes);
    let n = bytes.len();
    let ghost t = hex_body(hex@);
    assert(t == bytes@.skip(i as int));
    if n - i < 6 {
        return false;
    }
    assert(t[2] == bytes@[i + 2] && t[4] == bytes@[i + 4]);
    let at_six = n - i == 6 || !continues(bytes[i + 6]);
    proof {
        if n - i > 6 {
            assert(t[6] == bytes@[i + 6]);
        }
    }
    !continues(bytes[i + 2]) && !continues(bytes[i + 4]) && at_six
}

/// A channel mixed `percent`% toward white.
fn mix_channel(c: u8, percent: u64) -> (r: u8)
    requires
        percent <= 100,
    ensures
        r as int == mix(c as int, percent as int),
{
    let c64 = c as u64;
    assert((255 - c64) * percent <= 25500) by (nonlinear_arith)
        requires
            c64 <= 255,
            percent <= 100,
    ;
    let v = (100 * c64 + (255 - c64) * percent + 50) / 100;
    assert(v <= 255) by (nonlinear_arith)
        requires
            v == (100 * c64 + (255 - c64) * percent + 50) / 100,
            c64 <= 255,
            percent <= 100,
    ;
    v as u8
}

/// Lightens a `#rrggbb` color by mixing it `percent`% (0 to 100) toward white.
pub fn lighten(hex: &str, percent: u64) -> (s: String)
    requires
        hex_ok(hex@),
        percent <= 100,
    ensures
        s@ == lightened(hex@, percent as int),
{
    let (r, g, b) = parse_hex_channels(hex);
    rgb_to_hex([mix_channel(r, percent), mix_channel(g, percent), mix_channel(b, percent)])
}

/// Generates the palette-specific CSS block for a resolved palette.
///
/// Emits `@define-color` directives for every palette color plus the derived
/// colors `border` (the overlay 15% toward white) and `accent-hover` (the
/// accent 10% toward white), then widget rules targeting the `chromia-*`
/// style classes.
pub fn generate_css(palette: &Palette) -> (css: String)
    requires
        hex_ok(palette.overlay@),
        hex_ok(palette.accent@),
    ensures
        css@ == palette_block(*palette),
{
    let border = lighten(palette.overlay.as_str(), 15);
    let accent_hover = lighten(palette.accent.as_str(), 10);
    let mut css = String::new();
    css.append("@define-color background ");
    css.append(palette.background.as_str());
    css.append(";\n@define-color surface ");
    css.append(palette.surface.as_str());
    css.append(";\n@define-color overlay ");
    css.append(palette.overlay.as_str());
    css.append(";\n@define-color accent ");
    css.append(palette.accent.as_str());
    css.append(";\n@define-color text ");
    css.append(palette.text.as_str());
    css.append(";\n@define-color subtext ");
    css.append(palette.subtext.as_str());
    css.append(";\n@define-color border ");
    css.append(border.as_str());
    css.append(";\n@define-color accent-hover ");
    css.append(accent_hover.as_str());
    css.append(";\n");
    css.append(WIDGET_RULES);
    assert(css@ =~= palette_block(*palette));
    css
}

/// Builds the full stylesheet: the base stylesheet, a newline, then the
/// palette block.
pub fn full_css(palette: &Palette) -> (css: String)
    requires
        hex_ok(palette.overlay@),
        hex_ok(palette.accent@),
    ensures
        css@ == BASE_CSS@ + "\n"@ + palette_block(*palette),
{
    let mut css = String::new();
    css.append(load_base_css());
    css.append("\n");
    let block = generate_css(palette);
    css.append(block.as_str());
    assert(css@ =~= BASE_CSS@ + "\n"@ + palette_block(*palette));
    css
}

/// The appearance block up to the shell's corner radius.
pub const APPEARANCE_SHELL: &'static str = "/* ═══ Appearance knobs (radius / blur / glass) ═══ */\n.chromia-shell.appearance {\n    border-radius: ";

/// From the shell's radius to the window's.
pub const APPEARANCE_WINDOW: &'static str = "px;\n}\nwindow.appearance {\n    border-radius: ";

/// From the window's radius to the cards'.
pub const APPEARANCE_CARDS: &'static str = "px;\n}\n.chromia-card,\n.chromia-slot,\n.chromia-cover,\n.chromia-album-card {\n    border-radius: ";

/// From the cards' radius to the glass panels' tint.
pub const GLASS_PANELS: &'static str = "px;\n}\n\n/* Glass is opt-in via the `.glass` root class set on the shell. */\n.chromia-shell.glass .chromia-sidebar,\n.chromia-shell.glass .chromia-right-panel,\n.chromia-shell.glass .chromia-bottom-player {\n    background-color: alpha(@surface, ";

/// From a glass tint to its blur radius.
pub const GLASS_BLUR: &'static str = ");\n    backdrop-filter: blur(";

/// From the panels' blur to the glass cards' tint.
pub const GLASS_CARDS: &'static str = "px);\n}\n.chromia-shell.glass .chromia-shell {\n    background-color: alpha(@background, 0.78);\n}\n.chromia-shell.glass .chromia-card,\n.chromia-shell.glass .card {\n    background-color: alpha(@surface, ";

/// After the cards' blur: the hairline edges of the glass panels.
pub const GLASS_EDGES: &'static str = "px);\n}\n\n/* Muted, hairline edges so translucent panels stay legible without blur. */\n.chromia-shell.glass .chromia-sidebar,\n.chromia-shell.glass .chromia-right-panel,\n.chromia-shell.glass .chromia-bottom-player {\n    box-shadow: inset 0 0 0 1px alpha(white, 0.04);\n}\n";

/// The appearance block: the corner radius of the shell, the window and the
/// cards, and the Glass UI fill of the panels and cards (the tint as the
/// alpha of the surface color, then the blur radius), with hairline edges.
pub open spec fn appearance_block(radius: nat, blur: nat, tint: Seq<char>) -> Seq<char> {
    let r = crate::ui::widgets::player::decimal_text(radius);
    let b = crate::ui::widgets::player::decimal_text(blur);
    APPEARANCE_SHELL@ + r + APPEARANCE_WINDOW@ + r + APPEARANCE_CARDS@ + r + GLASS_PANELS@ + tint
        + GLASS_BLUR@ + b + GLASS_CARDS@ + tint + GLASS_BLUR@ + b + GLASS_EDGES@
}

/// The corner radius the appearance block uses: at least one pixel.
pub open spec fn shown_radius(border_radius: u32) -> nat {
    if border_radius < 1 {
        1
    } else {
        border_radius as nat
    }
}

/// The blur the glass uses: in Strong mode twice the setting and at least
/// 28 pixels, otherwise the setting.
pub open spec fn glass_blur(blur: u8, strong: bool) -> nat {
    if strong {
        if 2 * blur < 28 {
            28
        } else {
            (2 * blur) as nat
        }
    } else {
        blur as nat
    }
}

/// Emits the appearance-driven CSS block: corner radius, blur radius and the
/// Glass UI tint. `strong` is whether Glass UI is on in its Strong mode;
/// `tint` is the fill opacity, already written out as text.
pub fn appearance_css(border_radius: u32, blur: u8, strong: bool, tint: &str) -> (css: String)
    ensures
        css@ == appearance_block(shown_radius(border_radius), glass_blur(blur, strong), tint@),
{
    let radius: u32 = if border_radius < 1 { 1 } else { border_radius };
    let glass: u16 = if strong {
        let doubled: u16 = 2 * (blur as u16);
        if doubled < 28 { 28 } else { doubled }
    } else {
        blur as u16
    };
    let mut css = String::new();
    css.append(APPEARANCE_SHELL);
    crate::ui::widgets::player::push_decimal(&mut css, radius as u64);
    css.append(APPEARANCE_WINDOW);
    crate::ui::widgets::player::push_decimal(&mut css, radius as u64);
    css.append(APPEARANCE_CARDS);
    crate::ui::widgets::player::push_decimal(&mut css, radius as u64);
    css.append(GLASS_PANELS);
    css.append(tint);
    css.append(GLASS_BLUR);
    crate::ui::widgets::player::push_decimal(&mut css, glass as u64);
    css.append(GLASS_CARDS);
    css.append(tint);
    css.append(GLASS_BLUR);
    crate::ui::widgets::player::push_decimal(&mut css, glass as u64);
    css.append(GLASS_EDGES);
    assert(css@ =~= appearance_block(shown_radius(border_radius), glass_blur(blur, strong), tint@));
    css
}

/// A character with an ASCII lowercase letter turned to uppercase.
pub open spec fn upper_char(c: char) -> char {
    if 'a' <= c && c <= 'z' {
        ((c as u32) - 32) as char
    } else {
        c
    }
}

/// Text with its ASCII lowercase letters turned to uppercase.
pub open spec fn upper_text(s: Seq<char>) -> Seq<char> {
    s.map_values(|c: char| upper_char(c))
}

/// A byte with an ASCII lowercase letter turned to uppercase.
pub open spec fn upper_byte(b: u8) -> u8 {
    if 97 <= b && b <= 122 {
        (b - 32) as u8
    } else {
        b
    }
}

proof fn lemma_high_bytes(x: u8)
    by (bit_vector)
    ensures
        (0x80u8 | x) >= 0x80u8,
        (0xC0u8 | x) >= 0x80u8,
        (0xE0u8 | x) >= 0x80u8,
        (0xF0u8 | x) >= 0x80u8,
{
}

proof fn lemma_low_byte(v: u32)
    by (bit_vector)
    requires
        v < 0x80u32,
    ensures
        ((v & 0x7Fu32) as u8) as u32 == v,
{
}

proof fn lemma_upper_scalar(c: char)
    ensures
        encode_scalar(upper_char(c) as u32) == encode_scalar(c as u32).map_values(|b: u8| upper_byte(b)),
{
    let v = c as u32;
    let f = |b: u8| upper_byte(b);
    if v < 0x80 {
        lemma_low_byte(v);
        let u = upper_char(c) as u32;
        if 'a' <= c && c <= 'z' {
            assert(u == v - 32);
        } else {
            assert(u == v);
        }
        lemma_low_byte(u);
        assert(encode_scalar(v) =~= seq![v as u8]);
        assert(encode_scalar(u) =~= seq![u as u8]);
        assert(encode_scalar(v).map_values(f) =~= seq![upper_byte(v as u8)]);
    } else {
        assert(upper_char(c) == c);
        let e = encode_scalar(v);
        lemma_high_bytes(((v >> 6) & 0x1F) as u8);
        lemma_high_bytes(((v >> 12) & 0x0F) as u8);
        lemma_high_bytes(((v >> 18) & 0x7) as u8);
        lemma_high_bytes((v & 0x3F) as u8);
        lemma_high_bytes(((v >> 6) & 0x3F) as u8);
        lemma_high_bytes(((v >> 12) & 0x3F) as u8);
        assert forall|k: int| 0 <= k < e.len() implies #[trigger] e[k] >= 0x80 by {}
        assert(e.map_values(f) =~= e);
    }
}

proof fn lemma_upper_encode(s: Seq<char>)
    ensures
        encode_utf8(upper_text(s)) == encode_utf8(s).map_values(|b: u8| upper_byte(b)),
    decreases s.len(),
{
    let f = |b: u8| upper_byte(b);
    if s.len() > 0 {
        lemma_upper_encode(s.drop_first());
        lemma_upper_scalar(s[0]);
        assert(upper_text(s).drop_first() =~= upper_text(s.drop_first()));
        assert(upper_text(s)[0] == upper_char(s[0]));
        let a = encode_scalar(s[0] as u32);
        let rest = encode_utf8(s.drop_first());
        assert((a + rest).map_values(f) =~= a.map_values(f) + rest.map_values(f));
    } else {
        assert(upper_text(s) =~= Seq::<char>::empty());
        assert(encode_utf8(s).map_values(f) =~= Seq::<u8>::empty());
    }
}

proof fn lemma_upper_strip(t: Seq<u8>)
    ensures
        strip_hashes(t.map_values(|b: u8| upper_byte(b))) == strip_hashes(t).map_values(|b: u8| upper_byte(b)),
    decreases t.len(),
{
    let f = |b: u8| upper_byte(b);
    if t.len() > 0 && t[0] == 35 {
        lemma_upper_strip(t.drop_first());
        assert(t.map_values(f).drop_first() =~= t.drop_first().map_values(f));
    }
}

proof fn lemma_upper_hex_byte(a: u8, b: u8)
    ensures
        hex_byte(upper_byte(a), upper_byte(b)) == hex_byte(a, b),
{
}

/// Reading a color ignores the case of its letters: the same color written
/// with uppercase hex digits (its ASCII letters uppercased) is as readable,
/// has the same channels, and lightens to the same color, the digits `A`-`F`
/// reading as `a`-`f` do.
pub proof fn law_hex_ignores_case(s: Seq<char>, percent: int)
    ensures
        hex_ok(upper_text(s)) == hex_ok(s),
        hex_ok(s) ==> parse_hex(upper_text(s)) == parse_hex(s),
        hex_ok(s) ==> lightened(upper_text(s), percent) == lightened(s, percent),
{
    let f = |b: u8| upper_byte(b);
    lemma_upper_encode(s);
    lemma_upper_strip(encode_utf8(s));
    let t = hex_body(s);
    let u = hex_body(upper_text(s));
    assert(u == t.map_values(f));
    assert forall|k: int| 0 <= k < t.len() implies is_continuation_byte(#[trigger] u[k])
        == is_continuation_byte(t[k]) by {}
    assert(char_boundary(u, 2) == char_boundary(t, 2));
    assert(char_boundary(u, 4) == char_boundary(t, 4));
    assert(char_boundary(u, 6) == char_boundary(t, 6));
    if hex_ok(s) {
        lemma_upper_hex_byte(t[0], t[1]);
        lemma_upper_hex_byte(t[2], t[3]);
        lemma_upper_hex_byte(t[4], t[5]);
        assert(parse_hex(upper_text(s)) == parse_hex(s));
    }
}

/// Lightening moves every channel toward white: never below the channel,
/// never past white, unchanged at 0%, white at 100%.
pub proof fn law_mix_toward_white(c: int, percent: int)
    requires
        0 <= c <= 255,
        0 <= percent <= 100,
    ensures
        c <= mix(c, percent) <= 255,
        mix(c, 0) == c,
        mix(c, 100) == 255,
{
    assert(c <= mix(c, percent) <= 255) by (nonlinear_arith)
        requires
            0 <= c <= 255,
            0 <= percent <= 100,
            mix(c, percent) == (100 * c + (255 - c) * percent + 50) / 100,
    ;
}

proof fn lemma_hex_char_value(v: int)
    requires
        0 <= v < 16,
    ensures
        (crate::theme::dynamic::hex_char(v) as u32) < 128,
        hex_digit(crate::theme::dynamic::hex_char(v) as u8) == Some(v),
        crate::theme::dynamic::hex_char(v) as u8 != 35,
        crate::theme::dynamic::hex_char(v) as u8 != 43,
{
    let d = seq!['0', '1', '2', '3', '4', '5', '6', '7', '8', '9', 'a', 'b', 'c', 'd', 'e', 'f'];
    assert(crate::theme::dynamic::hex_char(v) == d[v]);
    if v < 10 {
        assert(d[v] as int == '0' as int + v);
    } else {
        assert(d[v] as int == 'a' as int + v - 10);
    }
}

/// Reading back a formatted color gives its channels: `rgb_to_hex` and
/// `parse_hex_channels` are inverse.
pub proof fn law_hex_round_trip(r: int, g: int, b: int)
    requires
        0 <= r < 256,
        0 <= g < 256,
        0 <= b < 256,
    ensures
        hex_ok(rgb_hex(r, g, b)),
        parse_hex(rgb_hex(r, g, b)) == (r, g, b),
{
    let s = rgb_hex(r, g, b);
    lemma_hex_char_value(r / 16);
    lemma_hex_char_value(r % 16);
    lemma_hex_char_value(g / 16);
    lemma_hex_char_value(g % 16);
    lemma_hex_char_value(b / 16);
    lemma_hex_char_value(b % 16);
    assert(s =~= seq!['#'] + crate::theme::dynamic::hex2(r) + crate::theme::dynamic::hex2(g)
        + crate::theme::dynamic::hex2(b));
    assert(s.len() == 7);
    assert(is_ascii_chars(s));
    is_ascii_chars_encode_utf8(s);
    let e = encode_utf8(s);
    assert(e.len() == 7);
    assert(e[0] == 35) by {
        assert(s[0] as u8 == e[0]);
    }
    assert(forall|k: int| 1 <= k < 7 ==> #[trigger] e[k] == s[k] as u8);
    assert(strip_hashes(e.drop_first()) == e.drop_first());
    assert(hex_body(s) == e.drop_first());
}

} // verus!
