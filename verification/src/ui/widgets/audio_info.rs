//! Readouts of the audio-info panel.

use vstd::prelude::*;
use vstd::string::StringExecFns;

use crate::ui::widgets::player::{decimal_text, push_decimal};

verus! {

/// Formats a bitrate as `N kbps`.
pub fn fmt_bitrate(kbps: u32) -> (s: String)
    ensures
        s@ == decimal_text(kbps as nat) + " kbps"@,
{
    let mut s = String::new();
    push_decimal(&mut s, kbps as u64);
    s.append(" kbps");
    assert(s@ =~= decimal_text(kbps as nat) + " kbps"@);
    s
}

/// Formats a channel count as `Mono`, `Stereo` or `N ch`.
pub fn fmt_channels(ch: u8) -> (s: String)
    ensures
        s@ == (if ch == 1 {
            "Mono"@
        } else if ch == 2 {
            "Stereo"@
        } else {
            decimal_text(ch as nat) + " ch"@
        }),
{
    if ch == 1 {
        String::from_str("Mono")
    } else if ch == 2 {
        String::from_str("Stereo")
    } else {
        let mut s = String::new();
        push_decimal(&mut s, ch as u64);
        s.append(" ch");
        assert(s@ =~= decimal_text(ch as nat) + " ch"@);
        s
    }
}

} // verus!
