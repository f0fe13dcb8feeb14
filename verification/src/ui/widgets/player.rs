//! Formatting for the player widgets.

use vstd::prelude::*;

use crate::audio::RepeatMode;

verus! {

/// The decimal digits of `n`, most significant first (`"0"` for zero).
pub open spec fn decimal_text(n: nat) -> Seq<char>
    decreases n,
{
    if n < 10 {
        seq![digit_char(n)]
    } else {
        decimal_text(n / 10).push(digit_char(n % 10))
    }
}

/// The character of a decimal digit.
pub open spec fn digit_char(d: nat) -> char {
    seq!['0', '1', '2', '3', '4', '5', '6', '7', '8', '9'][d as int]
}

/// A duration of `secs` seconds as `m:ss`: whole minutes, a colon, and the
/// seconds as two digits.
pub open spec fn mm_ss(secs: nat) -> Seq<char> {
    let s = secs % 60;
    decimal_text(secs / 60) + seq![':', digit_char(s / 10), digit_char(s % 10)]
}

fn digit_of(d: u64) -> (c: char)
    requires
        d < 10,
    ensures
        c == digit_char(d as nat),
{
    let digits = ['0', '1', '2', '3', '4', '5', '6', '7', '8', '9'];
    assert(digits@ =~= seq!['0', '1', '2', '3', '4', '5', '6', '7', '8', '9']);
    digits[d as usize]
}

pub fn push_decimal(s: &mut String, n: u64)
    ensures
        final(s)@ == old(s)@ + decimal_text(n as nat),
    decreases n,
{
    if n >= 10 {
        push_decimal(s, n / 10);
        s.push(digit_of(n % 10));
    } else {
        s.push(digit_of(n));
        assert(decimal_text(n as nat) =~= seq![digit_char(n as nat)]);
    }
}

/// Formats a duration given in seconds as `m:ss`.
pub fn fmt_duration(secs: u64) -> (s: String)
    ensures
        s@ == mm_ss(secs as nat),
{
    let mut s = String::new();
    push_decimal(&mut s, secs / 60);
    s.push(':');
    let rest = secs % 60;
    s.push(digit_of(rest / 10));
    s.push(digit_of(rest % 10));
    assert(s@ =~= mm_ss(secs as nat));
    s
}

/// The repeat mode the repeat button moves to: off, then the whole queue,
/// then the one track, then off again.
pub open spec fn repeat_after(mode: RepeatMode) -> RepeatMode {
    match mode {
        RepeatMode::Off => RepeatMode::All,
        RepeatMode::All => RepeatMode::One,
        RepeatMode::One => RepeatMode::Off,
    }
}

/// The repeat mode after one press of the repeat button.
pub fn next_repeat_mode(mode: RepeatMode) -> (r: RepeatMode)
    ensures
        r == repeat_after(mode),
{
    match mode {
        RepeatMode::Off => RepeatMode::All,
        RepeatMode::All => RepeatMode::One,
        RepeatMode::One => RepeatMode::Off,
    }
}

/// Pressing the repeat button visits every mode: each press changes the
/// mode, and three presses bring back the mode the button started at.
pub proof fn law_repeat_button_cycles(mode: RepeatMode)
    ensures
        repeat_after(mode) != mode,
        repeat_after(repeat_after(mode)) != mode,
        repeat_after(repeat_after(repeat_after(mode))) == mode,
{
}

} // verus!
