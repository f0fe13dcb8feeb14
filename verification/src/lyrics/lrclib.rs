//! LRC (`.lrc`) lyrics parsing and the interpretation of lrclib.net replies.

use vstd::prelude::*;

use crate::text::{
    chars_le, chars_of, decimal, find_char, index_of_char, index_of_char_from, is_digit,
    lemma_lex_reflexive, lemma_lex_total, lemma_lex_transitive, lex_le, parse_u64,
    parse_u64_chars, string_of, sub_chars, trim, trim_chars,
};
use crate::sources::{json_member, json_parse, member_of, parse_json, text_of, JsonField};

verus! {

/// A single timestamped lyric line.
#[derive(Debug, Clone, PartialEq, Eq)]
pub struct LyricLine {
    /// Offset from the start of the track, in milliseconds.
    pub time_ms: u64,
    /// The lyric text.
    pub text: String,
}

/// Lyrics for a track, either synced (`lines`) or plain text.
#[derive(Debug, Clone, PartialEq, Eq)]
pub struct Lyrics {
    /// Timestamped lines; plain lyrics are a single line at time zero.
    pub lines: Vec<LyricLine>,
    /// The plain-text lyric blob, when the server provides it.
    pub plain: Option<String>,
}

/// A lyric line taken as (time in milliseconds, text).
pub open spec fn line_key(l: LyricLine) -> (int, Seq<char>) {
    (l.time_ms as int, l.text@)
}

/// The order of parsed lines: by time, then by text.
pub open spec fn line_le(a: (int, Seq<char>), b: (int, Seq<char>)) -> bool {
    a.0 < b.0 || (a.0 == b.0 && lex_le(a.1, b.1))
}

/// `s` without one trailing carriage return.
pub open spec fn strip_cr(s: Seq<char>) -> Seq<char> {
    if s.len() > 0 && s.last() == '\r' {
        s.drop_last()
    } else {
        s
    }
}

/// The lines of `s` as `str::lines` yields them: split at `\n`, a `\r`
/// right before a `\n` dropped, no empty line after a final `\n`.
pub open spec fn lines_of(s: Seq<char>) -> Seq<Seq<char>>
    decreases s.len(),
{
    if s.len() == 0 {
        Seq::empty()
    } else {
        match find_char(s, '\n') {
            None => seq![s],
            Some(i) => if 0 <= i < s.len() {
                seq![strip_cr(s.take(i))] + lines_of(s.skip(i + 1))
            } else {
                seq![s]
            },
        }
    }
}

/// The ASCII digits of `s`, in order.
pub open spec fn digits_only(s: Seq<char>) -> Seq<char>
    decreases s.len(),
{
    if s.len() == 0 {
        Seq::empty()
    } else if is_digit(s.last()) {
        digits_only(s.drop_last()).push(s.last())
    } else {
        digits_only(s.drop_last())
    }
}

/// Fractional seconds (hundredths, thousandths, ...) read as milliseconds:
/// the first three digits, padded with zeros.
pub open spec fn fraction_ms(f: Seq<char>) -> int {
    let d = digits_only(f);
    let d3 = if d.len() >= 3 {
        d.take(3)
    } else {
        d + Seq::new((3 - d.len()) as nat, |i: int| '0')
    };
    decimal(d3)
}

/// `x` capped at the largest 64-bit value.
pub open spec fn saturate(x: int) -> int {
    if x > u64::MAX {
        u64::MAX as int
    } else {
        x
    }
}

/// The offset in milliseconds written by a `mm:ss(.xx)` token, `None` for
/// anything else (metadata tags such as `ar:Artist` included).
pub open spec fn timestamp_ms(token: Seq<char>) -> Option<int> {
    match find_char(token, ':') {
        None => None,
        Some(c) => {
            let secs = token.skip(c + 1);
            match parse_u64(trim(token.take(c))) {
                None => None,
                Some(m) => {
                    let (whole, frac) = match find_char(secs, '.') {
                        Some(d) => (secs.take(d), secs.skip(d + 1)),
                        None => (secs, Seq::<char>::empty()),
                    };
                    match parse_u64(trim(whole)) {
                        None => None,
                        Some(w) => Some(
                            saturate(m * 60_000) + saturate(w * 1_000) + fraction_ms(frac),
                        ),
                    }
                },
            }
        },
    }
}

/// The leading `[mm:ss(.xx)]` timestamps of a line and the text after them.
pub open spec fn split_timestamps(line: Seq<char>) -> (Seq<int>, Seq<char>)
    decreases line.len(),
{
    if line.len() > 0 && line[0] == '[' {
        let tail = line.drop_first();
        match find_char(tail, ']') {
            None => (Seq::empty(), line),
            Some(e) => if 0 <= e < tail.len() {
                match timestamp_ms(tail.take(e)) {
                    None => (Seq::empty(), line),
                    Some(t) => {
                        let (ts, rest) = split_timestamps(tail.skip(e + 1));
                        (seq![t] + ts, rest)
                    },
                }
            } else {
                (Seq::empty(), line)
            },
        }
    } else {
        (Seq::empty(), line)
    }
}

/// The entries one line contributes: one per timestamp, unless its text is blank.
pub open spec fn line_entries(line: Seq<char>) -> Seq<(int, Seq<char>)> {
    let (ts, rest) = split_timestamps(line);
    let text = trim(rest);
    if text.len() == 0 {
        Seq::empty()
    } else {
        ts.map_values(|t: int| (t, text))
    }
}

/// The entries of all lines, in input order.
pub open spec fn all_entries(lines: Seq<Seq<char>>) -> Seq<(int, Seq<char>)>
    decreases lines.len(),
{
    if lines.len() == 0 {
        Seq::empty()
    } else {
        all_entries(lines.drop_last()) + line_entries(lines.last())
    }
}

/// Every timestamp written in `input` fits in 64 bits of milliseconds.
pub open spec fn timestamps_fit(input: Seq<char>) -> bool {
    forall|i: int, k: int|
        0 <= i < lines_of(input).len() && 0 <= k < split_timestamps(lines_of(input)[i]).0.len()
            ==> #[trigger] split_timestamps(lines_of(input)[i]).0[k] <= u64::MAX
}

/// Reads fractional seconds as milliseconds: the first three ASCII digits of
/// `f`, padded with zeros (`"5"` is 500 ms, `"25"` is 250 ms).
fn parse_fraction_ms(f: &[char]) -> (r: u64)
    ensures
        r == fraction_ms(f@),
        r < 1000,
{
    let mut d: Vec<char> = Vec::new();
    let mut i: usize = 0;
    while i < f.len()
        invariant
            i <= f@.len(),
            d@ == digits_only(f@.take(i as int)),
            forall|k: int| 0 <= k < d@.len() ==> is_digit(#[trigger] d@[k]),
        decreases f@.len() - i,
    {
        assert(f@.take(i + 1).drop_last() =~= f@.take(i as int));
        if '0' <= f[i] && f[i] <= '9' {
            d.push(f[i]);
        }
        i = i + 1;
    }
    assert(f@.take(f@.len() as int) =~= f@);
    let ghost d3 = if d@.len() >= 3 {
        d@.take(3)
    } else {
        d@ + Seq::new((3 - d@.len()) as nat, |i: int| '0')
    };
    assert(d3.len() == 3);
    let mut acc: u64 = 0;
    let mut k: usize = 0;
    while k < 3
        invariant
            k <= 3,
            d3.len() == 3,
            d3 == (if d@.len() >= 3 {
                d@.take(3)
            } else {
                d@ + Seq::new((3 - d@.len()) as nat, |i: int| '0')
            }),
            forall|j: int| 0 <= j < d@.len() ==> is_digit(#[trigger] d@[j]),
            acc == decimal(d3.take(k as int)),
            acc <= (if k == 0 {
                0int
            } else if k == 1 {
                9
            } else if k == 2 {
                99
            } else {
                999
            }),
        decreases 3 - k,
    {
        let c = if k < d.len() {
            d[k]
        } else {
            '0'
        };
        assert(c == d3[k as int]);
        assert(d3.take(k + 1).drop_last() =~= d3.take(k as int));
        assert(d3.take(k + 1).last() == c);
        let digit = (c as u32 - '0' as u32) as u64;
        acc = acc * 10 + digit;
        k = k + 1;
    }
    assert(d3.take(3) =~= d3);
    acc
}

/// Reads one `mm:ss(.xx)` token as its three parts in milliseconds
/// (minutes, whole seconds, fraction); `None` for anything else.
fn timestamp_parts(token: &[char]) -> (r: Option<(u64, u64, u64)>)
    ensures
        match r {
            Some((a, b, c)) => timestamp_ms(token@) == Some(a + b + c),
            None => timestamp_ms(token@) is None,
        },
{
    let n = token.len();
    let c = match index_of_char(token, ':') {
        None => return None,
        Some(c) => c,
    };
    let secs = sub_chars(token, c + 1, n);
    assert(secs@ =~= token@.skip(c + 1));
    let head = sub_chars(token, 0, c);
    assert(head@ =~= token@.take(c as int));
    let m = match parse_u64_chars(&trim_chars(&head)) {
        None => return None,
        Some(m) => m,
    };
    let (whole, frac) = match index_of_char(&secs, '.') {
        Some(d) => {
            let w = sub_chars(&secs, 0, d);
            let f = sub_chars(&secs, d + 1, secs.len());
            assert(w@ =~= secs@.take(d as int));
            assert(f@ =~= secs@.skip(d + 1));
            (w, f)
        },
        None => (secs, Vec::new()),
    };
    let w = match parse_u64_chars(&trim_chars(&whole)) {
        None => return None,
        Some(w) => w,
    };
    assert(frac@ =~= (match find_char(token@.skip(c + 1), '.') {
        Some(d) => token@.skip(c + 1).skip(d + 1),
        None => Seq::<char>::empty(),
    }));
    let mm: u64 = if m > u64::MAX / 60_000 {
        u64::MAX
    } else {
        m * 60_000
    };
    let ww: u64 = if w > u64::MAX / 1_000 {
        u64::MAX
    } else {
        w * 1_000
    };
    let fr = parse_fraction_ms(&frac);
    assert(mm == saturate(m * 60_000));
    assert(ww == saturate(w * 1_000));
    Some((mm, ww, fr))
}

/// Reads one `mm:ss(.xx)` token as milliseconds; `None` for anything else.
fn parse_timestamp(token: &[char]) -> (r: Option<u64>)
    requires
        match timestamp_ms(token@) {
            Some(t) => t <= u64::MAX,
            None => true,
        },
    ensures
        match r {
            Some(v) => timestamp_ms(token@) == Some(v as int),
            None => timestamp_ms(token@) is None,
        },
{
    match timestamp_parts(token) {
        Some((a, b, c)) => Some(a + b + c),
        None => None,
    }
}

/// Whether a token's offset fits in 64 bits (a token that is no timestamp
/// fits).
fn timestamp_fits(token: &[char]) -> (r: bool)
    ensures
        r == match timestamp_ms(token@) {
            Some(t) => t <= u64::MAX,
            None => true,
        },
{
    match timestamp_parts(token) {
        Some((a, b, c)) => a <= u64::MAX - b && a + b <= u64::MAX - c,
        None => true,
    }
}

/// Whether every leading timestamp of a line fits in 64 bits.
fn line_fits(line: &[char]) -> (r: bool)
    ensures
        r == (forall|k: int|
            0 <= k < split_timestamps(line@).0.len() ==> #[trigger] split_timestamps(line@).0[k]
                <= u64::MAX),
{
    let mut p: usize = 0;
    let mut done = false;
    let ghost mut seen: Seq<int> = Seq::empty();
    assert(line@.skip(0) =~= line@);
    while !done && p < line.len()
        invariant
            p <= line@.len(),
            split_timestamps(line@).0 == seen + split_timestamps(line@.skip(p as int)).0,
            forall|k: int| 0 <= k < seen.len() ==> #[trigger] seen[k] <= u64::MAX,
            done ==> split_timestamps(line@.skip(p as int)).0.len() == 0,
        decreases line@.len() - p + (if done {
            0int
        } else {
            1int
        }),
    {
        let ghost s = line@.skip(p as int);
        let ghost tail = s.drop_first();
        if line[p] != '[' {
            done = true;
        } else {
            assert(tail =~= line@.skip(p + 1));
            match index_of_char_from(line, ']', p + 1) {
                None => {
                    done = true;
                },
                Some(e) => {
                    let token = sub_chars(line, p + 1, e);
                    assert(token@ =~= tail.take(e - (p + 1)));
                    match timestamp_parts(&token) {
                        None => {
                            done = true;
                        },
                        Some((a, b, c)) => {
                            let ghost t = timestamp_ms(token@).unwrap();
                            assert(split_timestamps(line@).0[seen.len() as int] == t);
                            if !(a <= u64::MAX - b && a + b <= u64::MAX - c) {
                                return false;
                            }
                            assert(tail.skip(e - (p + 1) + 1) =~= line@.skip(e + 1));
                            proof {
                                assert(seen + (seq![t] + split_timestamps(line@.skip(e + 1)).0)
                                    =~= seen.push(t) + split_timestamps(line@.skip(e + 1)).0);
                                seen = seen.push(t);
                            }
                            p = e + 1;
                        },
                    }
                },
            }
        }
    }
    proof {
        if !done {
            assert(line@.skip(p as int).len() == 0);
        }
        assert(split_timestamps(line@).0 =~= seen);
    }
    true
}

/// Whether every timestamp in LRC text fits in 64 bits of milliseconds,
/// which [`parse_lrc`] needs.
pub fn lrc_fits(input: &str) -> (r: bool)
    ensures
        r == timestamps_fit(input@),
{
    let s = chars_of(input);
    let n = s.len();
    let ghost mut done: Seq<Seq<char>> = Seq::empty();
    let mut p: usize = 0;
    assert(s@.skip(0) =~= s@);
    while p < n
        invariant
            n == s@.len(),
            s@ == input@,
            p <= n,
            lines_of(input@) == done + lines_of(s@.skip(p as int)),
            forall|i: int, k: int|
                0 <= i < done.len() && 0 <= k < split_timestamps(done[i]).0.len()
                    ==> #[trigger] split_timestamps(done[i]).0[k] <= u64::MAX,
        decreases n - p,
    {
        let ghost rest = s@.skip(p as int);
        let (line, next) = match index_of_char_from(&s, '\n', p) {
            Some(q) => {
                let raw = sub_chars(&s, p, q);
                assert(raw@ =~= rest.take(q - p));
                let l = if raw.len() > 0 && raw[raw.len() - 1] == '\r' {
                    let l = sub_chars(&raw, 0, raw.len() - 1);
                    assert(l@ =~= raw@.drop_last());
                    l
                } else {
                    raw
                };
                assert(rest.skip(q - p + 1) =~= s@.skip(q + 1));
                (l, q + 1)
            },
            None => {
                let l = sub_chars(&s, p, n);
                assert(l@ =~= rest);
                assert(s@.skip(n as int).len() == 0);
                (l, n)
            },
        };
        assert(lines_of(rest) =~= seq![line@] + lines_of(s@.skip(next as int)));
        assert(lines_of(input@) =~= done.push(line@) + lines_of(s@.skip(next as int)));
        if !line_fits(&line) {
            proof {
                assert(lines_of(input@)[done.len() as int] == line@);
            }
            return false;
        }
        proof {
            done = done.push(line@);
        }
        p = next;
    }
    assert(lines_of(s@.skip(p as int)) =~= Seq::<Seq<char>>::empty());
    assert(lines_of(input@) =~= done);
    true
}

/// Splits a line into its leading `[mm:ss(.xx)]` timestamps and the text
/// after them.
fn extract_timestamps(line: &[char]) -> (r: (Vec<u64>, Vec<char>))
    requires
        forall|k: int|
            0 <= k < split_timestamps(line@).0.len() ==> #[trigger] split_timestamps(
                line@,
            ).0[k] <= u64::MAX,
    ensures
        r.0@.map_values(|t: u64| t as int) == split_timestamps(line@).0,
        r.1@ == split_timestamps(line@).1,
{
    let mut times: Vec<u64> = Vec::new();
    let mut p: usize = 0;
    let mut done = false;
    assert(line@.skip(0) =~= line@);
    while !done && p < line.len()
        invariant
            p <= line@.len(),
            forall|k: int|
                0 <= k < split_timestamps(line@).0.len() ==> #[trigger] split_timestamps(
                    line@,
                ).0[k] <= u64::MAX,
            split_timestamps(line@).0 == times@.map_values(|t: u64| t as int)
                + split_timestamps(line@.skip(p as int)).0,
            split_timestamps(line@).1 == split_timestamps(line@.skip(p as int)).1,
            done ==> split_timestamps(line@.skip(p as int)).0.len() == 0
                && split_timestamps(line@.skip(p as int)).1 == line@.skip(p as int),
        decreases line@.len() - p + (if done {
            0int
        } else {
            1int
        }),
    {
        let ghost s = line@.skip(p as int);
        let ghost tail = s.drop_first();
        if line[p] != '[' {
            done = true;
        } else {
            assert(tail =~= line@.skip(p + 1));
            match index_of_char_from(line, ']', p + 1) {
                None => {
                    done = true;
                },
                Some(e) => {
                    let token = sub_chars(line, p + 1, e);
                    assert(token@ =~= tail.take(e - (p + 1)));
                    let ghost before = times@.map_values(|t: u64| t as int);
                    proof {
                        if let Some(t) = timestamp_ms(token@) {
                            assert(split_timestamps(line@).0[before.len() as int] == t);
                        }
                    }
                    match parse_timestamp(&token) {
                        None => {
                            done = true;
                        },
                        Some(t) => {
                            assert(tail.skip(e - (p + 1) + 1) =~= line@.skip(e + 1));
                            times.push(t);
                            assert(times@.map_values(|t: u64| t as int) =~= before.push(
                                t as int,
                            ));
                            p = e + 1;
                        },
                    }
                },
            }
        }
    }
    let rest = sub_chars(line, p, line.len());
    assert(rest@ =~= line@.skip(p as int));
    proof {
        if !done {
            assert(line@.skip(p as int).len() == 0);
        }
    }
    assert(times@.map_values(|t: u64| t as int) =~= split_timestamps(line@).0);
    (times, rest)
}

/// Entries ordered by `line_le` from first to last.
pub open spec fn lines_sorted(s: Seq<(int, Seq<char>)>) -> bool {
    forall|i: int, j: int| 0 <= i < j < s.len() ==> line_le(#[trigger] s[i], #[trigger] s[j])
}

/// Any two entries are ordered one way or the other.
pub proof fn lemma_line_le_total(a: (int, Seq<char>), b: (int, Seq<char>))
    ensures
        line_le(a, b) || line_le(b, a),
{
    lemma_lex_total(a.1, b.1);
}

/// The entry order is transitive.
pub proof fn lemma_line_le_transitive(a: (int, Seq<char>), b: (int, Seq<char>), c: (int, Seq<char>))
    requires
        line_le(a, b),
        line_le(b, c),
    ensures
        line_le(a, c),
{
    if a.0 == b.0 && b.0 == c.0 {
        lemma_lex_transitive(a.1, b.1, c.1);
    }
}

proof fn lemma_insert_sorted(s: Seq<(int, Seq<char>)>, j: int, x: (int, Seq<char>))
    requires
        lines_sorted(s),
        0 <= j <= s.len(),
        forall|i: int| 0 <= i < j ==> line_le(#[trigger] s[i], x),
        forall|i: int| j <= i < s.len() ==> line_le(x, #[trigger] s[i]),
    ensures
        lines_sorted(s.insert(j, x)),
{
    let n = s.insert(j, x);
    assert forall|a: int, b: int| 0 <= a < b < n.len() implies line_le(
        #[trigger] n[a],
        #[trigger] n[b],
    ) by {
        if a < j {
            if b > j {
                assert(line_le(s[a], s[b - 1]));
            }
        } else if a > j {
            assert(line_le(s[a - 1], s[b - 1]));
        }
    }
}

/// The (time, text) keys of working entries.
spec fn keys_of(v: Seq<(u64, Vec<char>)>) -> Seq<(int, Seq<char>)> {
    v.map_values(|e: (u64, Vec<char>)| (e.0 as int, e.1@))
}

/// Inserts `(t, text)` into entries kept in `line_le` order.
fn insert_sorted(entries: &mut Vec<(u64, Vec<char>)>, t: u64, text: &[char])
    requires
        lines_sorted(keys_of(old(entries)@)),
    ensures
        lines_sorted(keys_of(final(entries)@)),
        keys_of(final(entries)@).to_multiset() == keys_of(old(entries)@).to_multiset().insert(
            (t as int, text@),
        ),
{
    let ghost x = (t as int, text@);
    let ghost ks = keys_of(entries@);
    let mut j: usize = 0;
    let mut found = false;
    while !found && j < entries.len()
        invariant
            j <= entries@.len(),
            x == (t as int, text@),
            ks == keys_of(entries@),
            forall|i: int| 0 <= i < j ==> !line_le(x, #[trigger] ks[i]),
            found ==> j < entries@.len() && line_le(x, ks[j as int]),
        decreases entries@.len() - j + (if found {
            0int
        } else {
            1int
        }),
    {
        let e = &entries[j];
        assert(ks[j as int] == (e.0 as int, e.1@));
        let before = if t < e.0 {
            true
        } else if t == e.0 {
            chars_le(text, e.1.as_slice())
        } else {
            false
        };
        assert(before == line_le(x, ks[j as int]));
        if before {
            found = true;
        } else {
            j = j + 1;
        }
    }
    proof {
        assert forall|i: int| 0 <= i < j implies line_le(#[trigger] ks[i], x) by {
            lemma_line_le_total(ks[i], x);
        }
        assert forall|i: int| j <= i < ks.len() implies line_le(x, #[trigger] ks[i]) by {
            if i > j {
                assert(line_le(ks[j as int], ks[i]));
                lemma_line_le_transitive(x, ks[j as int], ks[i]);
            }
        }
        lemma_insert_sorted(ks, j as int, x);
        vstd::seq_lib::to_multiset_insert(ks, j as int, x);
    }
    let copy = sub_chars(text, 0, text.len());
    assert(copy@ =~= text@);
    entries.insert(j, (t, copy));
    assert(keys_of(entries@) =~= ks.insert(j as int, x));
}

/// Parses LRC-formatted text into timestamped lines, sorted by time and then
/// by text.
///
/// Handles `[mm:ss.xx]` and `[mm:ss]` timestamps, several timestamps on one
/// line, and skips metadata tags such as `[ar:...]` and `[ti:...]` and lines
/// without text.
pub fn parse_lrc(input: &str) -> (lines: Vec<LyricLine>)
    requires
        timestamps_fit(input@),
    ensures
        lines_sorted(lines@.map_values(|l: LyricLine| line_key(l))),
        lines@.map_values(|l: LyricLine| line_key(l)).to_multiset() == all_entries(
            lines_of(input@),
        ).to_multiset(),
{
    broadcast use vstd::multiset::group_multiset_axioms;

    let s = chars_of(input);
    let n = s.len();
    let mut entries: Vec<(u64, Vec<char>)> = Vec::new();
    let ghost mut done: Seq<Seq<char>> = Seq::empty();
    let mut p: usize = 0;
    assert(s@.skip(0) =~= s@);
    proof {
        vstd::seq_lib::to_multiset_len(keys_of(entries@));
        vstd::seq_lib::to_multiset_len(all_entries(done));
        vstd::multiset::lemma_multiset_empty_len(keys_of(entries@).to_multiset());
        vstd::multiset::lemma_multiset_empty_len(all_entries(done).to_multiset());
    }
    while p < n
        invariant
            n == s@.len(),
            s@ == input@,
            p <= n,
            timestamps_fit(input@),
            lines_of(input@) == done + lines_of(s@.skip(p as int)),
            lines_sorted(keys_of(entries@)),
            keys_of(entries@).to_multiset() == all_entries(done).to_multiset(),
        decreases n - p,
    {
        let ghost rest = s@.skip(p as int);
        let (line, next) = match index_of_char_from(&s, '\n', p) {
            Some(q) => {
                let raw = sub_chars(&s, p, q);
                assert(raw@ =~= rest.take(q - p));
                let l = if raw.len() > 0 && raw[raw.len() - 1] == '\r' {
                    let l = sub_chars(&raw, 0, raw.len() - 1);
                    assert(l@ =~= raw@.drop_last());
                    l
                } else {
                    raw
                };
                assert(rest.skip(q - p + 1) =~= s@.skip(q + 1));
                (l, q + 1)
            },
            None => {
                let l = sub_chars(&s, p, n);
                assert(l@ =~= rest);
                assert(s@.skip(n as int).len() == 0);
                (l, n)
            },
        };
        assert(lines_of(rest) =~= seq![line@] + lines_of(s@.skip(next as int)));
        let ghost before = done;
        assert(lines_of(input@) =~= before.push(line@) + lines_of(s@.skip(next as int)));
        assert forall|k: int|
            0 <= k < split_timestamps(line@).0.len() implies #[trigger] split_timestamps(
            line@,
        ).0[k] <= u64::MAX by {
            assert(lines_of(input@)[before.len() as int] == line@);
        }
        let (times, after) = extract_timestamps(&line);
        let text = trim_chars(&after);
        let ghost es = line_entries(line@);
        assert(before.push(line@).drop_last() =~= before);
        if text.len() > 0 {
            assert(es =~= times@.map_values(|t: u64| (t as int, text@)));
            let mut k: usize = 0;
            proof {
                vstd::seq_lib::to_multiset_len(es.take(0int));
                vstd::multiset::lemma_multiset_empty_len(es.take(0int).to_multiset());
            }
            assert(all_entries(before).to_multiset().add(es.take(0).to_multiset())
                =~= all_entries(before).to_multiset());
            while k < times.len()
                invariant
                    k <= times@.len(),
                    es.len() == times@.len(),
                    forall|i: int| 0 <= i < es.len() ==> #[trigger] es[i] == (times@[i] as int, text@),
                    lines_sorted(keys_of(entries@)),
                    keys_of(entries@).to_multiset() == all_entries(before).to_multiset().add(
                        es.take(k as int).to_multiset(),
                    ),
                decreases times@.len() - k,
            {
                insert_sorted(&mut entries, times[k], &text);
                proof {
                    assert(es.take(k + 1) =~= es.take(k as int).push(es[k as int]));
                    vstd::seq_lib::to_multiset_build(es.take(k as int), es[k as int]);
                    assert(keys_of(entries@).to_multiset() =~= all_entries(before).to_multiset().add(
                        es.take(k + 1).to_multiset(),
                    ));
                }
                k = k + 1;
            }
            proof {
                assert(es.take(k as int) =~= es);
                vstd::seq_lib::lemma_multiset_commutative(all_entries(before), es);
            }
        } else {
            assert(es.len() == 0);
            assert(all_entries(before) + es =~= all_entries(before));
        }
        proof {
            done = before.push(line@);
        }
        p = next;
    }
    assert(lines_of(s@.skip(p as int)) =~= Seq::<Seq<char>>::empty());
    assert(done + Seq::<Seq<char>>::empty() =~= done);
    let mut lines: Vec<LyricLine> = Vec::new();
    let mut k: usize = 0;
    while k < entries.len()
        invariant
            k <= entries@.len(),
            lines@.len() == k,
            forall|i: int| 0 <= i < k ==> line_key(#[trigger] lines@[i]) == keys_of(entries@)[i],
        decreases entries@.len() - k,
    {
        let e = &entries[k];
        lines.push(LyricLine { time_ms: e.0, text: string_of(e.1.as_slice()) });
        k = k + 1;
    }
    assert(lines@.map_values(|l: LyricLine| line_key(l)) =~= keys_of(entries@));
    lines
}

/// The lyrics that an lrclib.net record holds, from its `syncedLyrics` and
/// `plainLyrics` fields: synced lyrics parsed when present, otherwise the
/// plain text as one line at time zero; `None` when the record has neither.
pub fn lyrics_from_record(synced: Option<&str>, plain: Option<&str>) -> (r: Option<Lyrics>)
    requires
        synced matches Some(lrc) ==> timestamps_fit(lrc@),
    ensures
        match synced {
            Some(lrc) => match r {
                Some(l) => {
                    &&& lines_sorted(l.lines@.map_values(|x: LyricLine| line_key(x)))
                    &&& l.lines@.map_values(|x: LyricLine| line_key(x)).to_multiset()
                        == all_entries(lines_of(lrc@)).to_multiset()
                    &&& opt_str_view(l.plain) == opt_ref_view(plain)
                },
                None => false,
            },
            None => match plain {
                Some(text) => match r {
                    Some(l) => {
                        &&& l.lines@.len() == 1
                        &&& l.lines@[0].time_ms == 0
                        &&& l.lines@[0].text@ == text@
                        &&& opt_str_view(l.plain) == Some(text@)
                    },
                    None => false,
                },
                None => r is None,
            },
        },
{
    let plain_owned = match plain {
        Some(text) => Some(text.to_string()),
        None => None,
    };
    match synced {
        Some(lrc) => Some(Lyrics { lines: parse_lrc(lrc), plain: plain_owned }),
        None => match plain {
            Some(text) => Some(
                Lyrics {
                    lines: vec![LyricLine { time_ms: 0, text: text.to_string() }],
                    plain: plain_owned,
                },
            ),
            None => None,
        },
    }
}

/// The view of an optional owned string.
pub open spec fn opt_str_view(o: Option<String>) -> Option<Seq<char>> {
    match o {
        Some(s) => Some(s@),
        None => None,
    }
}

/// The view of an optional string slice.
pub open spec fn opt_ref_view(o: Option<&str>) -> Option<Seq<char>> {
    match o {
        Some(s) => Some(s@),
        None => None,
    }
}

/// Line times that never decrease.
pub open spec fn times_sorted(lines: Seq<LyricLine>) -> bool {
    forall|i: int, j: int| 0 <= i <= j < lines.len() ==> #[trigger] lines[i].time_ms <= #[trigger] lines[j].time_ms
}

/// `r` is the line being sung at `pos_ms`: the last line whose time is at or
/// before `pos_ms`, `None` before the first line.
pub open spec fn active_at(lines: Seq<LyricLine>, pos_ms: u64, r: Option<usize>) -> bool {
    match r {
        Some(i) => i < lines.len() && lines[i as int].time_ms <= pos_ms && (i + 1 == lines.len()
            || lines[i + 1].time_ms > pos_ms),
        None => lines.len() == 0 || lines[0].time_ms > pos_ms,
    }
}

/// Lines in parse order (by time, then text) are in time order, so the
/// lines [`parse_lrc`] returns can be searched with [`active_line`].
pub proof fn law_parsed_lines_are_time_sorted(lines: Seq<LyricLine>)
    requires
        lines_sorted(lines.map_values(|l: LyricLine| line_key(l))),
    ensures
        times_sorted(lines),
{
    let keys = lines.map_values(|l: LyricLine| line_key(l));
    assert forall|i: int, j: int| 0 <= i <= j < lines.len() implies #[trigger] lines[i].time_ms
        <= #[trigger] lines[j].time_ms by {
        if i < j {
            assert(line_le(keys[i], keys[j]));
        }
    }
}

/// As playback advances, the highlighted line never moves back: at a later
/// position the active line is the same or a later one, and once a line is
/// active some line stays active.
pub proof fn law_active_line_moves_forward(
    lines: Seq<LyricLine>,
    p1: u64,
    r1: Option<usize>,
    p2: u64,
    r2: Option<usize>,
)
    requires
        times_sorted(lines),
        active_at(lines, p1, r1),
        active_at(lines, p2, r2),
        p1 <= p2,
    ensures
        r1 matches Some(i) ==> r2 matches Some(j) && i <= j,
{
    if let Some(i) = r1 {
        assert(lines[0].time_ms <= lines[i as int].time_ms);
        if let Some(j) = r2 {
            if j < i {
                assert(lines[j + 1].time_ms <= lines[i as int].time_ms);
            }
        }
    }
}

/// The line being sung at `pos_ms`: the last line whose time is at or before
/// `pos_ms`, `None` before the first line.
pub fn active_line(lines: &[LyricLine], pos_ms: u64) -> (r: Option<usize>)
    requires
        times_sorted(lines@),
    ensures
        active_at(lines@, pos_ms, r),
{
    let mut lo: usize = 0;
    let mut hi: usize = lines.len();
    while lo < hi
        invariant
            lo <= hi <= lines@.len(),
            times_sorted(lines@),
            forall|i: int| 0 <= i < lo ==> #[trigger] lines@[i].time_ms <= pos_ms,
            forall|i: int| hi <= i < lines@.len() ==> #[trigger] lines@[i].time_ms > pos_ms,
        decreases hi - lo,
    {
        let mid = lo + (hi - lo) / 2;
        if lines[mid].time_ms <= pos_ms {
            lo = mid + 1;
        } else {
            hi = mid;
        }
    }
    if lo == 0 {
        None
    } else {
        Some(lo - 1)
    }
}

/// The text of a field read from JSON, `None` unless it is a string.
fn field_text(f: JsonField) -> (r: Option<String>)
    ensures
        opt_str_view(r) == text_of(crate::sources::field_view(f)),
{
    match f {
        JsonField::Text(t) => Some(t),
        _ => None,
    }
}

/// The `syncedLyrics` and `plainLyrics` strings of an lrclib.net record
/// (each `None` unless the member is a string); `None` when the body is not
/// JSON.
pub fn lrclib_record(body: &str) -> (r: Option<(Option<String>, Option<String>)>)
    ensures
        match json_parse(body@) {
            None => r is None,
            Some(v) => r matches Some((synced, plain)) && opt_str_view(synced) == text_of(
                member_of(v, "syncedLyrics"@),
            ) && opt_str_view(plain) == text_of(member_of(v, "plainLyrics"@)),
        },
{
    match parse_json(body) {
        None => None,
        Some(v) => {
            let synced = field_text(json_member(&v, "syncedLyrics"));
            let plain = field_text(json_member(&v, "plainLyrics"));
            Some((synced, plain))
        },
    }
}

/// What an lrclib.net reply status means.
#[derive(Debug, Clone, Copy, PartialEq, Eq, Structural)]
pub enum ReplyStatus {
    /// 200: the record is in the body.
    Found,
    /// 404: lrclib has no record of the track.
    NotFound,
    /// Anything else is an error.
    Failed,
}

/// Classifies an HTTP status of an lrclib.net reply.
pub fn reply_status(status: u16) -> (r: ReplyStatus)
    ensures
        r == (if status == 200 {
            ReplyStatus::Found
        } else if status == 404 {
            ReplyStatus::NotFound
        } else {
            ReplyStatus::Failed
        }),
{
    if status == 200 {
        ReplyStatus::Found
    } else if status == 404 {
        ReplyStatus::NotFound
    } else {
        ReplyStatus::Failed
    }
}

/// The query of an lrclib.net lookup: artist, track name, album and the
/// duration in whole seconds.
pub open spec fn lyrics_query_of(artist: Seq<char>, title: Seq<char>, album: Seq<char>, secs: nat) -> Seq<(Seq<char>, Seq<char>)> {
    seq![
        ("artist"@, artist),
        ("track_name"@, title),
        ("album_name"@, album),
        ("duration"@, crate::ui::widgets::player::decimal_text(secs)),
    ]
}

/// The query parameters of an lrclib.net lookup.
pub fn lyrics_query(artist: &str, title: &str, album: &str, duration_secs: u64) -> (q: Vec<(String, String)>)
    ensures
        q@.map_values(|p: (String, String)| (p.0@, p.1@)) == lyrics_query_of(
            artist@,
            title@,
            album@,
            duration_secs as nat,
        ),
{
    let mut secs = String::new();
    crate::ui::widgets::player::push_decimal(&mut secs, duration_secs);
    assert(secs@ =~= crate::ui::widgets::player::decimal_text(duration_secs as nat));
    let q = vec![
        ("artist".to_string(), artist.to_string()),
        ("track_name".to_string(), title.to_string()),
        ("album_name".to_string(), album.to_string()),
        ("duration".to_string(), secs),
    ];
    assert(q@.map_values(|p: (String, String)| (p.0@, p.1@)) =~= lyrics_query_of(
        artist@,
        title@,
        album@,
        duration_secs as nat,
    ));
    q
}

} // verus!
