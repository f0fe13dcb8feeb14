//! Recognising local audio files by their extension.
//!
//! The directory walk and the tag reading happen at the edge of the library;
//! this module decides which files are audio.

use vstd::prelude::*;

verus! {

/// File extensions treated as audio during a scan (case-insensitive).
pub const AUDIO_EXTENSIONS: [&'static str; 9] = [
    "mp3",
    "flac",
    "ogg",
    "opus",
    "m4a",
    "aac",
    "wav",
    "mka",
    "webm",
];

/// A character with ASCII upper case mapped to lower case.
pub open spec fn ascii_lower(c: char) -> char {
    if 'A' <= c && c <= 'Z' {
        ((c as u32) + 32) as char
    } else {
        c
    }
}

/// Equality of two strings ignoring ASCII case, as `str::eq_ignore_ascii_case`.
pub open spec fn eq_ignore_ascii_case(a: Seq<char>, b: Seq<char>) -> bool {
    a.len() == b.len() && forall|i: int| 0 <= i < a.len() ==> ascii_lower(#[trigger] a[i])
        == ascii_lower(b[i])
}

/// What `std::path::Path::extension` gives for a path: the part of its last
/// file name after the final `.`, `None` when there is none.
pub uninterp spec fn path_extension(path: Seq<char>) -> Option<Seq<char>>;

/// Calls `std::path::Path::extension` on `path`; the extension of a `&str`
/// path is always valid UTF-8, so it is returned as a `String`.
#[verifier::external_body]
pub(crate) fn extension_of(path: &str) -> (r: Option<String>)
    ensures
        match r {
            Some(e) => path_extension(path@) == Some(e@),
            None => path_extension(path@) is None,
        },
{
    std::path::Path::new(path).extension().map(|e| e.to_string_lossy().into_owned())
}

fn lower_char(c: char) -> (r: char)
    ensures
        r == ascii_lower(c),
{
    if 'A' <= c && c <= 'Z' {
        let b = c as u8;
        (b + 32) as char
    } else {
        c
    }
}

/// Compares two strings ignoring ASCII case.
pub fn str_eq_ignore_ascii_case(a: &str, b: &str) -> (r: bool)
    ensures
        r == eq_ignore_ascii_case(a@, b@),
{
    let x = crate::text::chars_of(a);
    let y = crate::text::chars_of(b);
    if x.len() != y.len() {
        return false;
    }
    let mut i: usize = 0;
    while i < x.len()
        invariant
            i <= x@.len(),
            x@ == a@,
            y@ == b@,
            x@.len() == y@.len(),
            forall|k: int| 0 <= k < i ==> ascii_lower(#[trigger] x@[k]) == ascii_lower(y@[k]),
        decreases x@.len() - i,
    {
        if lower_char(x[i]) != lower_char(y[i]) {
            return false;
        }
        i = i + 1;
    }
    true
}

/// Whether `ext` names an audio format of [`AUDIO_EXTENSIONS`].
pub open spec fn is_audio_extension(ext: Seq<char>) -> bool {
    exists|i: int| 0 <= i < 9 && eq_ignore_ascii_case(#[trigger] AUDIO_EXTENSIONS@[i]@, ext)
}

/// Whether `path` has an extension listed in [`AUDIO_EXTENSIONS`].
pub fn is_audio_file(path: &str) -> (r: bool)
    ensures
        r == match path_extension(path@) {
            Some(ext) => is_audio_extension(ext),
            None => false,
        },
{
    match extension_of(path) {
        None => false,
        Some(ext) => {
            let mut i: usize = 0;
            while i < 9
                invariant
                    i <= 9,
                    path_extension(path@) == Some(ext@),
                    forall|k: int| 0 <= k < i ==> !eq_ignore_ascii_case(
                        #[trigger] AUDIO_EXTENSIONS@[k]@,
                        ext@,
                    ),
                decreases 9 - i,
            {
                let candidate = AUDIO_EXTENSIONS[i];
                assert(candidate == AUDIO_EXTENSIONS@[i as int]);
                if str_eq_ignore_ascii_case(candidate, ext.as_str()) {
                    assert(eq_ignore_ascii_case(AUDIO_EXTENSIONS@[i as int]@, ext@));
                    return true;
                }
                i = i + 1;
            }
            false
        },
    }
}

/// Recursively walks directories and reads metadata for every audio file.
pub struct Scanner;

impl Scanner {
    /// Creates a new scanner.
    pub fn new() -> (s: Self) {
        Scanner
    }

    /// Whether the scanner picks up `path`: it does when the path has an
    /// audio extension.
    pub fn accepts(&self, path: &str) -> (r: bool)
        ensures
            r == match path_extension(path@) {
                Some(ext) => is_audio_extension(ext),
                None => false,
            },
    {
        is_audio_file(path)
    }

    /// Whether a directory entry is walked: entries whose name starts with
    /// `.` (hidden files and directories) are skipped.
    pub fn visits(&self, name: &str) -> (r: bool)
        ensures
            r == !(name@.len() > 0 && name@[0] == '.'),
    {
        let cs = crate::text::chars_of(name);
        !(cs.len() > 0 && cs[0] == '.')
    }
}

impl Default for Scanner {
    fn default() -> (s: Self) {
        Scanner::new()
    }
}

} // verus!
