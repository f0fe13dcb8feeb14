//! Music library domain model: where a track comes from and what it holds.

pub mod database;
pub mod metadata;
pub mod scanner;

use vstd::prelude::*;

verus! {

/// Where a [`Track`] originates from.
#[derive(Debug, Clone, Copy, PartialEq, Eq, Hash, Structural)]
pub enum SourceKind {
    /// A file on the local filesystem.
    Local,
    /// A stream resolved via yt-dlp (YouTube / YouTube Music).
    Youtube,
    /// A stream resolved via yt-dlp (SoundCloud).
    Soundcloud,
}

/// The lowercase identifier of a source, as written in config and storage.
pub open spec fn source_name(kind: SourceKind) -> Seq<char> {
    match kind {
        SourceKind::Local => "local"@,
        SourceKind::Youtube => "youtube"@,
        SourceKind::Soundcloud => "soundcloud"@,
    }
}

impl SourceKind {
    /// The lowercase identifier of this source (`local`, `youtube`, `soundcloud`).
    pub fn to_string(&self) -> (s: String)
        ensures
            s@ == source_name(*self),
    {
        match self {
            SourceKind::Local => String::from_str("local"),
            SourceKind::Youtube => String::from_str("youtube"),
            SourceKind::Soundcloud => String::from_str("soundcloud"),
        }
    }
}

/// The view of an optional string.
pub open spec fn opt_view(o: Option<String>) -> Option<Seq<char>> {
    match o {
        Some(s) => Some(s@),
        None => None,
    }
}

/// Copies an optional string.
pub fn clone_opt_string(o: &Option<String>) -> (r: Option<String>)
    ensures
        r == *o,
{
    match o {
        Some(s) => Some(s.clone()),
        None => None,
    }
}

/// Compares two optional strings by content.
pub fn opt_string_eq(a: &Option<String>, b: &Option<String>) -> (r: bool)
    ensures
        r == (opt_view(*a) == opt_view(*b)),
{
    match (a, b) {
        (Some(x), Some(y)) => *x == *y,
        (None, None) => true,
        _ => false,
    }
}

/// A single playable track, regardless of its source.
///
/// Local tracks carry a file `path`; streamed tracks carry a `url` and are
/// downloaded to the cache before playback. Durations are kept in
/// whole nanoseconds, the last play time in Unix seconds, and a tagged BPM as the
/// bit pattern of its 32-bit float value.
#[derive(Debug, PartialEq, Eq)]
pub struct Track {
    /// Database row id; `0` for tracks not yet persisted.
    pub id: i64,
    /// Source of the track.
    pub source: SourceKind,
    /// File path (local tracks) or cached stream path; empty when unknown.
    pub path: String,
    /// Remote stream / info URL (yt-dlp sources).
    pub url: Option<String>,
    /// Remote cover art URL (yt-dlp sources), if known.
    pub thumbnail: Option<String>,
    /// Track title.
    pub title: String,
    /// Performing artist.
    pub artist: String,
    /// Album name.
    pub album: String,
    /// Album artist (may differ from `artist` on compilations).
    pub album_artist: String,
    /// Playback duration in nanoseconds.
    pub duration_ns: u128,
    /// Track number within the disc.
    pub track_no: Option<u32>,
    /// Disc number within the album.
    pub disc_no: Option<u32>,
    /// Primary genre.
    pub genre: Option<String>,
    /// Release year.
    pub year: Option<i32>,
    /// Beats per minute when tagged, as the bits of an IEEE-754 single.
    pub bpm_bits: Option<u32>,
    /// How many times the track has been played.
    pub play_count: u32,
    /// Last time the track was played, in Unix seconds.
    pub last_played: Option<i64>,
}

/// The content of a [`Track`], with every string taken by its characters.
pub ghost struct TrackView {
    pub id: i64,
    pub source: SourceKind,
    pub path: Seq<char>,
    pub url: Option<Seq<char>>,
    pub thumbnail: Option<Seq<char>>,
    pub title: Seq<char>,
    pub artist: Seq<char>,
    pub album: Seq<char>,
    pub album_artist: Seq<char>,
    pub duration_ns: u128,
    pub track_no: Option<u32>,
    pub disc_no: Option<u32>,
    pub genre: Option<Seq<char>>,
    pub year: Option<i32>,
    pub bpm_bits: Option<u32>,
    pub play_count: u32,
    pub last_played: Option<i64>,
}

impl View for Track {
    type V = TrackView;

    open spec fn view(&self) -> TrackView {
        TrackView {
            id: self.id,
            source: self.source,
            path: self.path@,
            url: opt_view(self.url),
            thumbnail: opt_view(self.thumbnail),
            title: self.title@,
            artist: self.artist@,
            album: self.album@,
            album_artist: self.album_artist@,
            duration_ns: self.duration_ns,
            track_no: self.track_no,
            disc_no: self.disc_no,
            genre: opt_view(self.genre),
            year: self.year,
            bpm_bits: self.bpm_bits,
            play_count: self.play_count,
            last_played: self.last_played,
        }
    }
}

/// Whether two 32-bit floats, given by their bit patterns, compare equal:
/// neither is NaN, and their bits agree or both are a zero of either sign.
pub open spec fn f32_bits_equal(a: u32, b: u32) -> bool {
    &&& !((a & 0x7f80_0000u32) == 0x7f80_0000u32 && (a & 0x007f_ffffu32) != 0)
    &&& !((b & 0x7f80_0000u32) == 0x7f80_0000u32 && (b & 0x007f_ffffu32) != 0)
    &&& (a == b || ((a & 0x7fff_ffffu32) == 0 && (b & 0x7fff_ffffu32) == 0))
}

/// Whether two optional BPM values, given by their bit patterns, compare
/// equal as optional floats.
pub open spec fn bpm_equal(a: Option<u32>, b: Option<u32>) -> bool {
    match (a, b) {
        (None, None) => true,
        (Some(x), Some(y)) => f32_bits_equal(x, y),
        _ => false,
    }
}

/// Whether two tracks hold the same content: every field equal, the BPM
/// compared as a float (so a NaN BPM matches nothing and the two zeros
/// match each other).
pub open spec fn same_track(a: TrackView, b: TrackView) -> bool {
    &&& (TrackView { bpm_bits: b.bpm_bits, ..a }) == b
    &&& bpm_equal(a.bpm_bits, b.bpm_bits)
}

fn bpm_equal_exec(a: Option<u32>, b: Option<u32>) -> (r: bool)
    ensures
        r == bpm_equal(a, b),
{
    match (a, b) {
        (None, None) => true,
        (Some(x), Some(y)) => {
            let x_nan = (x & 0x7f80_0000u32) == 0x7f80_0000u32 && (x & 0x007f_ffffu32) != 0;
            let y_nan = (y & 0x7f80_0000u32) == 0x7f80_0000u32 && (y & 0x007f_ffffu32) != 0;
            !x_nan && !y_nan && (x == y || ((x & 0x7fff_ffffu32) == 0 && (y & 0x7fff_ffffu32) == 0))
        },
        _ => false,
    }
}

/// The line under a track's title: artist and album joined by a dash, or
/// whichever of them is not empty.
pub open spec fn track_subtitle(artist: Seq<char>, album: Seq<char>) -> Seq<char> {
    if artist.len() == 0 {
        album
    } else if album.len() == 0 {
        artist
    } else {
        artist + " — "@ + album
    }
}

/// `Artist - Title`, or the title alone when the artist is empty.
pub open spec fn track_label(artist: Seq<char>, title: Seq<char>) -> Seq<char> {
    if artist.len() == 0 {
        title
    } else {
        artist + " - "@ + title
    }
}

impl Clone for Track {
    fn clone(&self) -> (r: Self)
        ensures
            r == *self,
    {
        Track {
            id: self.id,
            source: self.source,
            path: self.path.clone(),
            url: clone_opt_string(&self.url),
            thumbnail: clone_opt_string(&self.thumbnail),
            title: self.title.clone(),
            artist: self.artist.clone(),
            album: self.album.clone(),
            album_artist: self.album_artist.clone(),
            duration_ns: self.duration_ns,
            track_no: self.track_no,
            disc_no: self.disc_no,
            genre: clone_opt_string(&self.genre),
            year: self.year,
            bpm_bits: self.bpm_bits,
            play_count: self.play_count,
            last_played: self.last_played,
        }
    }
}

impl Track {
    /// Creates a track from a local file.
    pub fn new_local(path: String, title: String, artist: String, album: String, duration_ns: u128) -> (t: Self)
        ensures
            t.id == 0,
            t.source == SourceKind::Local,
            t.path == path,
            t.url is None,
            t.thumbnail is None,
            t.title == title,
            t.artist == artist,
            t.album == album,
            t.album_artist@ == Seq::<char>::empty(),
            t.duration_ns == duration_ns,
            t.track_no is None,
            t.disc_no is None,
            t.genre is None,
            t.year is None,
            t.bpm_bits is None,
            t.play_count == 0,
            t.last_played is None,
    {
        Track {
            id: 0,
            source: SourceKind::Local,
            path,
            url: None,
            thumbnail: None,
            title,
            artist,
            album,
            album_artist: String::new(),
            duration_ns,
            track_no: None,
            disc_no: None,
            genre: None,
            year: None,
            bpm_bits: None,
            play_count: 0,
            last_played: None,
        }
    }

    /// Creates a remote track resolved through yt-dlp.
    pub fn new_remote(source: SourceKind, url: String, title: String) -> (t: Self)
        ensures
            t.id == 0,
            t.source == source,
            t.path@ == Seq::<char>::empty(),
            t.url == Some(url),
            t.thumbnail is None,
            t.title == title,
            t.artist@ == Seq::<char>::empty(),
            t.album@ == Seq::<char>::empty(),
            t.album_artist@ == Seq::<char>::empty(),
            t.duration_ns == 0,
            t.track_no is None,
            t.disc_no is None,
            t.genre is None,
            t.year is None,
            t.bpm_bits is None,
            t.play_count == 0,
            t.last_played is None,
    {
        Track {
            id: 0,
            source,
            path: String::new(),
            url: Some(url),
            thumbnail: None,
            title,
            artist: String::new(),
            album: String::new(),
            album_artist: String::new(),
            duration_ns: 0,
            track_no: None,
            disc_no: None,
            genre: None,
            year: None,
            bpm_bits: None,
            play_count: 0,
            last_played: None,
        }
    }

    /// Whether the track is currently resolvable to an audio stream.
    pub fn is_playable(&self) -> (b: bool)
        ensures
            b == (self.path@.len() > 0 || self.url is Some),
    {
        !self.path.as_str().is_empty() || self.url.is_some()
    }

    /// Convenience label: `Artist - Title`.
    pub fn label(&self) -> (s: String)
        ensures
            s@ == track_label(self.artist@, self.title@),
    {
        if self.artist.as_str().is_empty() {
            self.title.clone()
        } else {
            let mut s = self.artist.clone();
            s.append(" - ");
            s.append(self.title.as_str());
            s
        }
    }

    /// The line shown under a track's title: `Artist — Album`, or whichever
    /// of the two is not empty.
    pub fn subtitle(&self) -> (s: String)
        ensures
            s@ == track_subtitle(self.artist@, self.album@),
    {
        if self.artist.as_str().is_empty() {
            self.album.clone()
        } else if self.album.as_str().is_empty() {
            self.artist.clone()
        } else {
            let mut s = self.artist.clone();
            s.append(" — ");
            s.append(self.album.as_str());
            s
        }
    }

    /// Whether two tracks hold the same content, comparing the BPM as a
    /// float does.
    pub fn same_as(&self, other: &Track) -> (b: bool)
        ensures
            b == same_track(self@, other@),
    {
        self.id == other.id && self.source == other.source && self.path == other.path
            && opt_string_eq(&self.url, &other.url) && opt_string_eq(&self.thumbnail, &other.thumbnail)
            && self.title == other.title && self.artist == other.artist && self.album == other.album
            && self.album_artist == other.album_artist && self.duration_ns == other.duration_ns
            && self.track_no == other.track_no && self.disc_no == other.disc_no
            && opt_string_eq(&self.genre, &other.genre) && self.year == other.year
            && bpm_equal_exec(self.bpm_bits, other.bpm_bits) && self.play_count == other.play_count
            && self.last_played == other.last_played
    }
}

} // verus!
