//! What the track database stores, and how stored rows become tracks.
//!
//! The SQLite connection lives at the application's edge; it hands rows over
//! as [`StoredTrack`]s and asks [`lookup_for`] how an upsert finds an
//! existing row.

use vstd::prelude::*;
use vstd::string::StringExecFns;

use crate::library::{SourceKind, Track};
use crate::text::{chars_eq, chars_of};

verus! {

/// A `tracks` row as SQLite returns it.
#[derive(Debug, Clone, PartialEq, Eq)]
pub struct StoredTrack {
    pub id: i64,
    pub source: String,
    pub path: String,
    pub url: Option<String>,
    pub thumbnail: Option<String>,
    pub title: String,
    pub artist: String,
    pub album: String,
    pub album_artist: String,
    pub duration_ms: i64,
    pub track_no: Option<u32>,
    pub disc_no: Option<u32>,
    pub genre: Option<String>,
    pub year: Option<i32>,
    pub bpm_bits: Option<u32>,
    pub play_count: u32,
    pub last_played: Option<i64>,
}

/// The first second chrono's calendar holds: -262143-01-01T00:00:00 UTC.
pub const FIRST_CALENDAR_SECOND: i64 = -8_334_601_228_800;

/// The last second chrono's calendar holds: 262142-12-31T23:59:59 UTC.
pub const LAST_CALENDAR_SECOND: i64 = 8_210_266_876_799;

/// Whether a Unix timestamp falls within chrono's calendar.
pub open spec fn timestamp_valid(secs: i64) -> bool {
    FIRST_CALENDAR_SECOND <= secs <= LAST_CALENDAR_SECOND
}

/// Checks a Unix timestamp with `chrono::DateTime::from_timestamp(secs, 0)`,
/// which gives a date exactly when the second's day lies between
/// `NaiveDate::MIN` (-262143-01-01) and `NaiveDate::MAX` (262142-12-31); the
/// time of day, a second count below a day with no nanoseconds, always fits.
#[verifier::external_body]
fn timestamp_in_range(secs: i64) -> (r: bool)
    ensures
        r == timestamp_valid(secs),
{
    chrono::DateTime::from_timestamp(secs, 0).is_some()
}

/// The source a stored name stands for; unknown names read as local.
pub open spec fn stored_source(name: Seq<char>) -> SourceKind {
    if name == "youtube"@ {
        SourceKind::Youtube
    } else if name == "soundcloud"@ {
        SourceKind::Soundcloud
    } else {
        SourceKind::Local
    }
}

/// The track a stored row describes.
pub open spec fn stored_track(row: StoredTrack, t: Track) -> bool {
    &&& t.id == row.id
    &&& t.source == stored_source(row.source@)
    &&& t.path == row.path
    &&& t.url == row.url
    &&& t.thumbnail == row.thumbnail
    &&& t.title == row.title
    &&& t.artist == row.artist
    &&& t.album == row.album
    &&& t.album_artist == row.album_artist
    &&& t.duration_ns == (if row.duration_ms < 0 {
        0
    } else {
        row.duration_ms * 1_000_000
    })
    &&& t.track_no == row.track_no
    &&& t.disc_no == row.disc_no
    &&& t.genre == row.genre
    &&& t.year == row.year
    &&& t.bpm_bits == row.bpm_bits
    &&& t.play_count == row.play_count
    &&& t.last_played == match row.last_played {
        Some(s) => if timestamp_valid(s) {
            Some(s)
        } else {
            None
        },
        None => None,
    }
}

/// Builds a [`Track`] from a stored row: unknown sources read as local, a
/// negative duration as zero, and a last-play time outside the calendar as
/// never played.
pub fn track_from_stored(row: StoredTrack) -> (t: Track)
    ensures
        stored_track(row, t),
{
    let cs = chars_of(row.source.as_str());
    let source = if chars_eq(&cs, "youtube") {
        SourceKind::Youtube
    } else if chars_eq(&cs, "soundcloud") {
        SourceKind::Soundcloud
    } else {
        SourceKind::Local
    };
    let duration_ns: u128 = if row.duration_ms < 0 {
        0
    } else {
        (row.duration_ms as u128) * 1_000_000
    };
    let last_played = match row.last_played {
        Some(s) => if timestamp_in_range(s) {
            Some(s)
        } else {
            None
        },
        None => None,
    };
    Track {
        id: row.id,
        source,
        path: row.path,
        url: row.url,
        thumbnail: row.thumbnail,
        title: row.title,
        artist: row.artist,
        album: row.album,
        album_artist: row.album_artist,
        duration_ns,
        track_no: row.track_no,
        disc_no: row.disc_no,
        genre: row.genre,
        year: row.year,
        bpm_bits: row.bpm_bits,
        play_count: row.play_count,
        last_played,
    }
}

/// How an upsert finds a track's existing row: local tracks by their path,
/// remote ones by their URL (so remote tracks without a file never collide).
#[derive(Debug, Clone, PartialEq, Eq)]
pub enum TrackLookup {
    ByPath(String),
    ByUrl(Option<String>),
}

/// The lookup an upsert of `track` runs.
pub fn lookup_for(track: &Track) -> (r: TrackLookup)
    ensures
        match track.source {
            SourceKind::Local => r matches TrackLookup::ByPath(p) && p == track.path,
            _ => r matches TrackLookup::ByUrl(u) && u == track.url,
        },
{
    match track.source {
        SourceKind::Local => TrackLookup::ByPath(track.path.clone()),
        _ => TrackLookup::ByUrl(crate::library::clone_opt_string(&track.url)),
    }
}

/// The `LIKE` pattern of a search: the query anywhere in the text.
pub fn search_pattern(query: &str) -> (p: String)
    ensures
        p@ == "%"@ + query@ + "%"@,
{
    let mut p = String::from_str("%");
    p.append(query);
    p.append("%");
    p
}

/// The track as stored after an upsert: the same track with its row id.
pub fn with_row_id(track: Track, id: i64) -> (t: Track)
    ensures
        t == (Track { id, ..track }),
{
    let mut t = track;
    t.id = id;
    t
}

} // verus!
