//! Music sources: local files, YouTube and SoundCloud (both via yt-dlp).

pub mod local;
pub mod soundcloud;
pub mod youtube;

use vstd::prelude::*;
use vstd::string::StringExecFns;

use crate::config::schema::SourcesConfig;
use crate::library::{SourceKind, Track};
use crate::text::{chars_eq, chars_of, string_of, trim, trim_chars};
use crate::theme::dynamic::{hex_char, hex_char_of};
use crate::config::{join_path, path_joined};
use crate::library::scanner::{ascii_lower, path_extension};

verus! {

/// The source a configured name selects, `None` for unknown names.
pub open spec fn source_named(name: Seq<char>) -> Option<SourceKind> {
    if name == "local"@ {
        Some(SourceKind::Local)
    } else if name == "youtube"@ {
        Some(SourceKind::Youtube)
    } else if name == "soundcloud"@ {
        Some(SourceKind::Soundcloud)
    } else {
        None
    }
}

/// The known sources among `names`, in order.
pub open spec fn known_sources(names: Seq<Seq<char>>) -> Seq<SourceKind>
    decreases names.len(),
{
    if names.len() == 0 {
        Seq::empty()
    } else {
        let rest = known_sources(names.drop_last());
        match source_named(names.last()) {
            Some(kind) => rest.push(kind),
            None => rest,
        }
    }
}

fn source_of_name(name: &str) -> (r: Option<SourceKind>)
    ensures
        r == source_named(name@),
{
    let cs = chars_of(name);
    if chars_eq(&cs, "local") {
        Some(SourceKind::Local)
    } else if chars_eq(&cs, "youtube") {
        Some(SourceKind::Youtube)
    } else if chars_eq(&cs, "soundcloud") {
        Some(SourceKind::Soundcloud)
    } else {
        None
    }
}

/// Returns the sources enabled in `config`, in priority order.
///
/// Unknown entries in `sources.enabled` are ignored.
pub fn enabled_sources(config: &SourcesConfig) -> (r: Vec<SourceKind>)
    ensures
        r@ == known_sources(config.enabled@.map_values(|s: String| s@)),
{
    let ghost names = config.enabled@.map_values(|s: String| s@);
    let mut r: Vec<SourceKind> = Vec::new();
    let mut i: usize = 0;
    while i < config.enabled.len()
        invariant
            i <= config.enabled@.len(),
            names == config.enabled@.map_values(|s: String| s@),
            r@ == known_sources(names.take(i as int)),
        decreases config.enabled@.len() - i,
    {
        assert(names.take(i + 1).drop_last() =~= names.take(i as int));
        if let Some(kind) = source_of_name(config.enabled[i].as_str()) {
            r.push(kind);
        }
        i = i + 1;
    }
    assert(names.take(config.enabled@.len() as int) =~= names);
    r
}

/// The source `sources.default` names, `Local` for anything else.
pub open spec fn default_source_of(name: Seq<char>) -> SourceKind {
    if name == "youtube"@ {
        SourceKind::Youtube
    } else if name == "soundcloud"@ {
        SourceKind::Soundcloud
    } else {
        SourceKind::Local
    }
}

/// Returns the source named by `sources.default`, falling back to `Local`.
pub fn default_source(config: &SourcesConfig) -> (r: SourceKind)
    ensures
        r == default_source_of(config.default@),
{
    let cs = chars_of(config.default.as_str());
    if chars_eq(&cs, "youtube") {
        SourceKind::Youtube
    } else if chars_eq(&cs, "soundcloud") {
        SourceKind::Soundcloud
    } else {
        SourceKind::Local
    }
}

/// The page URL of a flat-playlist entry id on its source.
pub open spec fn entry_url_of(source: SourceKind, id: Seq<char>) -> Seq<char> {
    match source {
        SourceKind::Youtube => "https://www.youtube.com/watch?v="@ + id,
        SourceKind::Soundcloud => "https://soundcloud.com/"@ + id,
        SourceKind::Local => Seq::empty(),
    }
}

/// Builds a source-specific URL from a flat-playlist entry id.
pub fn entry_url(source: SourceKind, id: &str) -> (r: String)
    ensures
        r@ == entry_url_of(source, id@),
{
    match source {
        SourceKind::Youtube => {
            let mut r = String::from_str("https://www.youtube.com/watch?v=");
            r.append(id);
            r
        },
        SourceKind::Soundcloud => {
            let mut r = String::from_str("https://soundcloud.com/");
            r.append(id);
            r
        },
        SourceKind::Local => String::new(),
    }
}

/// The yt-dlp format selector for a configured quality: plain `bestaudio`
/// for `best` or nothing, otherwise audio of at most that bitrate with
/// `bestaudio` as the fallback.
pub open spec fn format_selector_of(quality: Seq<char>) -> Seq<char> {
    let q = trim(quality);
    if q.len() == 0 || q == "best"@ {
        "bestaudio"@
    } else {
        "bestaudio[abr<="@ + q + "]/bestaudio"@
    }
}

/// Maps a configured quality string to a yt-dlp format selector.
///
/// `best` and empty strings map to plain `bestaudio`; bitrates like `320k`
/// prefer audio at most that bitrate and fall back to `bestaudio`.
pub fn format_selector(quality: &str) -> (r: String)
    ensures
        r@ == format_selector_of(quality@),
{
    let cs = chars_of(quality);
    let q = trim_chars(&cs);
    if q.len() == 0 || chars_eq(&q, "best") {
        String::from_str("bestaudio")
    } else {
        let mut r = String::from_str("bestaudio[abr<=");
        let qs = string_of(&q);
        r.append(qs.as_str());
        r.append("]/bestaudio");
        r
    }
}

/// What `std`'s default hasher (SipHash with fixed keys) gives for a string.
pub uninterp spec fn default_hash(s: Seq<char>) -> u64;

/// Hashes `url` with a fresh `std::hash::DefaultHasher`, through
/// `BuildHasher::hash_one`. The result depends on the string alone (the keys
/// are fixed); which value it is, is the hasher's business.
#[verifier::external_body]
fn hash_str(url: &str) -> (h: u64)
    ensures
        h == default_hash(url@),
{
    std::hash::BuildHasher::hash_one(
        &std::hash::BuildHasherDefault::<std::hash::DefaultHasher>::default(),
        url,
    )
}

/// The `n` low hex digits of `v`, most significant first.
pub open spec fn hex_digits(v: int, n: nat) -> Seq<char>
    decreases n,
{
    if n == 0 {
        Seq::empty()
    } else {
        hex_digits(v / 16, (n - 1) as nat).push(hex_char(v % 16))
    }
}

/// Appends the `n` low hex digits of `v`, most significant first.
fn push_hex_digits(s: &mut String, v: u64, n: usize)
    ensures
        final(s)@ == old(s)@ + hex_digits(v as int, n as nat),
    decreases n,
{
    if n > 0 {
        push_hex_digits(s, v / 16, n - 1);
        s.push(hex_char_of((v % 16) as u8));
    } else {
        assert(old(s)@ + hex_digits(v as int, 0) =~= old(s)@);
    }
}

/// Stable hex id derived from a remote URL: its default hash as sixteen
/// lowercase hex digits.
///
/// Used for cache file names so they never contain URL characters that are
/// unsafe in file paths.
pub fn derive_file_id(url: &str) -> (id: String)
    ensures
        id@ == hex_digits(default_hash(url@) as int, 16),
{
    let h = hash_str(url);
    let mut id = String::new();
    push_hex_digits(&mut id, h, 16);
    assert(Seq::<char>::empty() + hex_digits(h as int, 16) =~= hex_digits(h as int, 16));
    id
}

/// `serde_json::Value`, a parsed JSON document, carried through opaquely.
#[verifier::external_type_specification]
#[verifier::external_body]
pub struct ExJsonValue(serde_json::Value);

/// The member names of a JSON value: its keys when it is an object, none
/// otherwise.
pub uninterp spec fn json_keys(v: serde_json::Value) -> Set<Seq<char>>;

/// The members of a JSON object whose values are strings, with those strings.
pub uninterp spec fn json_texts(v: serde_json::Value) -> Map<Seq<char>, Seq<char>>;

/// The members of a JSON object whose values are numbers, each read as an
/// `f64` and converted to `u64` as `as` does (saturating, fractions cut).
pub uninterp spec fn json_numbers(v: serde_json::Value) -> Map<Seq<char>, u64>;

/// A member of a JSON object as the logic reads it.
#[derive(Debug, Clone, PartialEq, Eq)]
pub enum JsonField {
    /// No such member (or not an object).
    Missing,
    /// A member holding a string.
    Text(String),
    /// A member holding anything else.
    Other,
}

/// What `json_keys` and `json_texts` say of member `key`.
pub open spec fn member_of(v: serde_json::Value, key: Seq<char>) -> Option<Option<Seq<char>>> {
    if !json_keys(v).contains(key) {
        None
    } else if json_texts(v).contains_key(key) {
        Some(Some(json_texts(v)[key]))
    } else {
        Some(None)
    }
}

/// A field taken as: absent (`None`), a string (`Some(Some(..))`) or
/// something else (`Some(None)`).
pub open spec fn field_view(f: JsonField) -> Option<Option<Seq<char>>> {
    match f {
        JsonField::Missing => None,
        JsonField::Text(s) => Some(Some(s@)),
        JsonField::Other => Some(None),
    }
}

/// The document `serde_json::from_str` parses from a text, `None` when the
/// text is not JSON.
pub uninterp spec fn json_parse(text: Seq<char>) -> Option<serde_json::Value>;

/// The elements of member `key` of a JSON value when that member is an
/// array (`Value::get` then `Value::as_array`), `None` otherwise.
pub uninterp spec fn json_items(v: serde_json::Value, key: Seq<char>) -> Option<Seq<serde_json::Value>>;

/// Parses JSON text with `serde_json::from_str`; `None` when it is not JSON.
/// What the document holds is read through [`json_member`], [`json_number`]
/// and [`json_array`].
#[verifier::external_body]
pub(crate) fn parse_json(text: &str) -> (r: Option<serde_json::Value>)
    ensures
        r == json_parse(text@),
{
    serde_json::from_str::<serde_json::Value>(text).ok()
}

/// Reads member `key` with `Value::get` and `Value::as_str`.
#[verifier::external_body]
pub(crate) fn json_member(v: &serde_json::Value, key: &str) -> (r: JsonField)
    ensures
        field_view(r) == member_of(*v, key@),
{
    match v.get(key) {
        None => JsonField::Missing,
        Some(member) => match member.as_str() {
            Some(text) => JsonField::Text(text.to_string()),
            None => JsonField::Other,
        },
    }
}

/// Reads member `key` as a whole number with `Value::get` and
/// `Value::as_f64`, converted with `as u64`.
#[verifier::external_body]
fn json_number(v: &serde_json::Value, key: &str) -> (r: Option<u64>)
    ensures
        r == (if json_numbers(*v).contains_key(key@) {
            Some(json_numbers(*v)[key@])
        } else {
            None
        }),
{
    v.get(key).and_then(serde_json::Value::as_f64).map(|f| f as u64)
}

/// Reads member `key` as an array with `Value::get` and `Value::as_array`;
/// only a member that is neither a string nor a number can be one.
#[verifier::external_body]
fn json_array(v: &serde_json::Value, key: &str) -> (r: Option<Vec<serde_json::Value>>)
    ensures
        match r {
            Some(a) => json_items(*v, key@) == Some(a@),
            None => json_items(*v, key@) is None,
        },
        r is Some ==> json_keys(*v).contains(key@) && !json_texts(*v).contains_key(key@)
            && !json_numbers(*v).contains_key(key@),
{
    v.get(key).and_then(serde_json::Value::as_array).cloned()
}

/// The fields of one yt-dlp info / flat-playlist entry that make a track.
#[derive(Debug, Clone, PartialEq, Eq)]
pub struct InfoEntry {
    pub title: JsonField,
    pub url: JsonField,
    pub webpage_url: JsonField,
    pub id: JsonField,
    pub uploader: JsonField,
    pub channel: JsonField,
    pub artist: JsonField,
    pub duration_secs: Option<u64>,
    pub thumbnail: JsonField,
}

/// The fields of an entry as the logic reads them: each absent (`None`), a
/// string (`Some(Some(..))`) or something else (`Some(None)`).
pub ghost struct InfoView {
    pub title: Option<Option<Seq<char>>>,
    pub url: Option<Option<Seq<char>>>,
    pub webpage_url: Option<Option<Seq<char>>>,
    pub id: Option<Option<Seq<char>>>,
    pub uploader: Option<Option<Seq<char>>>,
    pub channel: Option<Option<Seq<char>>>,
    pub artist: Option<Option<Seq<char>>>,
    pub duration_secs: Option<u64>,
    pub thumbnail: Option<Option<Seq<char>>>,
}

/// The view of an entry's fields.
pub open spec fn info_view(e: InfoEntry) -> InfoView {
    InfoView {
        title: field_view(e.title),
        url: field_view(e.url),
        webpage_url: field_view(e.webpage_url),
        id: field_view(e.id),
        uploader: field_view(e.uploader),
        channel: field_view(e.channel),
        artist: field_view(e.artist),
        duration_secs: e.duration_secs,
        thumbnail: field_view(e.thumbnail),
    }
}

/// The fields of a yt-dlp entry as the JSON document holds them.
pub open spec fn entry_view(v: serde_json::Value) -> InfoView {
    InfoView {
        title: member_of(v, "title"@),
        url: member_of(v, "url"@),
        webpage_url: member_of(v, "webpage_url"@),
        id: member_of(v, "id"@),
        uploader: member_of(v, "uploader"@),
        channel: member_of(v, "channel"@),
        artist: member_of(v, "artist"@),
        duration_secs: if json_numbers(v).contains_key("duration"@) {
            Some(json_numbers(v)["duration"@])
        } else {
            None
        },
        thumbnail: member_of(v, "thumbnail"@),
    }
}

/// The string a field holds, if it holds one.
pub open spec fn text_of(f: Option<Option<Seq<char>>>) -> Option<Seq<char>> {
    match f {
        Some(Some(s)) => Some(s),
        _ => None,
    }
}

/// The first of two fields that is present.
pub open spec fn present_of(a: Option<Option<Seq<char>>>, b: Option<Option<Seq<char>>>) -> Option<
    Option<Seq<char>>,
> {
    if a is Some {
        a
    } else {
        b
    }
}

/// The URL of an entry: the first present of `url` and `webpage_url` when it
/// is a string, else the page of its `id` on the source, else nothing.
pub open spec fn info_url(e: InfoView, source: SourceKind) -> Seq<char> {
    match text_of(present_of(e.url, e.webpage_url)) {
        Some(u) => u,
        None => match text_of(e.id) {
            Some(i) => entry_url_of(source, i),
            None => Seq::empty(),
        },
    }
}

/// The artist of an entry: the first present of `uploader`, `channel` and
/// `artist` when it is a string, else empty.
pub open spec fn info_artist(e: InfoView) -> Seq<char> {
    match text_of(present_of(e.uploader, present_of(e.channel, e.artist))) {
        Some(a) => a,
        None => Seq::empty(),
    }
}

/// The album a remote track is filed under: its source's name.
pub open spec fn source_album(source: SourceKind) -> Seq<char> {
    match source {
        SourceKind::Youtube => "YouTube"@,
        SourceKind::Soundcloud => "SoundCloud"@,
        SourceKind::Local => "Local"@,
    }
}

/// Whole seconds as nanoseconds.
pub open spec fn secs_to_ns(secs: u64) -> u128 {
    (secs * 1_000_000_000) as u128
}

/// The track an entry describes: one with a string title and a URL.
pub open spec fn info_track(e: InfoView, source: SourceKind, t: Track) -> bool {
    &&& text_of(e.title) == Some(t.title@)
    &&& t.source == source
    &&& match t.url {
        Some(u) => u@ == info_url(e, source),
        None => false,
    }
    &&& t.artist@ == info_artist(e)
    &&& t.duration_ns == secs_to_ns(
        match e.duration_secs {
            Some(d) => d,
            None => 0,
        },
    )
    &&& (match t.thumbnail {
        Some(th) => text_of(e.thumbnail) == Some(th@),
        None => text_of(e.thumbnail) is None,
    })
    &&& t.album@ == source_album(source)
    &&& t.id == 0
    &&& t.path@.len() == 0
    &&& t.album_artist@.len() == 0
    &&& t.track_no is None && t.disc_no is None && t.genre is None && t.year is None
    &&& t.bpm_bits is None && t.play_count == 0 && t.last_played is None
}

/// Whether an entry makes a track: it needs a string title and a URL.
pub open spec fn info_has_track(e: InfoView, source: SourceKind) -> bool {
    text_of(e.title) is Some && info_url(e, source).len() > 0
}

fn first_present<'a>(a: &'a JsonField, b: &'a JsonField) -> (r: &'a JsonField)
    ensures
        field_view(*r) == present_of(field_view(*a), field_view(*b)),
{
    match a {
        JsonField::Missing => b,
        _ => a,
    }
}

/// Builds a [`Track`] from the fields of a single yt-dlp entry.
pub fn track_from_fields(e: &InfoEntry, source: SourceKind) -> (r: Option<Track>)
    ensures
        match r {
            Some(t) => info_has_track(info_view(*e), source) && info_track(info_view(*e), source, t),
            None => !info_has_track(info_view(*e), source),
        },
{
    let title = match &e.title {
        JsonField::Text(t) => t.clone(),
        _ => return None,
    };
    let url = match first_present(&e.url, &e.webpage_url) {
        JsonField::Text(u) => u.clone(),
        _ => match &e.id {
            JsonField::Text(i) => entry_url(source, i.as_str()),
            _ => String::new(),
        },
    };
    if url.as_str().is_empty() {
        return None;
    }
    let mut track = Track::new_remote(source, url, title);
    track.artist = match first_present(&e.uploader, first_present(&e.channel, &e.artist)) {
        JsonField::Text(a) => a.clone(),
        _ => String::new(),
    };
    let secs = match e.duration_secs {
        Some(d) => d,
        None => 0,
    };
    track.duration_ns = (secs as u128) * 1_000_000_000;
    track.thumbnail = match &e.thumbnail {
        JsonField::Text(th) => Some(th.clone()),
        _ => None,
    };
    track.album = match source {
        SourceKind::Youtube => String::from_str("YouTube"),
        SourceKind::Soundcloud => String::from_str("SoundCloud"),
        SourceKind::Local => String::from_str("Local"),
    };
    Some(track)
}

/// Reads the fields of a yt-dlp entry.
pub fn info_fields(entry: &serde_json::Value) -> (e: InfoEntry)
    ensures
        info_view(e) == entry_view(*entry),
{
    InfoEntry {
        title: json_member(entry, "title"),
        url: json_member(entry, "url"),
        webpage_url: json_member(entry, "webpage_url"),
        id: json_member(entry, "id"),
        uploader: json_member(entry, "uploader"),
        channel: json_member(entry, "channel"),
        artist: json_member(entry, "artist"),
        duration_secs: json_number(entry, "duration"),
        thumbnail: json_member(entry, "thumbnail"),
    }
}

/// Builds a [`Track`] from a single yt-dlp info / flat-playlist entry.
pub fn track_from_info(entry: &serde_json::Value, source: SourceKind) -> (r: Option<Track>)
    ensures
        match r {
            Some(t) => info_has_track(entry_view(*entry), source) && info_track(
                entry_view(*entry),
                source,
                t,
            ),
            None => !info_has_track(entry_view(*entry), source),
        },
{
    let e = info_fields(entry);
    track_from_fields(&e, source)
}

/// Why a yt-dlp info reply gives no track.
#[derive(Debug, Clone, Copy, PartialEq, Eq, Structural)]
pub enum InfoError {
    /// The reply is not JSON.
    NotJson,
    /// The entry lacks a string title or a URL.
    Unusable,
}

/// The track described by a `yt-dlp --no-playlist -J` reply.
pub fn track_from_info_json(json: &str, source: SourceKind) -> (r: Result<Track, InfoError>)
    ensures
        match json_parse(json@) {
            None => r == Err::<Track, InfoError>(InfoError::NotJson),
            Some(v) => match r {
                Ok(t) => info_has_track(entry_view(v), source) && info_track(entry_view(v), source, t),
                Err(e) => e == InfoError::Unusable && !info_has_track(entry_view(v), source),
            },
        },
{
    match parse_json(json) {
        None => Err(InfoError::NotJson),
        Some(v) => match track_from_info(&v, source) {
            Some(t) => Ok(t),
            None => Err(InfoError::Unusable),
        },
    }
}

/// The entries of a search response that make tracks, in order.
pub open spec fn usable_entries(items: Seq<serde_json::Value>, source: SourceKind) -> Seq<InfoView>
    decreases items.len(),
{
    if items.len() == 0 {
        Seq::empty()
    } else {
        let before = usable_entries(items.drop_last(), source);
        let e = entry_view(items.last());
        if info_has_track(e, source) {
            before.push(e)
        } else {
            before
        }
    }
}

/// The entries a search response lists: the elements of its `entries`
/// array, none when the text is not JSON or has no such array.
pub open spec fn response_entries(json: Seq<char>) -> Seq<serde_json::Value> {
    match json_parse(json) {
        Some(v) => match json_items(v, "entries"@) {
            Some(items) => items,
            None => Seq::empty(),
        },
        None => Seq::empty(),
    }
}

/// `tracks` are the tracks of `entries`, one for each, in order.
pub open spec fn tracks_of(tracks: Seq<Track>, entries: Seq<InfoView>, source: SourceKind) -> bool {
    &&& tracks.len() == entries.len()
    &&& forall|k: int| 0 <= k < tracks.len() ==> info_track(entries[k], source, #[trigger] tracks[k])
}

/// Parses a `yt-dlp --flat-playlist -J` search response into [`Track`]s:
/// one per usable entry of its `entries` array, in order; none when the
/// text is not JSON or has no such array.
pub fn parse_search_response(json: &str, source: SourceKind) -> (r: Vec<Track>)
    ensures
        tracks_of(r@, usable_entries(response_entries(json@), source), source),
{
    let root = match parse_json(json) {
        Some(v) => v,
        None => return Vec::new(),
    };
    let entries = match json_array(&root, "entries") {
        Some(a) => a,
        None => return Vec::new(),
    };
    let mut r: Vec<Track> = Vec::new();
    let mut i: usize = 0;
    while i < entries.len()
        invariant
            i <= entries@.len(),
            tracks_of(r@, usable_entries(entries@.take(i as int), source), source),
        decreases entries@.len() - i,
    {
        assert(entries@.take(i + 1).drop_last() =~= entries@.take(i as int));
        if let Some(t) = track_from_info(&entries[i], source) {
            r.push(t);
        }
        i = i + 1;
    }
    assert(entries@.take(entries@.len() as int) =~= entries@);
    r
}

/// The downloaded file's path from the fields yt-dlp prints: the `filepath`
/// of the first `requested_downloads` entry when it is a string, else the
/// top-level `filepath` when it is one.
pub fn filepath_from(first_download: Option<JsonField>, top: JsonField) -> (r: Option<String>)
    ensures
        r matches Some(p) ==> (match first_download {
            Some(f) => text_of(field_view(f)) == Some(p@) || (text_of(field_view(f)) is None
                && text_of(field_view(top)) == Some(p@)),
            None => text_of(field_view(top)) == Some(p@),
        }),
        r is None ==> (match first_download {
            Some(f) => text_of(field_view(f)) is None,
            None => true,
        }) && text_of(field_view(top)) is None,
{
    if let Some(JsonField::Text(p)) = first_download {
        return Some(p);
    }
    match top {
        JsonField::Text(p) => Some(p),
        _ => None,
    }
}

/// The file a `yt-dlp --print-json` reply reports: the `filepath` string of
/// the first `requested_downloads` entry, else the top-level `filepath`
/// string; nothing when the reply is not JSON.
pub open spec fn reported_filepath(json: Seq<char>) -> Option<Seq<char>> {
    match json_parse(json) {
        None => None,
        Some(v) => {
            let first = match json_items(v, "requested_downloads"@) {
                Some(a) => if a.len() > 0 {
                    text_of(member_of(a[0], "filepath"@))
                } else {
                    None
                },
                None => None,
            };
            match first {
                Some(p) => Some(p),
                None => text_of(member_of(v, "filepath"@)),
            }
        },
    }
}

/// Extracts the produced file path from a `yt-dlp --print-json` response.
///
/// Prefers `requested_downloads[0].filepath`, falling back to `filepath`.
pub fn extract_filepath(json: &str) -> (r: Option<String>)
    ensures
        match r {
            Some(p) => reported_filepath(json@) == Some(p@),
            None => reported_filepath(json@) is None,
        },
{
    let root = match parse_json(json) {
        Some(v) => v,
        None => return None,
    };
    let first = match json_array(&root, "requested_downloads") {
        Some(downloads) => if downloads.len() > 0 {
            Some(json_member(&downloads[0], "filepath"))
        } else {
            None
        },
        None => None,
    };
    filepath_from(first, json_member(&root, "filepath"))
}

/// The yt-dlp arguments that download the stream at `url` into `cache_dir`,
/// under a name made of `prefix` and the URL's file id, printing the result
/// as JSON.
pub open spec fn stream_args_of(url: Seq<char>, cache_dir: Seq<char>, prefix: Seq<char>, quality: Seq<char>) -> Seq<Seq<char>> {
    seq![
        "--no-playlist"@,
        "-f"@,
        format_selector_of(quality),
        "-o"@,
        path_joined(
            cache_dir,
            prefix + "-"@ + hex_digits(default_hash(url) as int, 16) + ".%(ext)s"@,
        ),
        "--print-json"@,
        url,
    ]
}

/// The yt-dlp arguments of a stream download into the cache.
pub fn stream_download_args(url: &str, cache_dir: &str, prefix: &str, quality: &str) -> (r: Vec<String>)
    ensures
        r@.map_values(|s: String| s@) == stream_args_of(url@, cache_dir@, prefix@, quality@),
{
    let file_id = derive_file_id(url);
    let mut name = prefix.to_string();
    name.append("-");
    name.append(file_id.as_str());
    name.append(".%(ext)s");
    let template = join_path(cache_dir, name.as_str());
    let r = vec![
        String::from_str("--no-playlist"),
        String::from_str("-f"),
        format_selector(quality),
        String::from_str("-o"),
        template,
        String::from_str("--print-json"),
        url.to_string(),
    ];
    assert(r@.map_values(|s: String| s@) =~= stream_args_of(url@, cache_dir@, prefix@, quality@));
    r
}

/// The extension a cached cover keeps: the URL's own, lowercased, when it is
/// an image format the cache knows, `jpg` otherwise.
pub open spec fn thumbnail_ext(url: Seq<char>) -> Seq<char> {
    match path_extension(url) {
        Some(e) => {
            let l = e.map_values(|c: char| ascii_lower(c));
            if l == "jpg"@ || l == "jpeg"@ || l == "webp"@ || l == "png"@ {
                l
            } else {
                "jpg"@
            }
        },
        None => "jpg"@,
    }
}

fn lower_ascii(s: &str) -> (r: Vec<char>)
    ensures
        r@ == s@.map_values(|c: char| ascii_lower(c)),
{
    let cs = chars_of(s);
    let mut r: Vec<char> = Vec::new();
    let mut i: usize = 0;
    while i < cs.len()
        invariant
            i <= cs@.len(),
            cs@ == s@,
            r@ == cs@.take(i as int).map_values(|c: char| ascii_lower(c)),
        decreases cs@.len() - i,
    {
        let c = cs[i];
        let l = if 'A' <= c && c <= 'Z' {
            let b = c as u8;
            (b + 32) as char
        } else {
            c
        };
        r.push(l);
        i = i + 1;
        assert(r@ =~= cs@.take(i as int).map_values(|c: char| ascii_lower(c)));
    }
    assert(cs@.take(cs@.len() as int) =~= cs@);
    r
}

/// Where the cover of a remote track is cached: the `thumbnails` directory
/// of the cache, and in it a file named by the URL's file id and its image
/// extension.
pub fn thumbnail_location(url: &str, cache_dir: &str) -> (r: (String, String))
    ensures
        r.0@ == path_joined(cache_dir@, "thumbnails"@),
        r.1@ == path_joined(
            r.0@,
            hex_digits(default_hash(url@) as int, 16) + "."@ + thumbnail_ext(url@),
        ),
{
    let dir = join_path(cache_dir, "thumbnails");
    let ext: String = match crate::library::scanner::extension_of(url) {
        Some(e) => {
            let l = lower_ascii(e.as_str());
            if chars_eq(&l, "jpg") || chars_eq(&l, "jpeg") || chars_eq(&l, "webp") || chars_eq(
                &l,
                "png",
            ) {
                string_of(&l)
            } else {
                String::from_str("jpg")
            }
        },
        None => String::from_str("jpg"),
    };
    let mut name = derive_file_id(url);
    name.append(".");
    name.append(ext.as_str());
    let file = join_path(dir.as_str(), name.as_str());
    (dir, file)
}

} // verus!
