//! MPRIS2: the state exported on D-Bus and how it follows the audio engine.
//!
//! The D-Bus service itself lives at the application's edge; it reads the
//! [`MprisState`], feeds it every engine event through [`apply_event`], and
//! emits one `PropertiesChanged` signal per returned [`Change`].

use vstd::prelude::*;
use vstd::string::StringExecFns;

use crate::audio::engine::PlayerEvent;
use crate::audio::{PlaybackState, RepeatMode};
use crate::library::Track;
use crate::text::{chars_eq, chars_of, index_of_char_from, string_of, sub_chars};

verus! {

/// Playback status reported over MPRIS.
#[derive(Debug, Clone, Copy, PartialEq, Eq, Structural)]
pub enum PlaybackStatus {
    Playing,
    Paused,
    Stopped,
}

impl PlaybackStatus {
    /// The MPRIS string representation.
    pub fn as_str(self) -> (s: &'static str)
        ensures
            s@ == match self {
                PlaybackStatus::Playing => "Playing"@,
                PlaybackStatus::Paused => "Paused"@,
                PlaybackStatus::Stopped => "Stopped"@,
            },
    {
        match self {
            PlaybackStatus::Playing => "Playing",
            PlaybackStatus::Paused => "Paused",
            PlaybackStatus::Stopped => "Stopped",
        }
    }

    /// The status matching an engine playback state.
    pub fn from_state(state: PlaybackState) -> (s: Self)
        ensures
            s == status_of(state),
    {
        match state {
            PlaybackState::Playing => PlaybackStatus::Playing,
            PlaybackState::Paused => PlaybackStatus::Paused,
            PlaybackState::Stopped => PlaybackStatus::Stopped,
        }
    }
}

/// The MPRIS status of an engine playback state.
pub open spec fn status_of(state: PlaybackState) -> PlaybackStatus {
    match state {
        PlaybackState::Playing => PlaybackStatus::Playing,
        PlaybackState::Paused => PlaybackStatus::Paused,
        PlaybackState::Stopped => PlaybackStatus::Stopped,
    }
}

/// Loop status reported over MPRIS.
#[derive(Debug, Clone, Copy, PartialEq, Eq, Structural)]
pub enum LoopStatus {
    /// No looping (MPRIS `None`).
    Off,
    Track,
    Playlist,
}

/// The MPRIS name of a loop status.
pub open spec fn loop_name(s: LoopStatus) -> Seq<char> {
    match s {
        LoopStatus::Off => "None"@,
        LoopStatus::Track => "Track"@,
        LoopStatus::Playlist => "Playlist"@,
    }
}

/// The loop status of a repeat mode.
pub open spec fn loop_of(mode: RepeatMode) -> LoopStatus {
    match mode {
        RepeatMode::Off => LoopStatus::Off,
        RepeatMode::One => LoopStatus::Track,
        RepeatMode::All => LoopStatus::Playlist,
    }
}

/// The repeat mode of a loop status.
pub open spec fn repeat_of(status: LoopStatus) -> RepeatMode {
    match status {
        LoopStatus::Off => RepeatMode::Off,
        LoopStatus::Track => RepeatMode::One,
        LoopStatus::Playlist => RepeatMode::All,
    }
}

/// A character with ASCII upper case mapped to lower case.
pub open spec fn lower(c: char) -> char {
    crate::library::scanner::ascii_lower(c)
}

/// The loop status a client string names, ignoring ASCII case.
pub open spec fn loop_named(s: Seq<char>) -> Option<LoopStatus> {
    let l = s.map_values(|c: char| lower(c));
    if l == "none"@ {
        Some(LoopStatus::Off)
    } else if l == "track"@ {
        Some(LoopStatus::Track)
    } else if l == "playlist"@ {
        Some(LoopStatus::Playlist)
    } else {
        None
    }
}

fn lowercase(s: &str) -> (r: Vec<char>)
    ensures
        r@ == s@.map_values(|c: char| lower(c)),
{
    let cs = chars_of(s);
    let mut r: Vec<char> = Vec::new();
    let mut i: usize = 0;
    while i < cs.len()
        invariant
            i <= cs@.len(),
            cs@ == s@,
            r@ == cs@.take(i as int).map_values(|c: char| lower(c)),
        decreases cs@.len() - i,
    {
        let c = cs[i];
        let l = if 'A' <= c && c <= 'Z' {
            let b = c as u8;
            (b + 32) as char
        } else {
            c
        };
        r.push(l);
        i = i + 1;
        assert(r@ =~= cs@.take(i as int).map_values(|c: char| lower(c)));
    }
    assert(cs@.take(cs@.len() as int) =~= cs@);
    r
}

impl LoopStatus {
    /// The MPRIS string representation.
    pub fn as_str(self) -> (s: &'static str)
        ensures
            s@ == loop_name(self),
    {
        match self {
            LoopStatus::Off => "None",
            LoopStatus::Track => "Track",
            LoopStatus::Playlist => "Playlist",
        }
    }

    /// Parses a case-insensitive MPRIS loop status string.
    pub fn from_str_mpris(status: &str) -> (r: Option<Self>)
        ensures
            r == loop_named(status@),
    {
        let l = lowercase(status);
        if chars_eq(&l, "none") {
            Some(LoopStatus::Off)
        } else if chars_eq(&l, "track") {
            Some(LoopStatus::Track)
        } else if chars_eq(&l, "playlist") {
            Some(LoopStatus::Playlist)
        } else {
            None
        }
    }

    /// The loop status of a repeat mode.
    pub fn from_repeat(mode: RepeatMode) -> (s: Self)
        ensures
            s == loop_of(mode),
    {
        match mode {
            RepeatMode::Off => LoopStatus::Off,
            RepeatMode::One => LoopStatus::Track,
            RepeatMode::All => LoopStatus::Playlist,
        }
    }

    /// The repeat mode this loop status asks for.
    pub fn to_repeat(self) -> (m: RepeatMode)
        ensures
            m == repeat_of(self),
    {
        match self {
            LoopStatus::Off => RepeatMode::Off,
            LoopStatus::Track => RepeatMode::One,
            LoopStatus::Playlist => RepeatMode::All,
        }
    }
}

/// A repeat mode survives the trip through its MPRIS loop status.
pub proof fn law_loop_status_round_trip(mode: RepeatMode)
    ensures
        repeat_of(loop_of(mode)) == mode,
{
}

/// Every loop status is read back from its own name.
pub proof fn law_loop_name_parses(status: LoopStatus)
    ensures
        loop_named(loop_name(status)) == Some(status),
{
    reveal_strlit("None");
    reveal_strlit("Track");
    reveal_strlit("Playlist");
    reveal_strlit("none");
    reveal_strlit("track");
    reveal_strlit("playlist");
    let n = loop_name(status);
    let l = n.map_values(|c: char| lower(c));
    match status {
        LoopStatus::Off => {
            assert(l =~= "none"@);
        },
        LoopStatus::Track => {
            assert(l =~= "track"@);
            assert(l != "none"@);
        },
        LoopStatus::Playlist => {
            assert(l =~= "playlist"@);
            assert(l != "none"@);
            assert(l != "track"@);
        },
    }
}

/// A property of [`MprisState`] that changed and needs its signal emitted.
#[derive(Debug, Clone, Copy, PartialEq, Eq, Structural)]
pub enum Change {
    PlaybackStatus,
    LoopStatus,
    Shuffle,
    Volume,
    Position,
    Metadata,
}

/// The player state exported over MPRIS. Positions are in nanoseconds; the
/// volume is kept as the bits of its IEEE-754 double.
pub struct MprisState {
    pub status: PlaybackStatus,
    pub track: Option<Track>,
    pub position_ns: u128,
    pub volume_bits: u64,
    pub shuffle: bool,
    pub loop_status: LoopStatus,
}

impl MprisState {
    /// Nothing playing, at the start, silent, in order, no loop.
    pub fn new() -> (s: Self)
        ensures
            s.status == PlaybackStatus::Stopped,
            s.track is None,
            s.position_ns == 0,
            s.volume_bits == 0,
            !s.shuffle,
            s.loop_status == LoopStatus::Off,
    {
        MprisState {
            status: PlaybackStatus::Stopped,
            track: None,
            position_ns: 0,
            volume_bits: 0,
            shuffle: false,
            loop_status: LoopStatus::Off,
        }
    }
}

/// How an engine event changes the MPRIS state, and which properties it
/// reports as changed: a field that already holds the new value reports
/// nothing.
pub open spec fn event_effect(old: MprisState, event: PlayerEvent, new: MprisState, changes: Seq<
    Change,
>) -> bool {
    match event {
        PlayerEvent::TrackStarted(t) => new == (MprisState {
            track: Some(t),
            status: PlaybackStatus::Playing,
            position_ns: 0,
            ..old
        }) && changes == seq![Change::PlaybackStatus, Change::Metadata, Change::Position],
        PlayerEvent::PlaybackStateChanged(s) => if old.status == status_of(s) {
            new == old && changes.len() == 0
        } else {
            new == (MprisState { status: status_of(s), ..old }) && changes == seq![
                Change::PlaybackStatus,
            ]
        },
        PlayerEvent::PositionChanged(p) => if old.position_ns == p {
            new == old && changes.len() == 0
        } else {
            new == (MprisState { position_ns: p, ..old }) && changes == seq![Change::Position]
        },
        PlayerEvent::DurationChanged(d) => match old.track {
            Some(t) => if t.duration_ns == d {
                new == old && changes.len() == 0
            } else {
                new == (MprisState { track: Some(Track { duration_ns: d, ..t }), ..old })
                    && changes == seq![Change::Metadata]
            },
            None => new == old && changes.len() == 0,
        },
        PlayerEvent::ShuffleChanged(b) => if old.shuffle == b {
            new == old && changes.len() == 0
        } else {
            new == (MprisState { shuffle: b, ..old }) && changes == seq![Change::Shuffle]
        },
        PlayerEvent::RepeatChanged(m) => if old.loop_status == loop_of(m) {
            new == old && changes.len() == 0
        } else {
            new == (MprisState { loop_status: loop_of(m), ..old }) && changes == seq![
                Change::LoopStatus,
            ]
        },
        _ => new == old && changes.len() == 0,
    }
}

/// An event reported a second time changes nothing and signals nothing:
/// clients hear of each change once. A started track is the exception; it is
/// always announced.
pub proof fn law_repeated_event_is_silent(
    s0: MprisState,
    event: PlayerEvent,
    s1: MprisState,
    c1: Seq<Change>,
    s2: MprisState,
    c2: Seq<Change>,
)
    requires
        !(event is TrackStarted),
        event_effect(s0, event, s1, c1),
        event_effect(s1, event, s2, c2),
    ensures
        s2 == s1,
        c2.len() == 0,
{
}

/// Applies an engine event to the state, returning the affected properties.
pub fn apply_event(state: &mut MprisState, event: PlayerEvent) -> (changes: Vec<Change>)
    ensures
        event_effect(*old(state), event, *final(state), changes@),
{
    match event {
        PlayerEvent::TrackStarted(track) => {
            state.track = Some(track);
            state.status = PlaybackStatus::Playing;
            state.position_ns = 0;
            { let c = vec![Change::PlaybackStatus, Change::Metadata, Change::Position]; assert(c@ =~= seq![Change::PlaybackStatus, Change::Metadata, Change::Position]); c }
        },
        PlayerEvent::PlaybackStateChanged(new_state) => {
            let status = PlaybackStatus::from_state(new_state);
            if state.status == status {
                return Vec::new();
            }
            state.status = status;
            { let c = vec![Change::PlaybackStatus]; assert(c@ =~= seq![Change::PlaybackStatus]); c }
        },
        PlayerEvent::PositionChanged(position) => {
            if state.position_ns == position {
                return Vec::new();
            }
            state.position_ns = position;
            { let c = vec![Change::Position]; assert(c@ =~= seq![Change::Position]); c }
        },
        PlayerEvent::DurationChanged(duration) => {
            let unchanged = match &state.track {
                Some(track) => track.duration_ns == duration,
                None => true,
            };
            if unchanged {
                return Vec::new();
            }
            let mut track = state.track.take().unwrap();
            track.duration_ns = duration;
            state.track = Some(track);
            { let c = vec![Change::Metadata]; assert(c@ =~= seq![Change::Metadata]); c }
        },
        PlayerEvent::ShuffleChanged(shuffle) => {
            if state.shuffle == shuffle {
                return Vec::new();
            }
            state.shuffle = shuffle;
            { let c = vec![Change::Shuffle]; assert(c@ =~= seq![Change::Shuffle]); c }
        },
        PlayerEvent::RepeatChanged(mode) => {
            let loop_status = LoopStatus::from_repeat(mode);
            if state.loop_status == loop_status {
                return Vec::new();
            }
            state.loop_status = loop_status;
            { let c = vec![Change::LoopStatus]; assert(c@ =~= seq![Change::LoopStatus]); c }
        },
        _ => Vec::new(),
    }
}

/// Records a volume change (the bits of the new volume as an IEEE-754
/// double); the volume property always reports it.
pub fn apply_volume(state: &mut MprisState, volume_bits: u64) -> (changes: Vec<Change>)
    ensures
        *final(state) == (MprisState { volume_bits, ..*old(state) }),
        changes@ == seq![Change::Volume],
{
    state.volume_bits = volume_bits;
    let changes = vec![Change::Volume];
    assert(changes@ =~= seq![Change::Volume]);
    changes
}

/// The seek target of a (possibly negative) MPRIS offset in microseconds,
/// clamped to the start of the track, in nanoseconds.
pub fn seek_position_ns(micros: i64) -> (ns: u128)
    ensures
        ns == (if micros < 0 {
            0
        } else {
            micros * 1000
        }),
{
    if micros < 0 {
        0
    } else {
        (micros as u128) * 1000
    }
}

/// A byte that percent-encoding leaves as it is: an ASCII letter or digit,
/// or one of `-`, `.`, `_`, `~`.
pub open spec fn is_unreserved(b: u8) -> bool {
    ||| (0x30 <= b && b <= 0x39)
    ||| (0x41 <= b && b <= 0x5a)
    ||| (0x61 <= b && b <= 0x7a)
    ||| b == 0x2d || b == 0x2e || b == 0x5f || b == 0x7e
}

/// The upper-case hex digit of a value below 16.
pub open spec fn hex_upper(v: int) -> char {
    seq!['0', '1', '2', '3', '4', '5', '6', '7', '8', '9', 'A', 'B', 'C', 'D', 'E', 'F'][v]
}

/// Bytes percent-encoded: an unreserved byte as its character, any other as
/// `%` and its two upper-case hex digits.
pub open spec fn percent_encoded(bytes: Seq<u8>) -> Seq<char>
    decreases bytes.len(),
{
    if bytes.len() == 0 {
        Seq::empty()
    } else {
        let b = bytes[0];
        (if is_unreserved(b) {
            seq![b as char]
        } else {
            seq!['%', hex_upper(b as int / 16), hex_upper(b as int % 16)]
        }) + percent_encoded(bytes.drop_first())
    }
}

/// A string percent-encoded byte by byte over its UTF-8 form.
pub open spec fn url_encoded(s: Seq<char>) -> Seq<char> {
    percent_encoded(vstd::utf8::encode_utf8(s))
}

/// Percent-encodes one path component with `urlencoding::encode`, which
/// writes every byte of the string's UTF-8 form except ASCII letters,
/// digits and `-`, `.`, `_`, `~` as `%` and two upper-case hex digits.
#[verifier::external_body]
fn encode_component(s: &str) -> (r: String)
    ensures
        r@ == url_encoded(s@),
{
    urlencoding::encode(s).into_owned()
}

/// The path components that name something (`Component::Normal` in
/// `std::path`): the `/`-separated pieces that are not empty, `.` or `..`.
pub open spec fn is_name(piece: Seq<char>) -> bool {
    piece.len() > 0 && piece != "."@ && piece != ".."@
}

/// The `/`-separated pieces of a path, in order.
pub open spec fn pieces(path: Seq<char>) -> Seq<Seq<char>>
    decreases path.len(),
{
    match crate::text::find_char(path, '/') {
        None => seq![path],
        Some(i) => if 0 <= i < path.len() {
            seq![path.take(i)] + pieces(path.skip(i + 1))
        } else {
            seq![path]
        },
    }
}

/// The names among `pieces`, each percent-encoded, joined by `/`.
pub open spec fn encoded_names(ps: Seq<Seq<char>>) -> Seq<char>
    decreases ps.len(),
{
    if ps.len() == 0 {
        Seq::empty()
    } else {
        let rest = encoded_names(ps.drop_last());
        if !is_name(ps.last()) {
            rest
        } else if !has_name(ps.drop_last()) {
            url_encoded(ps.last())
        } else {
            rest + "/"@ + url_encoded(ps.last())
        }
    }
}

/// Whether any of `ps` is a name.
pub open spec fn has_name(ps: Seq<Seq<char>>) -> bool {
    exists|i: int| 0 <= i < ps.len() && is_name(#[trigger] ps[i])
}

/// The `file://` URI of a path: `file://`, one more `/` for an absolute
/// path, then the percent-encoded names joined by `/`; `None` for an empty
/// path.
pub open spec fn file_uri_of(path: Seq<char>) -> Option<Seq<char>> {
    if path.len() == 0 {
        None
    } else {
        let root = if path[0] == '/' {
            "/"@
        } else {
            Seq::empty()
        };
        Some("file://"@ + root + encoded_names(pieces(path)))
    }
}

proof fn lemma_no_names_encode_empty(ps: Seq<Seq<char>>)
    requires
        !has_name(ps),
    ensures
        encoded_names(ps).len() == 0,
    decreases ps.len(),
{
    if ps.len() > 0 {
        assert(!is_name(ps[ps.len() - 1]));
        assert forall|i: int| 0 <= i < ps.drop_last().len() implies !is_name(
            #[trigger] ps.drop_last()[i],
        ) by {
            assert(ps.drop_last()[i] == ps[i]);
        }
        lemma_no_names_encode_empty(ps.drop_last());
    }
}

proof fn lemma_has_name_push(ps: Seq<Seq<char>>, p: Seq<char>)
    ensures
        has_name(ps.push(p)) == (has_name(ps) || is_name(p)),
{
    if has_name(ps) {
        let i = choose|i: int| 0 <= i < ps.len() && is_name(#[trigger] ps[i]);
        assert(ps.push(p)[i] == ps[i]);
    }
    if is_name(p) {
        assert(ps.push(p)[ps.len() as int] == p);
    }
    if has_name(ps.push(p)) {
        let i = choose|i: int| 0 <= i < ps.len() + 1 && is_name(#[trigger] ps.push(p)[i]);
        if i < ps.len() {
            assert(ps[i] == ps.push(p)[i]);
        }
    }
}

/// Builds a percent-encoded `file://` URI for `path`; `None` for an empty
/// path.
pub fn file_uri(path: &str) -> (r: Option<String>)
    ensures
        match r {
            Some(u) => file_uri_of(path@) == Some(u@),
            None => file_uri_of(path@) is None,
        },
{
    let cs = chars_of(path);
    let n = cs.len();
    if n == 0 {
        return None;
    }
    let mut uri = String::from_str("file://");
    proof {
        reveal_strlit("/");
    }
    if cs[0] == '/' {
        uri.push('/');
    }
    let ghost prefix = uri@;
    assert(prefix =~= "file://"@ + (if path@[0] == '/' {
        "/"@
    } else {
        Seq::<char>::empty()
    }));
    let ghost mut done: Seq<Seq<char>> = Seq::empty();
    let mut p: usize = 0;
    let mut named = false;
    let mut finished = false;
    assert(cs@.skip(0) =~= cs@);
    while !finished
        invariant
            n == cs@.len(),
            cs@ == path@,
            p <= n,
            !finished ==> pieces(path@) == done + pieces(cs@.skip(p as int)),
            finished ==> pieces(path@) == done,
            uri@ == prefix + encoded_names(done),
            named == has_name(done),
        decreases n - p + (if finished {
            0int
        } else {
            1int
        }),
    {
        let ghost rest = cs@.skip(p as int);
        let (piece, next, last) = match index_of_char_from(&cs, '/', p) {
            Some(q) => {
                let piece = sub_chars(&cs, p, q);
                assert(piece@ =~= rest.take(q - p));
                assert(rest.skip(q - p + 1) =~= cs@.skip(q + 1));
                (piece, q + 1, false)
            },
            None => {
                let piece = sub_chars(&cs, p, n);
                assert(piece@ =~= rest);
                (piece, n, true)
            },
        };
        proof {
            if last {
                assert(pieces(rest) =~= seq![piece@]);
                assert(done + seq![piece@] =~= done.push(piece@));
            } else {
                assert(pieces(rest) =~= seq![piece@] + pieces(cs@.skip(next as int)));
                assert(done + (seq![piece@] + pieces(cs@.skip(next as int))) =~= done.push(piece@)
                    + pieces(cs@.skip(next as int)));
            }
            lemma_has_name_push(done, piece@);
            assert(done.push(piece@).drop_last() =~= done);
            reveal_strlit("/");
        }
        let name = piece.len() > 0 && !chars_eq(&piece, ".") && !chars_eq(&piece, "..");
        proof {
            if !named {
                lemma_no_names_encode_empty(done);
            }
        }
        if name {
            if named {
                uri.push('/');
            }
            let text = string_of(&piece);
            let encoded = encode_component(text.as_str());
            uri.append(encoded.as_str());
            named = true;
        }
        proof {
            done = done.push(piece@);
        }
        assert(uri@ =~= prefix + encoded_names(done));
        p = next;
        finished = last;
    }
    assert(uri@ =~= "file://"@ + (if path@[0] == '/' {
        "/"@
    } else {
        Seq::<char>::empty()
    }) + encoded_names(pieces(path@)));
    Some(uri)
}

/// The MIME types the player announces it can decode.
pub const SUPPORTED_MIME_TYPES: [&'static str; 11] = [
    "audio/mpeg",
    "audio/flac",
    "audio/x-flac",
    "audio/ogg",
    "audio/opus",
    "audio/wav",
    "audio/x-wav",
    "audio/mp4",
    "audio/aac",
    "audio/mp4a-latm",
    "audio/x-m4a",
];

/// A value of the MPRIS metadata dictionary.
#[derive(Debug, Clone, PartialEq, Eq)]
pub enum MetaValue {
    /// A D-Bus object path.
    ObjectPath(String),
    /// A length in microseconds.
    Micros(u64),
    /// A string.
    Text(String),
    /// A list of strings.
    TextList(Vec<String>),
}

/// A metadata entry taken as (key, value kind, text, number).
pub open spec fn entry_view(e: (String, MetaValue)) -> (Seq<char>, MetaValue) {
    (e.0@, e.1)
}

/// The metadata entries of a track, in order: its object path (only for a
/// non-negative id, the others make no valid path), its length in
/// microseconds, its file URI as art and URL when it has a file, and its
/// title, album and artist when they are not empty.
pub open spec fn metadata_ok(t: Track, entries: Seq<(String, MetaValue)>) -> bool {
    let keys = entries.map_values(|e: (String, MetaValue)| e.0@);
    let path_entry = if t.id >= 0 {
        seq!["mpris:trackid"@]
    } else {
        Seq::empty()
    };
    let uri_entries = if file_uri_of(t.path@) is Some {
        seq!["mpris:artUrl"@, "xesam:url"@]
    } else {
        Seq::empty()
    };
    let title_entry = if t.title@.len() > 0 {
        seq!["xesam:title"@]
    } else {
        Seq::empty()
    };
    let album_entry = if t.album@.len() > 0 {
        seq!["xesam:album"@]
    } else {
        Seq::empty()
    };
    let artist_entry = if t.artist@.len() > 0 {
        seq!["xesam:artist"@]
    } else {
        Seq::empty()
    };
    &&& keys == path_entry + seq!["mpris:length"@] + uri_entries + title_entry + album_entry
        + artist_entry
    &&& forall|i: int| 0 <= i < entries.len() ==> #[trigger] entry_value_ok(t, entries[i])
}

/// What each metadata key holds.
pub open spec fn entry_value_ok(t: Track, e: (String, MetaValue)) -> bool {
    let k = e.0@;
    if k == "mpris:trackid"@ {
        e.1 matches MetaValue::ObjectPath(p) && p@ == "/org/chromia/Track/"@
            + crate::ui::widgets::player::decimal_text(t.id as nat)
    } else if k == "mpris:length"@ {
        e.1 == MetaValue::Micros(((t.duration_ns / 1000) % 0x1_0000_0000_0000_0000) as u64)
    } else if k == "mpris:artUrl"@ || k == "xesam:url"@ {
        match e.1 {
            MetaValue::Text(u) => file_uri_of(t.path@) == Some(u@),
            _ => false,
        }
    } else if k == "xesam:title"@ {
        e.1 matches MetaValue::Text(x) && x@ == t.title@
    } else if k == "xesam:album"@ {
        e.1 matches MetaValue::Text(x) && x@ == t.album@
    } else {
        e.1 matches MetaValue::TextList(v) && v@.len() == 1 && v@[0]@ == t.artist@
    }
}

proof fn lemma_uri_entry(t: Track, key: String, u: String)
    requires
        key@ == "mpris:artUrl"@ || key@ == "xesam:url"@,
        file_uri_of(t.path@) == Some(u@),
    ensures
        entry_value_ok(t, (key, MetaValue::Text(u))),
{
    reveal_strlit("mpris:trackid");
    reveal_strlit("mpris:length");
    reveal_strlit("mpris:artUrl");
    reveal_strlit("xesam:url");
    if key@ == "mpris:artUrl"@ {
        assert(key@.len() == 12);
        assert(key@ != "mpris:trackid"@);
        assert(key@[6] != "mpris:length"@[6]);
        assert(key@ != "mpris:length"@);
    } else {
        assert(key@.len() == 9);
        assert(key@ != "mpris:trackid"@);
        assert(key@ != "mpris:length"@);
    }
}

proof fn lemma_text_entries(t: Track, key: String, value: MetaValue)
    ensures
        key@ == "xesam:title"@ && (value matches MetaValue::Text(x) && x@ == t.title@)
            ==> entry_value_ok(t, (key, value)),
        key@ == "xesam:album"@ && (value matches MetaValue::Text(x) && x@ == t.album@)
            ==> entry_value_ok(t, (key, value)),
        key@ == "xesam:artist"@ && (value matches MetaValue::TextList(v) && v@.len() == 1 && v@[0]@
            == t.artist@) ==> entry_value_ok(t, (key, value)),
{
    reveal_strlit("mpris:trackid");
    reveal_strlit("mpris:length");
    reveal_strlit("mpris:artUrl");
    reveal_strlit("xesam:url");
    reveal_strlit("xesam:title");
    reveal_strlit("xesam:album");
    reveal_strlit("xesam:artist");
    if key@ == "xesam:title"@ {
        assert(key@.len() == 11);
        assert(key@ != "mpris:trackid"@ && key@ != "mpris:length"@ && key@ != "mpris:artUrl"@
            && key@ != "xesam:url"@);
    } else if key@ == "xesam:album"@ {
        assert(key@.len() == 11);
        assert(key@[6] != "xesam:title"@[6]);
        assert(key@ != "mpris:trackid"@ && key@ != "mpris:length"@ && key@ != "mpris:artUrl"@
            && key@ != "xesam:url"@ && key@ != "xesam:title"@);
    } else if key@ == "xesam:artist"@ {
        assert(key@.len() == 12);
        assert(key@[6] != "mpris:length"@[6]);
        assert(key@[0] != "mpris:artUrl"@[0]);
        assert(key@ != "mpris:trackid"@ && key@ != "mpris:length"@ && key@ != "mpris:artUrl"@
            && key@ != "xesam:url"@ && key@ != "xesam:title"@ && key@ != "xesam:album"@);
    }
}

/// Builds the MPRIS metadata entries for `track` (none without a track).
pub fn metadata_entries(track: &Option<Track>) -> (entries: Vec<(String, MetaValue)>)
    ensures
        match *track {
            Some(t) => metadata_ok(t, entries@),
            None => entries@.len() == 0,
        },
{
    let t = match track {
        Some(t) => t,
        None => return Vec::new(),
    };
    let mut entries: Vec<(String, MetaValue)> = Vec::new();
    let ghost mut keys: Seq<Seq<char>> = Seq::empty();
    proof {
        reveal_strlit("mpris:trackid");
        reveal_strlit("mpris:length");
        reveal_strlit("mpris:artUrl");
        reveal_strlit("xesam:url");
        reveal_strlit("xesam:title");
        reveal_strlit("xesam:album");
        reveal_strlit("xesam:artist");
    }
    if t.id >= 0 {
        let mut p = String::from_str("/org/chromia/Track/");
        crate::ui::widgets::player::push_decimal(&mut p, t.id as u64);
        entries.push((String::from_str("mpris:trackid"), MetaValue::ObjectPath(p)));
        assert(entry_value_ok(*t, entries@[0]));
    }
    let micros = ((t.duration_ns / 1000) % 0x1_0000_0000_0000_0000) as u64;
    entries.push((String::from_str("mpris:length"), MetaValue::Micros(micros)));
    let ghost e = entries@[entries@.len() - 1];
    assert(e.0@ == "mpris:length"@);
    assert(e.0@ != "mpris:trackid"@);
    assert(entry_value_ok(*t, e));
    assert(forall|i: int| 0 <= i < entries@.len() ==> #[trigger] entry_value_ok(*t, entries@[i]));
    let path = t.path.as_str();
    assert(path@ == t.path@);
    if let Some(uri) = file_uri(path) {
        assert(file_uri_of(t.path@) == Some(uri@));
        let art = uri.clone();
        let art_key = String::from_str("mpris:artUrl");
        proof {
            lemma_uri_entry(*t, art_key, art);
        }
        entries.push((art_key, MetaValue::Text(art)));
        let url_key = String::from_str("xesam:url");
        proof {
            lemma_uri_entry(*t, url_key, uri);
        }
        entries.push((url_key, MetaValue::Text(uri)));
        assert(forall|i: int| 0 <= i < entries@.len() ==> #[trigger] entry_value_ok(*t, entries@[i]));

    }
    if !t.title.as_str().is_empty() {
        let key = String::from_str("xesam:title");
        let value = MetaValue::Text(t.title.clone());
        proof {
            lemma_text_entries(*t, key, value);
        }
        entries.push((key, value));
        assert(forall|i: int| 0 <= i < entries@.len() ==> #[trigger] entry_value_ok(*t, entries@[i]));
    }
    if !t.album.as_str().is_empty() {
        let key = String::from_str("xesam:album");
        let value = MetaValue::Text(t.album.clone());
        proof {
            lemma_text_entries(*t, key, value);
        }
        entries.push((key, value));
        assert(forall|i: int| 0 <= i < entries@.len() ==> #[trigger] entry_value_ok(*t, entries@[i]));
    }
    if !t.artist.as_str().is_empty() {
        let key = String::from_str("xesam:artist");
        let value = MetaValue::TextList(vec![t.artist.clone()]);
        proof {
            lemma_text_entries(*t, key, value);
        }
        entries.push((key, value));
        assert(forall|i: int| 0 <= i < entries@.len() ==> #[trigger] entry_value_ok(*t, entries@[i]));
    }
    let ghost path_entry = if t.id >= 0 {
        seq!["mpris:trackid"@]
    } else {
        Seq::<Seq<char>>::empty()
    };
    let ghost uri_entries = if file_uri_of(t.path@) is Some {
        seq!["mpris:artUrl"@, "xesam:url"@]
    } else {
        Seq::<Seq<char>>::empty()
    };
    let ghost title_entry = if t.title@.len() > 0 {
        seq!["xesam:title"@]
    } else {
        Seq::<Seq<char>>::empty()
    };
    let ghost album_entry = if t.album@.len() > 0 {
        seq!["xesam:album"@]
    } else {
        Seq::<Seq<char>>::empty()
    };
    let ghost artist_entry = if t.artist@.len() > 0 {
        seq!["xesam:artist"@]
    } else {
        Seq::<Seq<char>>::empty()
    };
    assert(entries@.map_values(|e: (String, MetaValue)| e.0@) =~= path_entry + seq![
        "mpris:length"@,
    ] + uri_entries + title_entry + album_entry + artist_entry);
    entries
}

/// The status MPRIS exports names the engine's playback state: after the
/// engine reports a state, the status is `Playing`, `Paused` or `Stopped`
/// for a playing, paused or stopped engine, so distinct states stay
/// distinct; a change of status is reported as one.
pub proof fn law_status_names_the_state(
    old: MprisState,
    s: PlaybackState,
    new: MprisState,
    changes: Seq<Change>,
)
    requires
        event_effect(old, PlayerEvent::PlaybackStateChanged(s), new, changes),
    ensures
        s == PlaybackState::Playing ==> new.status == PlaybackStatus::Playing,
        s == PlaybackState::Paused ==> new.status == PlaybackStatus::Paused,
        s == PlaybackState::Stopped ==> new.status == PlaybackStatus::Stopped,
        old.status != new.status ==> changes == seq![Change::PlaybackStatus],
        new == (MprisState { status: new.status, ..old }),
{
}

/// Distinct engine states are exported as distinct MPRIS statuses.
pub proof fn law_status_distinguishes_states(a: PlaybackState, b: PlaybackState)
    requires
        a != b,
    ensures
        status_of(a) != status_of(b),
{
}

} // verus!
