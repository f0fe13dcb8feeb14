use chromia::library::metadata::title_or_stem;
use chromia::library::database::{lookup_for, search_pattern, track_from_stored, with_row_id, StoredTrack, TrackLookup};
use chromia::library::scanner::{is_audio_file, str_eq_ignore_ascii_case, Scanner, AUDIO_EXTENSIONS};
use chromia::library::{SourceKind, Track};

#[test]
fn audio_extensions_are_non_empty() {
    assert!(!AUDIO_EXTENSIONS.is_empty());
    assert!(AUDIO_EXTENSIONS.contains(&"flac"));
}

#[test]
fn audio_files_are_recognised_by_extension() {
    assert!(is_audio_file("/music/a/song.FLAC"));
    assert!(is_audio_file("clip.webm"));
    assert!(!is_audio_file("/music/cover.jpg"));
    assert!(!is_audio_file("/music/.mp3"));
    assert!(!is_audio_file("/music/noext"));
    assert!(str_eq_ignore_ascii_case("MkA", "mka"));
    let scanner = Scanner::new();
    assert!(scanner.accepts("x.ogg"));
    assert!(!scanner.visits(".hidden"));
    assert!(scanner.visits("Albums"));
}

#[test]
fn labels_and_playability() {
    let t = Track::new_local("/a.mp3".into(), "Song".into(), "Band".into(), "LP".into(), 1000);
    assert_eq!(t.label(), "Band - Song");
    assert!(t.is_playable());
    let r = Track::new_remote(SourceKind::Youtube, "u".into(), "Solo".into());
    assert_eq!(r.label(), "Solo");
    assert!(r.is_playable());
    assert!(t.same_as(&t.clone()));
    assert!(!t.same_as(&r));
    assert_eq!(SourceKind::Soundcloud.to_string(), "soundcloud");
}

fn row(source: &str, duration_ms: i64, last_played: Option<i64>) -> StoredTrack {
    StoredTrack {
        id: 7,
        source: source.into(),
        path: "/p.mp3".into(),
        url: None,
        thumbnail: None,
        title: "t".into(),
        artist: "a".into(),
        album: "b".into(),
        album_artist: String::new(),
        duration_ms,
        track_no: Some(1),
        disc_no: None,
        genre: None,
        year: Some(1999),
        bpm_bits: None,
        play_count: 3,
        last_played,
    }
}

#[test]
fn stored_rows_become_tracks() {
    let t = track_from_stored(row("soundcloud", 5_000, Some(1_700_000_000)));
    assert_eq!(t.id, 7);
    assert_eq!(t.source, SourceKind::Soundcloud);
    assert_eq!(t.duration_ns, 5_000_000_000);
    assert_eq!(t.last_played, Some(1_700_000_000));
    let t = track_from_stored(row("weird", -5, Some(i64::MAX)));
    assert_eq!(t.source, SourceKind::Local);
    assert_eq!(t.duration_ns, 0);
    assert_eq!(t.last_played, None);
}

#[test]
fn last_play_times_keep_exactly_the_calendar_range() {
    let first = -8_334_601_228_800_i64;
    let last = 8_210_266_876_799_i64;
    for (secs, kept) in [(first, true), (first - 1, false), (last, true), (last + 1, false), (0, true)] {
        let t = track_from_stored(row("local", 0, Some(secs)));
        assert_eq!(t.last_played.is_some(), kept, "{secs}");
    }
}

#[test]
fn upserts_look_up_local_by_path_and_remote_by_url() {
    let t = Track::new_local("/a.mp3".into(), "Song".into(), "Band".into(), "LP".into(), 1000);
    assert_eq!(lookup_for(&t), TrackLookup::ByPath("/a.mp3".into()));
    let r = Track::new_remote(SourceKind::Youtube, "u".into(), "Solo".into());
    assert_eq!(lookup_for(&r), TrackLookup::ByUrl(Some("u".into())));
    assert_eq!(with_row_id(r, 42).id, 42);
    assert_eq!(search_pattern("abc"), "%abc%");
}

#[test]
fn subtitles_join_artist_and_album() {
    let mut t = Track::new_local("/a.mp3".into(), "T".into(), "Artist".into(), "Album".into(), 0);
    assert_eq!(t.subtitle(), "Artist — Album");
    t.album = String::new();
    assert_eq!(t.subtitle(), "Artist");
    t.artist = String::new();
    t.album = "Album".into();
    assert_eq!(t.subtitle(), "Album");
    t.album = String::new();
    assert_eq!(t.subtitle(), "");
}

#[test]
fn titles_fall_back_to_the_file_stem() {
    assert_eq!(title_or_stem(Some("Song".into()), Some("01 song".into())), "Song");
    assert_eq!(title_or_stem(Some(String::new()), Some("01 song".into())), "01 song");
    assert_eq!(title_or_stem(None, Some("01 song".into())), "01 song");
    assert_eq!(title_or_stem(None, None), "");
}
