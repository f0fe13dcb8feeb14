use chromia::library::{SourceKind, Track};
use chromia::ui::widgets::album_grid::{album_count_label, group_by_album};
use chromia::ui::widgets::audio_info::{fmt_bitrate, fmt_channels};
use chromia::audio::RepeatMode;
use chromia::ui::widgets::player::{fmt_duration, next_repeat_mode};

fn track(album: &str, artist: &str, title: &str, track_no: u32) -> Track {
    Track {
        id: 0,
        source: SourceKind::Local,
        path: String::new(),
        url: None,
        thumbnail: None,
        title: title.into(),
        artist: artist.into(),
        album: album.into(),
        album_artist: artist.into(),
        duration_ns: 0,
        track_no: Some(track_no),
        disc_no: None,
        genre: None,
        year: None,
        bpm_bits: None,
        play_count: 0,
        last_played: None,
    }
}

#[test]
fn group_by_album_merges_same_album() {
    let tracks = vec![
        track("Album A", "Artist X", "Song 1", 1),
        track("Album A", "Artist X", "Song 2", 2),
        track("Album B", "Artist Y", "Song 3", 1),
    ];
    let albums = group_by_album(&tracks);
    assert_eq!(albums.len(), 2);
    let a = albums.iter().find(|a| a.key.album == "Album A").expect("album A present");
    assert_eq!(a.tracks.len(), 2);
    // Tracks are sorted by track_no within the album.
    assert_eq!(a.tracks[0].track_no, Some(1));
    assert_eq!(a.tracks[1].track_no, Some(2));
}

#[test]
fn group_by_album_handles_empty_album_name() {
    let tracks = vec![track("", "Artist X", "Song 1", 1), track("", "Artist X", "Song 2", 2)];
    let albums = group_by_album(&tracks);
    assert_eq!(albums.len(), 1);
    assert_eq!(albums[0].key.album, "Unknown album");
}

#[test]
fn group_by_album_separates_same_album_different_artist() {
    let tracks = vec![
        track("Greatest Hits", "Artist X", "Song 1", 1),
        track("Greatest Hits", "Artist Y", "Song 2", 1),
    ];
    let albums = group_by_album(&tracks);
    assert_eq!(albums.len(), 2);
}

#[test]
fn albums_come_in_key_order_and_tracks_in_disc_order() {
    let mut late = track("B", "Z", "b", 2);
    late.disc_no = Some(2);
    let tracks = vec![late, track("B", "Z", "a", 9), track("A", "Y", "x", 3), track("B", "A", "q", 1)];
    let albums = group_by_album(&tracks);
    let keys: Vec<(&str, &str)> = albums.iter().map(|a| (a.key.album.as_str(), a.key.artist.as_str())).collect();
    assert_eq!(keys, vec![("A", "Y"), ("B", "A"), ("B", "Z")]);
    let titles: Vec<&str> = albums[2].tracks.iter().map(|t| t.title.as_str()).collect();
    assert_eq!(titles, vec!["a", "b"]);
}

#[test]
fn cards_hold_every_track_once_including_duplicates() {
    let tracks = vec![
        track("B", "Z", "b", 2),
        track("A", "Y", "x", 3),
        track("B", "Z", "b", 2),
        track("", "", "loose", 1),
        track("B", "Z", "a", 1),
    ];
    let albums = group_by_album(&tracks);
    let total: usize = albums.iter().map(|a| a.tracks.len()).sum();
    assert_eq!(total, tracks.len());
    for t in &tracks {
        let on_cards = albums.iter().flat_map(|a| a.tracks.iter()).filter(|u| *u == t).count();
        let given = tracks.iter().filter(|u| *u == t).count();
        assert_eq!(on_cards, given);
    }
    let bz = albums.iter().find(|a| a.key.album == "B" && a.key.artist == "Z").expect("card B/Z");
    let titles: Vec<&str> = bz.tracks.iter().map(|t| t.title.as_str()).collect();
    assert_eq!(titles, vec!["a", "b", "b"]);
    assert!(albums.iter().any(|a| a.key.album == "Unknown album" && a.key.artist == "Unknown artist"));
}

#[test]
fn unknown_artist_when_no_artist_is_tagged() {
    let albums = group_by_album(&[track("Solo", "", "s", 1)]);
    assert_eq!(albums[0].key.artist, "Unknown artist");
}

#[test]
fn formats_mm_ss() {
    assert_eq!(fmt_duration(0), "0:00");
    assert_eq!(fmt_duration(59), "0:59");
    assert_eq!(fmt_duration(60), "1:00");
    assert_eq!(fmt_duration(65), "1:05");
    assert_eq!(fmt_duration(600), "10:00");
}

#[test]
fn formats_audio_readouts() {
    assert_eq!(fmt_bitrate(320), "320 kbps");
    assert_eq!(fmt_channels(1), "Mono");
    assert_eq!(fmt_channels(2), "Stereo");
    assert_eq!(fmt_channels(6), "6 ch");
}

#[test]
fn album_count_reads_in_singular_and_plural() {
    assert_eq!(album_count_label(0), "0 albums");
    assert_eq!(album_count_label(1), "1 album");
    assert_eq!(album_count_label(12), "12 albums");
}

#[test]
fn repeat_button_cycles_off_all_one() {
    assert_eq!(next_repeat_mode(RepeatMode::Off), RepeatMode::All);
    assert_eq!(next_repeat_mode(RepeatMode::All), RepeatMode::One);
    assert_eq!(next_repeat_mode(RepeatMode::One), RepeatMode::Off);
}
