use chromia::integrations::mpris::{metadata_entries, MetaValue, SUPPORTED_MIME_TYPES};
use chromia::audio::engine::PlayerEvent;
use chromia::audio::{PlaybackState, RepeatMode};
use chromia::integrations::discord::{presence_step, Discord, PresenceAction, CLIENT_ID};
use chromia::integrations::mpris::{
    apply_event, apply_volume, file_uri, seek_position_ns, Change, LoopStatus, MprisState, PlaybackStatus,
};
use chromia::library::Track;

fn track() -> Track {
    Track::new_local("/m/a b.flac".into(), "Song".into(), "Band".into(), "LP".into(), 3_000_000_000)
}

#[test]
fn mpris_state_follows_events() {
    let mut s = MprisState::new();
    assert_eq!(
        apply_event(&mut s, PlayerEvent::TrackStarted(track())),
        vec![Change::PlaybackStatus, Change::Metadata, Change::Position]
    );
    assert_eq!(s.status, PlaybackStatus::Playing);
    assert!(apply_event(&mut s, PlayerEvent::PlaybackStateChanged(PlaybackState::Playing)).is_empty());
    assert_eq!(apply_event(&mut s, PlayerEvent::PositionChanged(10)), vec![Change::Position]);
    assert!(apply_event(&mut s, PlayerEvent::PositionChanged(10)).is_empty());
    assert!(apply_event(&mut s, PlayerEvent::DurationChanged(3_000_000_000)).is_empty());
    assert_eq!(apply_event(&mut s, PlayerEvent::DurationChanged(4_000)), vec![Change::Metadata]);
    assert_eq!(s.track.as_ref().unwrap().duration_ns, 4_000);
    assert_eq!(apply_event(&mut s, PlayerEvent::RepeatChanged(RepeatMode::All)), vec![Change::LoopStatus]);
    assert_eq!(s.loop_status, LoopStatus::Playlist);
    assert_eq!(apply_event(&mut s, PlayerEvent::ShuffleChanged(true)), vec![Change::Shuffle]);
    assert!(apply_event(&mut s, PlayerEvent::TrackEnded).is_empty());
    assert_eq!(apply_volume(&mut s, 0.5f64.to_bits()), vec![Change::Volume]);
}

#[test]
fn loop_status_names() {
    assert_eq!(LoopStatus::from_str_mpris("PLAYLIST"), Some(LoopStatus::Playlist));
    assert_eq!(LoopStatus::from_str_mpris("none"), Some(LoopStatus::Off));
    assert_eq!(LoopStatus::from_str_mpris("forever"), None);
    assert_eq!(LoopStatus::Track.as_str(), "Track");
    assert_eq!(LoopStatus::from_repeat(RepeatMode::One).to_repeat(), RepeatMode::One);
    assert_eq!(PlaybackStatus::from_state(PlaybackState::Paused).as_str(), "Paused");
}

#[test]
fn file_uris_encode_each_name() {
    assert_eq!(file_uri("/m/a b.flac").as_deref(), Some("file:///m/a%20b.flac"));
    assert_eq!(file_uri("rel/./x/../y").as_deref(), Some("file://rel/x/y"));
    assert_eq!(file_uri("//m//n/"), Some("file:///m/n".to_string()));
    assert_eq!(file_uri(""), None);
    assert_eq!(file_uri("/m/Caf\u{e9} ~-_.(1)+x.flac").as_deref(), Some("file:///m/Caf%C3%A9%20~-_.%281%29%2Bx.flac"));
}

#[test]
fn seek_offsets_clamp_at_zero() {
    assert_eq!(seek_position_ns(-5), 0);
    assert_eq!(seek_position_ns(2_500_001), 2_500_001_000);
}

#[test]
fn presence_follows_playback() {
    let mut st = Discord::initial_state(0);
    let a = presence_step(&mut st, &PlayerEvent::TrackStarted(track()), 100);
    assert_eq!(
        a,
        PresenceAction::Publish { details: "Song".into(), state: "Band - LP".into(), start_ms: 100, end_ms: None }
    );
    let a = presence_step(&mut st, &PlayerEvent::PlaybackStateChanged(PlaybackState::Paused), 500);
    assert_eq!(
        a,
        PresenceAction::Publish { details: "Song".into(), state: "Band - LP".into(), start_ms: 100, end_ms: Some(500) }
    );
    let a = presence_step(&mut st, &PlayerEvent::PlaybackStateChanged(PlaybackState::Stopped), 600);
    assert_eq!(a, PresenceAction::Clear);
    let a = presence_step(&mut st, &PlayerEvent::PlaybackStateChanged(PlaybackState::Playing), 700);
    assert_eq!(a, PresenceAction::Keep);
    assert_eq!(CLIENT_ID, 1_103_153_029_914_382_372);
}

#[test]
fn metadata_lists_what_the_track_has() {
    let mut t = track();
    t.id = 12;
    let entries = metadata_entries(&Some(t.clone()));
    let keys: Vec<&str> = entries.iter().map(|(k, _)| k.as_str()).collect();
    assert_eq!(
        keys,
        vec!["mpris:trackid", "mpris:length", "mpris:artUrl", "xesam:url", "xesam:title", "xesam:album", "xesam:artist"]
    );
    assert_eq!(entries[0].1, MetaValue::ObjectPath("/org/chromia/Track/12".into()));
    assert_eq!(entries[1].1, MetaValue::Micros(3_000_000));
    let mut short = track();
    short.duration_ns = 1_999;
    assert_eq!(metadata_entries(&Some(short)).iter().find(|(k, _)| k == "mpris:length").unwrap().1, MetaValue::Micros(1));
    let mut huge = track();
    huge.duration_ns = (u64::MAX as u128 + 3) * 1_000;
    assert_eq!(metadata_entries(&Some(huge)).iter().find(|(k, _)| k == "mpris:length").unwrap().1, MetaValue::Micros(2));
    assert_eq!(entries[2].1, MetaValue::Text("file:///m/a%20b.flac".into()));
    assert_eq!(entries[6].1, MetaValue::TextList(vec!["Band".into()]));
    t.id = -1;
    t.path = String::new();
    t.album = String::new();
    let keys: Vec<String> = metadata_entries(&Some(t)).into_iter().map(|(k, _)| k).collect();
    assert_eq!(keys, vec!["mpris:length", "xesam:title", "xesam:artist"]);
    assert!(metadata_entries(&None).is_empty());
    assert!(SUPPORTED_MIME_TYPES.contains(&"audio/flac"));
}

#[test]
fn repeated_events_are_reported_once() {
    let mut s = MprisState::new();
    for event in [
        PlayerEvent::PlaybackStateChanged(PlaybackState::Paused),
        PlayerEvent::ShuffleChanged(true),
        PlayerEvent::RepeatChanged(RepeatMode::One),
        PlayerEvent::PositionChanged(7),
    ] {
        assert_eq!(apply_event(&mut s, event.clone()).len(), 1);
        assert!(apply_event(&mut s, event).is_empty());
    }
    assert_eq!(apply_event(&mut s, PlayerEvent::TrackStarted(track())).len(), 3);
    assert_eq!(apply_event(&mut s, PlayerEvent::TrackStarted(track())).len(), 3);
}
