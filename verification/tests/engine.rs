use chromia::audio::engine::{Engine, EngineAction, PlayerCommand, PlayerEvent};
use chromia::audio::{PlaybackState, RepeatMode};
use chromia::library::{SourceKind, Track};

fn local(id: i64) -> Track {
    let mut t = Track::new_local(format!("/m/{id}.flac"), format!("T{id}"), "A".into(), "B".into(), 1_000);
    t.id = id;
    t
}

fn stopped() -> Vec<EngineAction> {
    vec![EngineAction::StopSink, EngineAction::Emit(PlayerEvent::PlaybackStateChanged(PlaybackState::Stopped))]
}

#[test]
fn playing_a_local_track_opens_it() {
    let mut e = Engine::new();
    e.handle_command(PlayerCommand::LoadQueue(vec![local(0), local(1)]));
    let acts = e.handle_command(PlayerCommand::PlayAt(1));
    assert_eq!(
        acts,
        vec![
            EngineAction::Emit(PlayerEvent::CurrentIndexChanged(Some(1))),
            EngineAction::OpenTrack { index: 1, track: local(1) },
        ]
    );
    let acts = e.track_opened(local(1), Ok(Some(1_000)));
    assert_eq!(
        acts,
        vec![
            EngineAction::Emit(PlayerEvent::TrackStarted(local(1))),
            EngineAction::Emit(PlayerEvent::DurationChanged(1_000)),
            EngineAction::Emit(PlayerEvent::PlaybackStateChanged(PlaybackState::Playing)),
        ]
    );
    assert_eq!(e.state(), PlaybackState::Playing);
    assert!(e.track_ran_out(true));
    assert!(!e.track_ran_out(false));
}

#[test]
fn remote_tracks_are_downloaded_first() {
    let mut e = Engine::new();
    let remote = Track::new_remote(SourceKind::Youtube, "https://y/x".into(), "R".into());
    e.handle_command(PlayerCommand::LoadQueue(vec![remote.clone()]));
    let acts = e.handle_command(PlayerCommand::PlayAt(0));
    assert_eq!(acts[1], EngineAction::ResolveStream { index: 0, track: remote.clone() });
    let acts = e.stream_resolved(0, remote.clone(), Ok("/cache/yt-1.webm".into()));
    let mut resolved = remote.clone();
    resolved.path = "/cache/yt-1.webm".into();
    assert_eq!(acts, vec![EngineAction::OpenTrack { index: 0, track: resolved }]);
}

#[test]
fn failures_move_on_and_stop_after_a_full_round() {
    let mut e = Engine::new();
    e.handle_command(PlayerCommand::LoadQueue(vec![local(0), local(1)]));
    e.handle_command(PlayerCommand::PlayAt(0));
    let acts = e.track_opened(local(0), Err("decode error: bad".into()));
    assert_eq!(acts[0], EngineAction::Emit(PlayerEvent::Error("decode error: bad".into())));
    assert_eq!(acts.last(), Some(&EngineAction::OpenTrack { index: 1, track: local(1) }));
    let acts = e.track_opened(local(1), Err("cannot open".into()));
    assert_eq!(acts[0], EngineAction::Emit(PlayerEvent::Error("cannot open".into())));
    assert_eq!(acts[1..].to_vec(), stopped());
    assert_eq!(e.state(), PlaybackState::Stopped);
}

#[test]
fn unplayable_tracks_are_skipped() {
    let mut e = Engine::new();
    let mut broken = local(0);
    broken.path = String::new();
    e.handle_command(PlayerCommand::LoadQueue(vec![broken, local(1)]));
    let acts = e.handle_command(PlayerCommand::PlayAt(0));
    assert_eq!(acts[1], EngineAction::Emit(PlayerEvent::Error("A - T0 has no source".into())));
    assert_eq!(acts.last(), Some(&EngineAction::OpenTrack { index: 1, track: local(1) }));
}

#[test]
fn pause_and_toggle() {
    let mut e = Engine::new();
    e.handle_command(PlayerCommand::LoadQueue(vec![local(0)]));
    e.handle_command(PlayerCommand::PlayAt(0));
    e.track_opened(local(0), Ok(None));
    assert_eq!(
        e.handle_command(PlayerCommand::Pause),
        vec![EngineAction::PauseSink, EngineAction::Emit(PlayerEvent::PlaybackStateChanged(PlaybackState::Paused))]
    );
    assert_eq!(
        e.handle_command(PlayerCommand::PlayPause),
        vec![EngineAction::PlaySink, EngineAction::Emit(PlayerEvent::PlaybackStateChanged(PlaybackState::Playing))]
    );
    assert_eq!(e.handle_command(PlayerCommand::Stop), stopped());
    assert!(!e.reports_position());
}

#[test]
fn repeat_one_restarts_the_track() {
    let mut e = Engine::new();
    e.handle_command(PlayerCommand::LoadQueue(vec![local(0)]));
    e.handle_command(PlayerCommand::SetRepeat(RepeatMode::One));
    e.handle_command(PlayerCommand::PlayAt(0));
    e.track_opened(local(0), Ok(None));
    assert_eq!(e.track_finished(), vec![EngineAction::RestartTrack { track: local(0) }]);
    assert!(e.track_restarted(Ok(())).is_empty());
    assert_eq!(e.state(), PlaybackState::Playing);
}

#[test]
fn the_end_of_the_queue_stops() {
    let mut e = Engine::new();
    e.handle_command(PlayerCommand::LoadQueue(vec![local(0)]));
    e.handle_command(PlayerCommand::PlayAt(0));
    e.track_opened(local(0), Ok(None));
    let acts = e.track_finished();
    assert_eq!(acts[0], EngineAction::Emit(PlayerEvent::TrackEnded));
    assert_eq!(acts[1..].to_vec(), stopped());
    assert_eq!(
        e.handle_command(PlayerCommand::Seek(1_500)),
        vec![EngineAction::SeekSink(1_500), EngineAction::Emit(PlayerEvent::PositionChanged(1_500))]
    );
}

#[test]
fn a_queue_of_unplayable_tracks_ends_stopped() {
    let mut e = Engine::new();
    let mut a = local(0);
    a.path = String::new();
    let mut b = local(1);
    b.path = String::new();
    e.handle_command(PlayerCommand::LoadQueue(vec![a, b]));
    let acts = e.handle_command(PlayerCommand::PlayAt(0));
    let mut expected = vec![
        EngineAction::Emit(PlayerEvent::CurrentIndexChanged(Some(0))),
        EngineAction::Emit(PlayerEvent::Error("A - T0 has no source".into())),
        EngineAction::Emit(PlayerEvent::CurrentIndexChanged(Some(1))),
        EngineAction::Emit(PlayerEvent::Error("A - T1 has no source".into())),
    ];
    expected.extend(stopped());
    assert_eq!(acts, expected);
    assert_eq!(e.state(), PlaybackState::Stopped);
}
