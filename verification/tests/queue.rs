use std::collections::HashSet;

use chromia::audio::queue::Queue;
use chromia::audio::RepeatMode;
use chromia::library::Track;

fn track(id: i64) -> Track {
    let mut track = Track::new_local(
        format!("/tmp/track-{id}.mp3"),
        format!("Title {id}"),
        "Artist".into(),
        "Album".into(),
        180_000,
    );
    track.id = id;
    track
}

#[test]
fn shuffle_never_repeats_within_a_pass() {
    let mut queue = Queue::new();
    queue.load((0..10).map(track).collect());
    queue.set_shuffle(true);
    let mut seen = HashSet::new();
    let mut count = 0;
    while let Some(index) = queue.next() {
        assert!(index < 10, "shuffle index out of range: {index}");
        assert!(seen.insert(index), "shuffle repeated index {index}");
        count += 1;
    }
    assert_eq!(count, 10);
}

#[test]
fn next_repeat_off_stops_at_end() {
    let mut queue = Queue::new();
    queue.load(vec![track(0), track(1), track(2)]);
    assert_eq!(queue.play_at(0).map(|t| t.id), Some(0));
    assert_eq!(queue.next(), Some(1));
    queue.play_at(1);
    assert_eq!(queue.next(), Some(2));
    queue.play_at(2);
    assert_eq!(queue.next(), None);
}

#[test]
fn next_repeat_all_wraps_to_start() {
    let mut queue = Queue::new();
    queue.load(vec![track(0), track(1), track(2)]);
    queue.set_repeat(RepeatMode::All);
    assert_eq!(queue.play_at(2).map(|t| t.id), Some(2));
    assert_eq!(queue.next(), Some(0));
    queue.play_at(0);
    assert_eq!(queue.next(), Some(1));
}

#[test]
fn next_repeat_one_stays_on_current() {
    let mut queue = Queue::new();
    queue.load(vec![track(0), track(1), track(2)]);
    queue.set_repeat(RepeatMode::One);
    assert_eq!(queue.play_at(1).map(|t| t.id), Some(1));
    assert_eq!(queue.next(), Some(1));
}

#[test]
fn previous_walks_back_and_clamps() {
    let mut queue = Queue::new();
    queue.load(vec![track(0), track(1), track(2)]);
    assert_eq!(queue.play_at(2).map(|t| t.id), Some(2));
    assert_eq!(queue.previous(), Some(1));
    queue.play_at(1);
    assert_eq!(queue.previous(), Some(0));
    queue.play_at(0);
    assert_eq!(queue.previous(), Some(0));

    queue.set_repeat(RepeatMode::All);
    assert_eq!(queue.previous(), Some(2));
}

#[test]
fn remove_at_adjusts_current_index() {
    let mut queue = Queue::new();
    queue.load(vec![track(0), track(1), track(2), track(3)]);
    assert_eq!(queue.play_at(2).map(|t| t.id), Some(2));
    assert_eq!(queue.remove_at(0).map(|t| t.id), Some(0));
    assert_eq!(queue.current_index(), Some(1));
    assert_eq!(queue.remove_at(1).map(|t| t.id), Some(2));
    assert_eq!(queue.current_index(), None);
}

#[test]
fn play_at_returns_correct_track() {
    let mut queue = Queue::new();
    queue.load(vec![track(0), track(1), track(2)]);
    assert_eq!(queue.play_at(1).map(|t| t.id), Some(1));
    assert_eq!(queue.current().map(|t| t.id), Some(1));
    assert_eq!(queue.play_at(99), None);
    assert_eq!(queue.current_index(), Some(1));
}

#[test]
fn load_keeps_current_track_when_present() {
    let mut queue = Queue::new();
    queue.load(vec![track(0), track(1)]);
    assert_eq!(queue.play_at(0).map(|t| t.id), Some(0));
    queue.load(vec![track(9), track(0), track(1)]);
    assert_eq!(queue.current_index(), Some(1));
    assert_eq!(queue.current().map(|t| t.id), Some(0));
}

#[test]
fn previous_undoes_next_without_shuffle() {
    let mut queue = Queue::new();
    queue.load(vec![track(0), track(1), track(2)]);
    queue.play_at(1);
    let next = queue.next().unwrap();
    queue.play_at(next);
    assert_eq!(queue.previous(), Some(1));
}

#[test]
fn shuffled_pass_ends_then_repeat_all_starts_a_new_one() {
    let mut queue = Queue::new();
    queue.load((0..5).map(track).collect());
    queue.set_shuffle(true);
    queue.set_repeat(RepeatMode::All);
    let mut seen = HashSet::new();
    for _ in 0..5 {
        seen.insert(queue.next().unwrap());
    }
    assert_eq!(seen.len(), 5);
    assert!(queue.next().is_some());
}

#[test]
fn playing_an_index_under_shuffle_starts_the_pass_there() {
    let mut queue = Queue::new();
    queue.load((0..6).map(track).collect());
    queue.set_shuffle(true);
    queue.play_at(4);
    let mut seen = HashSet::new();
    seen.insert(4);
    while let Some(index) = queue.next() {
        assert!(seen.insert(index), "index {index} handed out twice");
    }
    assert_eq!(seen.len(), 6);
}

#[test]
fn add_and_clear() {
    let mut queue = Queue::new();
    assert!(queue.is_empty());
    queue.add(track(4));
    queue.add(track(5));
    assert_eq!(queue.len(), 2);
    assert_eq!(queue.tracks().iter().map(|t| t.id).collect::<Vec<_>>(), vec![4, 5]);
    queue.clear();
    assert!(queue.is_empty());
    assert_eq!(queue.current_index(), None);
}

#[test]
fn set_track_path_updates_one_track() {
    let mut queue = Queue::new();
    queue.load(vec![track(0), track(1)]);
    queue.set_track_path(1, "/cache/yt-abc.webm".to_string());
    assert_eq!(queue.tracks()[1].path, "/cache/yt-abc.webm");
    assert_eq!(queue.tracks()[0].path, "/tmp/track-0.mp3");
}

#[test]
fn reloading_matches_bpm_as_a_float() {
    let with_bpm = |id: i64, bpm: f32| {
        let mut t = track(id);
        t.bpm_bits = Some(bpm.to_bits());
        t
    };
    let mut queue = Queue::new();
    queue.load(vec![track(0), with_bpm(1, 0.0)]);
    queue.play_at(1);
    queue.load(vec![with_bpm(1, -0.0), track(0)]);
    assert_eq!(queue.current_index(), Some(0));
    let t = with_bpm(1, 120.0);
    assert!(t.same_as(&with_bpm(1, 120.0)));
    assert!(!t.same_as(&with_bpm(1, 121.0)));

    let mut queue = Queue::new();
    queue.load(vec![with_bpm(1, f32::NAN)]);
    queue.play_at(0);
    queue.load(vec![with_bpm(1, f32::NAN)]);
    assert_eq!(queue.current_index(), None);
    assert!(!with_bpm(1, f32::NAN).same_as(&with_bpm(1, f32::NAN)));
}
