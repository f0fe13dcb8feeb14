//! Discord Rich Presence: what to publish for the audio engine's events.

use vstd::prelude::*;
use vstd::string::StringExecFns;

use crate::audio::engine::PlayerEvent;
use crate::audio::PlaybackState;
use crate::library::Track;

verus! {

/// The Discord application id the presence is published under.
pub const CLIENT_ID: u64 = 1_103_153_029_914_382_372;

/// Marker type for the Rich Presence integration; the worker that talks to
/// the Discord client runs next to the audio engine and follows
/// [`presence_step`].
pub struct Discord;

/// What the presence worker remembers: the track being shown and when its
/// elapsed timer started (Unix milliseconds).
pub struct PresenceState {
    pub track: Option<Track>,
    pub start_ms: u64,
}

/// What the presence worker does with the Discord client.
#[derive(Debug, Clone, PartialEq, Eq)]
pub enum PresenceAction {
    /// Show a track: its title, `artist - album`, and the elapsed timer.
    Publish { details: String, state: String, start_ms: u64, end_ms: Option<u64> },
    /// Remove the activity.
    Clear,
    /// Leave the presence as it is.
    Keep,
}

/// The `artist - album` line of a track's presence.
pub open spec fn presence_line(t: Track) -> Seq<char> {
    t.artist@ + " - "@ + t.album@
}

/// The activity shown for `t`.
pub open spec fn publishes(a: PresenceAction, t: Track, start_ms: u64, end_ms: Option<u64>) -> bool {
    match a {
        PresenceAction::Publish { details, state, start_ms: s, end_ms: e } => details@ == t.title@
            && state@ == presence_line(t) && s == start_ms && e == end_ms,
        _ => false,
    }
}

impl Discord {
    /// A fresh presence state: no track, the timer started at `now_ms`.
    pub fn initial_state(now_ms: u64) -> (s: PresenceState)
        ensures
            s.track is None,
            s.start_ms == now_ms,
    {
        PresenceState { track: None, start_ms: now_ms }
    }
}

fn publish(t: &Track, start_ms: u64, end_ms: Option<u64>) -> (a: PresenceAction)
    ensures
        publishes(a, *t, start_ms, end_ms),
{
    let mut state = t.artist.clone();
    state.append(" - ");
    state.append(t.album.as_str());
    PresenceAction::Publish { details: t.title.clone(), state, start_ms, end_ms }
}

/// Follows one engine event: a started track is shown with a fresh timer,
/// resuming restarts the timer, pausing ends it, stopping clears the
/// presence, and other events leave it alone.
pub fn presence_step(st: &mut PresenceState, event: &PlayerEvent, now_ms: u64) -> (a: PresenceAction)
    ensures
        match *event {
            PlayerEvent::TrackStarted(t) => final(st).track == Some(t) && final(st).start_ms
                == now_ms && publishes(a, t, now_ms, None),
            PlayerEvent::PlaybackStateChanged(PlaybackState::Playing) => final(st).track == old(
                st,
            ).track && final(st).start_ms == now_ms && match old(st).track {
                Some(t) => publishes(a, t, now_ms, None),
                None => a is Keep,
            },
            PlayerEvent::PlaybackStateChanged(PlaybackState::Paused) => final(st).track == old(
                st,
            ).track && final(st).start_ms == old(st).start_ms && match old(st).track {
                Some(t) => publishes(a, t, old(st).start_ms, Some(now_ms)),
                None => a is Keep,
            },
            PlayerEvent::PlaybackStateChanged(PlaybackState::Stopped) => final(st).track is None
                && final(st).start_ms == old(st).start_ms && a is Clear,
            _ => final(st).track == old(st).track && final(st).start_ms == old(st).start_ms
                && a is Keep,
        },
{
    match event {
        PlayerEvent::TrackStarted(t) => {
            st.track = Some(t.clone());
            st.start_ms = now_ms;
            publish(t, now_ms, None)
        },
        PlayerEvent::PlaybackStateChanged(PlaybackState::Playing) => {
            st.start_ms = now_ms;
            match &st.track {
                Some(t) => publish(t, now_ms, None),
                None => PresenceAction::Keep,
            }
        },
        PlayerEvent::PlaybackStateChanged(PlaybackState::Paused) => {
            match &st.track {
                Some(t) => publish(t, st.start_ms, Some(now_ms)),
                None => PresenceAction::Keep,
            }
        },
        PlayerEvent::PlaybackStateChanged(PlaybackState::Stopped) => {
            st.track = None;
            PresenceAction::Clear
        },
        _ => PresenceAction::Keep,
    }
}

} // verus!
