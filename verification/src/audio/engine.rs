//! The decisions of the audio engine.
//!
//! The engine runs on its own thread next to the audio output. Every command
//! from the UI, and every outcome of work on files and streams, goes through
//! an [`Engine`] step, which updates the playback state and answers with the
//! [`EngineAction`]s to carry out in order: events to broadcast, calls on the
//! output sink, and at most one request whose outcome is handed back through
//! [`Engine::stream_resolved`], [`Engine::track_opened`] or
//! [`Engine::track_restarted`].

use vstd::prelude::*;
use vstd::string::StringExecFns;

use crate::audio::queue::{is_permutation, next_spec, previous_spec, Queue, QueueState};
use crate::audio::{PlaybackState, RepeatMode};
use crate::library::{track_label, SourceKind, Track};

verus! {

/// Events the engine broadcasts to the UI and the integrations.
#[derive(Debug, Clone, PartialEq, Eq)]
pub enum PlayerEvent {
    /// A track started playing.
    TrackStarted(Track),
    /// Playback state changed.
    PlaybackStateChanged(PlaybackState),
    /// Playback position advanced, in nanoseconds.
    PositionChanged(u128),
    /// The current track's duration became known, in nanoseconds.
    DurationChanged(u128),
    /// Shuffle mode changed.
    ShuffleChanged(bool),
    /// Repeat mode changed.
    RepeatChanged(RepeatMode),
    /// The queue changed.
    QueueChanged(Vec<Track>),
    /// The current track index changed.
    CurrentIndexChanged(Option<usize>),
    /// The current track finished and the queue ran out.
    TrackEnded,
    /// A non-fatal error occurred (e.g. a decode failure).
    Error(String),
}

/// Commands that steer playback. Volume and equalizer settings act on the
/// output stage alone and do not pass through the engine.
#[derive(Debug, Clone, PartialEq, Eq)]
pub enum PlayerCommand {
    /// Toggle play / pause.
    PlayPause,
    /// Pause playback.
    Pause,
    /// Resume playback.
    Resume,
    /// Stop playback and unload the track.
    Stop,
    /// Advance to the next track in the queue.
    Next,
    /// Go back to the previous track.
    Previous,
    /// Seek to a position in the current track, in nanoseconds.
    Seek(u128),
    /// Toggle shuffle.
    SetShuffle(bool),
    /// Change the repeat mode.
    SetRepeat(RepeatMode),
    /// Replace the queue contents.
    LoadQueue(Vec<Track>),
    /// Play the track at `index` in the current queue.
    PlayAt(usize),
}

/// One thing for the engine's host to carry out.
#[derive(Debug, Clone, PartialEq, Eq)]
pub enum EngineAction {
    /// Broadcast an event.
    Emit(PlayerEvent),
    /// Pause the output sink.
    PauseSink,
    /// Resume the output sink.
    PlaySink,
    /// Clear and stop the output sink.
    StopSink,
    /// Seek the output sink, to a position in nanoseconds.
    SeekSink(u128),
    /// Download the stream of the track at `index`; the outcome goes to
    /// [`Engine::stream_resolved`].
    ResolveStream { index: usize, track: Track },
    /// Open and decode the file of the track at `index` and, when that works,
    /// start it on the sink; the outcome goes to [`Engine::track_opened`].
    OpenTrack { index: usize, track: Track },
    /// Start `track` again from its beginning; the outcome goes to
    /// [`Engine::track_restarted`].
    RestartTrack { track: Track },
}

/// The engine's state: the queue, the playback state, the track that is
/// playing, whether the sink holds sound, and the run of failed tracks.
pub ghost struct EngineState {
    pub queue: QueueState,
    pub state: PlaybackState,
    pub current: Option<Track>,
    pub duration_ns: u128,
    pub has_sound: bool,
    pub failed: nat,
}

/// The decisions of the audio engine over its queue and playback state.
pub struct Engine {
    queue: Queue,
    state: PlaybackState,
    current_track: Option<Track>,
    duration_ns: u128,
    has_sound: bool,
    failed_tracks: usize,
}

impl View for Engine {
    type V = EngineState;

    closed spec fn view(&self) -> EngineState {
        EngineState {
            queue: self.queue@,
            state: self.state,
            current: self.current_track,
            duration_ns: self.duration_ns,
            has_sound: self.has_sound,
            failed: self.failed_tracks as nat,
        }
    }
}

/// `n`, or 1 for an empty queue: how many failures in a row stop playback.
pub open spec fn failure_limit(n: nat) -> nat {
    if n == 0 {
        1
    } else {
        n
    }
}

/// The engine's invariant: a well-formed queue and a failure count that can
/// still grow.
pub open spec fn engine_wf(e: EngineState) -> bool {
    &&& e.queue.wf()
    &&& e.failed < usize::MAX
}

/// The state after a stop: nothing plays, no sound, the failure run reset.
pub open spec fn stopped(e: EngineState) -> EngineState {
    EngineState { state: PlaybackState::Stopped, has_sound: false, failed: 0, ..e }
}

/// The actions a stop performs.
pub open spec fn stop_actions() -> Seq<EngineAction> {
    seq![
        EngineAction::StopSink,
        EngineAction::Emit(PlayerEvent::PlaybackStateChanged(PlaybackState::Stopped)),
    ]
}

/// The message of a track that cannot be played at all.
pub open spec fn no_source_message(t: Track) -> Seq<char> {
    track_label(t.artist@, t.title@) + " has no source"@
}

/// The message of a local track without a file.
pub open spec fn no_file_message(t: Track) -> Seq<char> {
    track_label(t.artist@, t.title@) + " has no local file"@
}

/// The first step of playing `t` at `index`: the request it makes, or the
/// message of why it cannot be played.
pub open spec fn attempt(index: usize, t: Track) -> Result<EngineAction, Seq<char>> {
    if !(t.path@.len() > 0 || t.url is Some) {
        Err(no_source_message(t))
    } else if t.path@.len() == 0 {
        if t.source == SourceKind::Local {
            Err(no_file_message(t))
        } else {
            Ok(EngineAction::ResolveStream { index, track: t })
        }
    } else {
        Ok(EngineAction::OpenTrack { index, track: t })
    }
}

/// The queue after the track at `index` is selected: `index` is current,
/// and a shuffled order is drawn anew starting from it.
pub open spec fn selected(old: QueueState, index: usize, new: QueueState) -> bool {
    &&& new.current == Some(index)
    &&& if old.shuffle {
        (QueueState { current: Some(index), ..old }).reshuffled_from(new, index)
    } else {
        new == (QueueState { current: Some(index), ..old })
    }
}

/// The engine after a track failed: no sound, one more failure in the run.
pub open spec fn failed_once(e: EngineState) -> EngineState {
    EngineState { has_sound: false, failed: e.failed + 1, ..e }
}

/// What follows a failure with `message` in state `e`: the error is
/// reported; once as many tracks failed in a row as the queue holds,
/// playback stops; otherwise the queue is asked for its next track, and
/// playback stops when there is none, or that track is selected and tried,
/// which either sends its request or fails in turn. `steps` records each
/// answer of the queue: the queue after `next`, the index it gave, and the
/// queue after that index was selected.
pub open spec fn recovers(
    e: EngineState,
    message: Seq<char>,
    new: EngineState,
    acts: Seq<EngineAction>,
    steps: Seq<(QueueState, Option<usize>, QueueState)>,
) -> bool
    decreases steps.len(),
{
    let e1 = failed_once(e);
    let rest = acts.drop_first();
    &&& acts.len() > 0
    &&& (match acts[0] {
        EngineAction::Emit(PlayerEvent::Error(m)) => m@ == message,
        _ => false,
    })
    &&& if e1.failed >= failure_limit(e.queue.tracks.len()) {
        new == stopped(e1) && rest == stop_actions() && steps.len() == 0
    } else {
        &&& steps.len() > 0
        &&& next_spec(e1.queue, steps[0].0, steps[0].1)
        &&& match steps[0].1 {
            None => new == stopped(EngineState { queue: steps[0].0, ..e1 }) && rest
                == stop_actions() && steps.len() == 1,
            Some(i) => {
                let q = steps[0].0;
                let mid = EngineState { queue: steps[0].2, ..e1 };
                &&& i < q.tracks.len()
                &&& selected(q, i, steps[0].2)
                &&& rest.len() > 0
                &&& rest[0] == EngineAction::Emit(PlayerEvent::CurrentIndexChanged(Some(i)))
                &&& match attempt(i, q.tracks[i as int]) {
                    Ok(request) => new == mid && rest == seq![
                        EngineAction::Emit(PlayerEvent::CurrentIndexChanged(Some(i))),
                        request,
                    ] && steps.len() == 1,
                    Err(m) => recovers(mid, m, new, rest.drop_first(), steps.drop_first()),
                }
            },
        }
    }
}

/// The run of actions ends waiting on a request about the queue's current
/// track, or with a stop.
pub open spec fn settled(e: EngineState, acts: Seq<EngineAction>) -> bool {
    ||| (acts.len() > 0 && match acts.last() {
        EngineAction::ResolveStream { index, track } => e.queue.current == Some(index)
            && index < e.queue.tracks.len() && track == e.queue.tracks[index as int],
        EngineAction::OpenTrack { index, track } => e.queue.current == Some(index) && index
            < e.queue.tracks.len() && track == e.queue.tracks[index as int],
        _ => false,
    })
    ||| (acts.len() >= 2 && acts.subrange(acts.len() - 2, acts.len() as int) == stop_actions()
        && e.state == PlaybackState::Stopped && !e.has_sound && e.failed == 0)
}

/// `acts` begins with `prefix`.
pub open spec fn extends(prefix: Seq<EngineAction>, acts: Seq<EngineAction>) -> bool {
    prefix.len() <= acts.len() && forall|k: int| 0 <= k < prefix.len() ==> #[trigger] acts[k]
        == prefix[k]
}

/// The index `next` picks is a position of the queue.
pub proof fn lemma_next_in_range(old: QueueState, new: QueueState, r: Option<usize>)
    requires
        old.wf(),
        next_spec(old, new, r),
    ensures
        r matches Some(i) ==> i < old.tracks.len(),
        new.tracks == old.tracks,
{
    let n = old.tracks.len();
    if n > 0 && old.shuffle && old.repeat != RepeatMode::One {
        if old.at_start {
            assert(old.order[0] < n);
        } else if old.order_pos + 1 < n {
            assert(old.order[old.order_pos + 1] < n);
        } else if old.repeat == RepeatMode::All {
            assert(is_permutation(new.order, n));
            assert(new.order[0] < n);
            let p = match old.current {
                Some(c) => crate::audio::queue::position_in(new.order, c),
                None => 0,
            };
            if p + 1 < n {
                assert(new.order[p + 1] < n);
            }
        }
    }
}

impl Engine {
    /// The engine's invariant.
    pub closed spec fn wf(&self) -> bool {
        engine_wf(self@)
    }

    /// An idle engine with an empty queue.
    pub fn new() -> (e: Self)
        ensures
            e.wf(),
            e@.queue.tracks.len() == 0,
            e@.state == PlaybackState::Stopped,
            e@.current is None,
            !e@.has_sound,
            e@.failed == 0,
    {
        Engine {
            queue: Queue::new(),
            state: PlaybackState::Stopped,
            current_track: None,
            duration_ns: 0,
            has_sound: false,
            failed_tracks: 0,
        }
    }

    /// The playback state.
    pub fn state(&self) -> (s: PlaybackState)
        ensures
            s == self@.state,
    {
        self.state
    }

    /// The duration of the track that was last started, in nanoseconds.
    pub fn duration_ns(&self) -> (d: u128)
        ensures
            d == self@.duration_ns,
    {
        self.duration_ns
    }

    /// Whether the current track has run out: the engine is playing, the
    /// sink held sound and is now empty.
    pub fn track_ran_out(&self, sink_empty: bool) -> (b: bool)
        ensures
            b == (self@.state == PlaybackState::Playing && self@.has_sound && sink_empty),
    {
        self.state == PlaybackState::Playing && self.has_sound && sink_empty
    }

    /// Whether position reports are due: they are while playing.
    pub fn reports_position(&self) -> (b: bool)
        ensures
            b == (self@.state == PlaybackState::Playing),
    {
        self.state == PlaybackState::Playing
    }

    /// Clears the sink and returns to the stopped state.
    fn stop(&mut self, acts: &mut Vec<EngineAction>)
        requires
            old(self).queue@.wf(),
        ensures
            final(self)@ == stopped(old(self)@),
            final(acts)@ == old(acts)@ + stop_actions(),
            final(acts)@.len() >= 2,
            final(acts)@.subrange(final(acts)@.len() - 2, final(acts)@.len() as int)
                == stop_actions(),
            extends(old(acts)@, final(acts)@),
            engine_wf(final(self)@),
    {
        acts.push(EngineAction::StopSink);
        self.has_sound = false;
        self.failed_tracks = 0;
        self.state = PlaybackState::Stopped;
        acts.push(EngineAction::Emit(PlayerEvent::PlaybackStateChanged(PlaybackState::Stopped)));
        assert(acts@ =~= old(acts)@ + stop_actions());
        assert(acts@.subrange(acts@.len() - 2, acts@.len() as int) =~= stop_actions());
    }

    /// Makes `index` current and takes the first step of playing it: the
    /// request it needs, or the message of why it cannot be played.
    fn try_start(&mut self, index: usize, acts: &mut Vec<EngineAction>) -> (r: Option<String>)
        requires
            engine_wf(old(self)@),
        ensures
            engine_wf(final(self)@),
            final(self)@.queue.tracks == old(self)@.queue.tracks,
            final(self)@ == (EngineState { queue: final(self)@.queue, ..old(self)@ }),
            extends(old(acts)@, final(acts)@),
            index >= old(self)@.queue.tracks.len() ==> final(self)@ == old(self)@ && final(acts)@ == old(acts)@ && r is None,
            index < old(self)@.queue.tracks.len() ==> {
                let t = old(self)@.queue.tracks[index as int];
                &&& selected(old(self)@.queue, index, final(self)@.queue)
                &&& match attempt(index, t) {
                    Ok(request) => r is None && final(acts)@ == old(acts)@ + seq![
                        EngineAction::Emit(PlayerEvent::CurrentIndexChanged(Some(index))),
                        request,
                    ],
                    Err(message) => r matches Some(m) && m@ == message && final(acts)@ == old(acts)@.push(EngineAction::Emit(PlayerEvent::CurrentIndexChanged(Some(index)))),
                }
            },
    {
        let track = match self.queue.play_at(index) {
            None => return None,
            Some(t) => t,
        };
        acts.push(EngineAction::Emit(PlayerEvent::CurrentIndexChanged(Some(index))));
        if !track.is_playable() {
            let mut m = track.label();
            m.append(" has no source");
            return Some(m);
        }
        if track.path.as_str().is_empty() {
            match track.source {
                SourceKind::Local => {
                    let mut m = track.label();
                    m.append(" has no local file");
                    Some(m)
                },
                _ => {
                    acts.push(EngineAction::ResolveStream { index, track });
                    None
                },
            }
        } else {
            acts.push(EngineAction::OpenTrack { index, track });
            None
        }
    }

    /// Records a failed track and decides what follows: stop once as many
    /// tracks failed in a row as the queue holds, otherwise the next track.
    fn fail(&mut self, message: String, acts: &mut Vec<EngineAction>) -> (r: Option<usize>)
        requires
            engine_wf(old(self)@),
        ensures
            engine_wf(final(self)@),
            final(self)@.queue.tracks == old(self)@.queue.tracks,
            r is Some ==> final(self)@.failed == old(self)@.failed + 1 && final(self)@.failed
                < failure_limit(final(self)@.queue.tracks.len()),
            r is None ==> settled(final(self)@, final(acts)@),
            r matches Some(i) ==> i < final(self)@.queue.tracks.len(),
            extends(old(acts)@, final(acts)@),
            final(acts)@.len() > old(acts)@.len(),
            final(acts)@[old(acts)@.len() as int] == EngineAction::Emit(PlayerEvent::Error(message)),
            final(acts)@ == old(acts)@ + seq![EngineAction::Emit(PlayerEvent::Error(message))] + (
            if r is None {
                stop_actions()
            } else {
                Seq::empty()
            }),
            failed_once(old(self)@).failed >= failure_limit(old(self)@.queue.tracks.len()) ==> r is None
                && final(self)@ == stopped(failed_once(old(self)@)),
            failed_once(old(self)@).failed < failure_limit(old(self)@.queue.tracks.len()) ==> {
                let q = final(self)@.queue;
                let e1 = EngineState { queue: q, ..failed_once(old(self)@) };
                &&& next_spec(failed_once(old(self)@).queue, q, r)
                &&& final(self)@ == (if r is None {
                    stopped(e1)
                } else {
                    e1
                })
            },
    {
        let ghost a0 = acts@;
        self.has_sound = false;
        acts.push(EngineAction::Emit(PlayerEvent::Error(message)));
        self.failed_tracks = self.failed_tracks + 1;
        let limit: usize = if self.queue.len() == 0 {
            1
        } else {
            self.queue.len()
        };
        if self.failed_tracks >= limit {
            self.stop(acts);
            assert(final(acts)@.subrange(final(acts)@.len() - 2, final(acts)@.len() as int)
                =~= stop_actions());
            assert(acts@ =~= a0 + seq![EngineAction::Emit(PlayerEvent::Error(message))] + stop_actions());
            None
        } else {
            let ghost q0 = self.queue@;
            let next = self.queue.next();
            proof {
                lemma_next_in_range(q0, self.queue@, next);
            }
            match next {
                Some(i) => {
                    assert(acts@ =~= a0 + seq![EngineAction::Emit(PlayerEvent::Error(message))] + Seq::empty());
                    Some(i)
                },
                None => {
                    self.stop(acts);
                    assert(final(acts)@.subrange(final(acts)@.len() - 2, final(acts)@.len() as int)
                        =~= stop_actions());
                    assert(acts@ =~= a0 + seq![EngineAction::Emit(PlayerEvent::Error(message))] + stop_actions());
                    None
                },
            }
        }
    }

    /// After a failure, moves on through the queue until a track is waiting
    /// on a request or playback stops.
    fn recover(&mut self, first: String, acts: &mut Vec<EngineAction>)
        requires
            engine_wf(old(self)@),
        ensures
            engine_wf(final(self)@),
            final(self)@.queue.tracks == old(self)@.queue.tracks,
            settled(final(self)@, final(acts)@),
            extends(old(acts)@, final(acts)@),
            final(acts)@.len() > old(acts)@.len(),
            final(acts)@[old(acts)@.len() as int] == EngineAction::Emit(PlayerEvent::Error(first)),
            exists|steps: Seq<(QueueState, Option<usize>, QueueState)>| #[trigger]
                recovers(
                    old(self)@,
                    first@,
                    final(self)@,
                    final(acts)@.skip(old(acts)@.len() as int),
                    steps,
                ),
        decreases failure_limit(old(self)@.queue.tracks.len()) - old(self)@.failed,
    {
        let ghost e0 = self@;
        let ghost a0 = acts@;
        let ghost g = first;
        match self.fail(first, acts) {
            None => {
                proof {
                    let done = acts@.skip(a0.len() as int);
                    assert(done.drop_first() =~= stop_actions());
                    if failed_once(e0).failed >= failure_limit(e0.queue.tracks.len()) {
                        assert(recovers(e0, g@, self@, done, Seq::empty()));
                    } else {
                        let q = self@.queue;
                        let steps = seq![(q, None::<usize>, q)];
                        assert(recovers(e0, g@, self@, done, steps));
                    }
                }
            },
            Some(i) => {
                let ghost q = self@.queue;
                let ghost a1 = acts@;
                match self.try_start(i, acts) {
                    None => {
                        proof {
                            let done = acts@.skip(a0.len() as int);
                            let steps = seq![(q, Some(i), self@.queue)];
                            assert(done.drop_first() =~= acts@.skip(a1.len() as int));
                            if let Ok(request) = attempt(i, q.tracks[i as int]) {
                                assert(acts@.skip(a1.len() as int) =~= seq![
                                    EngineAction::Emit(PlayerEvent::CurrentIndexChanged(Some(i))),
                                    request,
                                ]);
                            }
                            assert(recovers(e0, g@, self@, done, steps));
                        }
                    },
                    Some(m) => {
                        let ghost e2 = self@;
                        let ghost a2 = acts@;
                        let ghost gm = m;
                        self.recover(m, acts);
                        let ghost done = acts@.skip(a0.len() as int);
                        let ghost rest_steps = choose|s: Seq<(QueueState, Option<usize>, QueueState)>|
                            #[trigger] recovers(e2, gm@, self@, acts@.skip(a2.len() as int), s);
                        let ghost steps = seq![(q, Some(i), e2.queue)] + rest_steps;
                        assert(steps.drop_first() =~= rest_steps);
                        assert(done.drop_first().drop_first() =~= acts@.skip(a2.len() as int));
                        assert(recovers(e0, g@, self@, done, steps));
                    },
                }
            },
        }
    }

    /// Plays the track at `index`, moving on through the queue past tracks
    /// that fail.
    fn play_index(&mut self, index: usize, acts: &mut Vec<EngineAction>)
        requires
            engine_wf(old(self)@),
        ensures
            engine_wf(final(self)@),
            final(self)@.queue.tracks == old(self)@.queue.tracks,
            index >= old(self)@.queue.tracks.len() ==> final(self)@ == old(self)@ && final(acts)@ == old(acts)@,
            extends(old(acts)@, final(acts)@),
            index < old(self)@.queue.tracks.len() ==> {
                &&& settled(final(self)@, final(acts)@)
                &&& final(acts)@.len() > old(acts)@.len()
                &&& final(acts)@[old(acts)@.len() as int] == EngineAction::Emit(
                    PlayerEvent::CurrentIndexChanged(Some(index)),
                )
                &&& tries(
                    old(self)@,
                    index,
                    final(self)@,
                    final(acts)@.skip(old(acts)@.len() as int),
                )
            },
    {
        let ghost e0 = self@;
        let ghost a0 = acts@;
        match self.try_start(index, acts) {
            None => {
                proof {
                    if index < e0.queue.tracks.len() {
                        let sel = self@.queue;
                        assert(selected(e0.queue, index, sel));
                        if let Ok(request) = attempt(index, e0.queue.tracks[index as int]) {
                            assert(acts@.skip(a0.len() as int) =~= seq![
                                EngineAction::Emit(PlayerEvent::CurrentIndexChanged(Some(index))),
                                request,
                            ]);
                        }
                    }
                }
            },
            Some(m) => {
                let ghost e1 = self@;
                let ghost a1 = acts@;
                let ghost gm = m;
                self.recover(m, acts);
                proof {
                    let done = acts@.skip(a0.len() as int);
                    assert(done.drop_first() =~= acts@.skip(a1.len() as int));
                    assert(selected(e0.queue, index, e1.queue));
                    let steps = choose|s: Seq<(QueueState, Option<usize>, QueueState)>|
                        #[trigger] recovers(e1, gm@, self@, acts@.skip(a1.len() as int), s);
                    assert(recovers(e1, gm@, self@, done.drop_first(), steps));
                }
            },
        }
    }

    /// Broadcasts the queue and its current index.
    fn notify_queue(&self, acts: &mut Vec<EngineAction>)
        ensures
            final(acts)@.len() == old(acts)@.len() + 2,
            extends(old(acts)@, final(acts)@),
            final(acts)@[(old(acts)@.len() + 1) as int] == EngineAction::Emit(
                PlayerEvent::CurrentIndexChanged(self@.queue.current),
            ),
            match final(acts)@[old(acts)@.len() as int] {
                EngineAction::Emit(PlayerEvent::QueueChanged(v)) => v@ == self@.queue.tracks,
                _ => false,
            },
    {
        acts.push(EngineAction::Emit(PlayerEvent::QueueChanged(self.queue.tracks())));
        acts.push(EngineAction::Emit(PlayerEvent::CurrentIndexChanged(self.queue.current_index())));
    }

    /// Carries out a command and returns the actions that follow from it.
    pub fn handle_command(&mut self, command: PlayerCommand) -> (acts: Vec<EngineAction>)
        requires
            old(self).wf(),
            command matches PlayerCommand::LoadQueue(v) ==> v@.len() < usize::MAX,
        ensures
            final(self).wf(),
            command_outcome(old(self)@, command, final(self)@, acts@),
    {
        let mut acts: Vec<EngineAction> = Vec::new();
        match command {
            PlayerCommand::LoadQueue(tracks) => {
                self.queue.load(tracks);
                self.notify_queue(&mut acts);
            },
            PlayerCommand::PlayAt(index) => {
                self.play_index(index, &mut acts);
                assert(acts@.skip(0) =~= acts@);
            },
            PlayerCommand::PlayPause => self.toggle_play_pause(&mut acts),
            PlayerCommand::Pause => {
                acts.push(EngineAction::PauseSink);
                self.state = PlaybackState::Paused;
                acts.push(
                    EngineAction::Emit(PlayerEvent::PlaybackStateChanged(PlaybackState::Paused)),
                );
                assert(acts@ =~= seq![
                    EngineAction::PauseSink,
                    EngineAction::Emit(PlayerEvent::PlaybackStateChanged(PlaybackState::Paused)),
                ]);
            },
            PlayerCommand::Resume => self.resume(&mut acts),
            PlayerCommand::Stop => {
                self.stop(&mut acts);
                assert(acts@ =~= stop_actions());
            },
            PlayerCommand::Next => {
                let ghost q0 = self.queue@;
                let next = self.queue.next();
                proof {
                    lemma_next_in_range(q0, self.queue@, next);
                }
                let ghost q1 = self.queue@;
                match next {
                    Some(index) => {
                        self.play_index(index, &mut acts);
                        assert(acts@.skip(0) =~= acts@);
                    },
                    None => {
                        self.stop(&mut acts);
                        assert(acts@ =~= stop_actions());
                    },
                }
                assert(next_spec(q0, q1, next));
            },
            PlayerCommand::Previous => {
                let ghost q0 = self.queue@;
                let previous = self.queue.previous();
                proof {
                    lemma_previous_in_range(q0, self.queue@, previous);
                }
                let ghost q1 = self.queue@;
                if let Some(index) = previous {
                    self.play_index(index, &mut acts);
                    assert(acts@.skip(0) =~= acts@);
                }
                assert(previous_spec(q0, q1, previous));
            },
            PlayerCommand::Seek(position_ns) => {
                acts.push(EngineAction::SeekSink(position_ns));
                acts.push(EngineAction::Emit(PlayerEvent::PositionChanged(position_ns)));
                assert(acts@ =~= seq![
                    EngineAction::SeekSink(position_ns),
                    EngineAction::Emit(PlayerEvent::PositionChanged(position_ns)),
                ]);
            },
            PlayerCommand::SetShuffle(shuffle) => {
                self.queue.set_shuffle(shuffle);
                acts.push(EngineAction::Emit(PlayerEvent::ShuffleChanged(self.queue.shuffle())));
                assert(acts@ =~= seq![EngineAction::Emit(PlayerEvent::ShuffleChanged(shuffle))]);
            },
            PlayerCommand::SetRepeat(repeat) => {
                self.queue.set_repeat(repeat);
                acts.push(EngineAction::Emit(PlayerEvent::RepeatChanged(self.queue.repeat())));
                assert(acts@ =~= seq![EngineAction::Emit(PlayerEvent::RepeatChanged(repeat))]);
            },
        }
        acts
    }

    /// Play / pause toggle: pauses or resumes the sink, or starts the
    /// current track when stopped.
    fn toggle_play_pause(&mut self, acts: &mut Vec<EngineAction>)
        requires
            engine_wf(old(self)@),
            old(acts)@.len() == 0,
        ensures
            engine_wf(final(self)@),
            toggle_outcome(old(self)@, final(self)@, final(acts)@),
    {
        match self.state {
            PlaybackState::Playing => {
                acts.push(EngineAction::PauseSink);
                self.state = PlaybackState::Paused;
                acts.push(
                    EngineAction::Emit(PlayerEvent::PlaybackStateChanged(PlaybackState::Paused)),
                );
                assert(acts@ =~= seq![
                    EngineAction::PauseSink,
                    EngineAction::Emit(PlayerEvent::PlaybackStateChanged(PlaybackState::Paused)),
                ]);
            },
            PlaybackState::Paused => {
                acts.push(EngineAction::PlaySink);
                self.state = PlaybackState::Playing;
                acts.push(
                    EngineAction::Emit(PlayerEvent::PlaybackStateChanged(PlaybackState::Playing)),
                );
                assert(acts@ =~= seq![
                    EngineAction::PlaySink,
                    EngineAction::Emit(PlayerEvent::PlaybackStateChanged(PlaybackState::Playing)),
                ]);
            },
            PlaybackState::Stopped => {
                if let Some(index) = self.queue.current_index() {
                    self.play_index(index, acts);
                    assert(acts@.skip(0) =~= acts@);
                }
            },
        }
    }

    /// Resume: starts the current track when stopped, resumes the sink when
    /// paused with sound loaded, and does nothing otherwise.
    fn resume(&mut self, acts: &mut Vec<EngineAction>)
        requires
            engine_wf(old(self)@),
            old(acts)@.len() == 0,
        ensures
            engine_wf(final(self)@),
            resume_outcome(old(self)@, final(self)@, final(acts)@),
    {
        if self.state == PlaybackState::Stopped {
            if let Some(index) = self.queue.current_index() {
                self.play_index(index, acts);
                assert(acts@.skip(0) =~= acts@);
            }
            return;
        }
        if self.has_sound && self.state == PlaybackState::Paused {
            acts.push(EngineAction::PlaySink);
            self.state = PlaybackState::Playing;
            acts.push(
                EngineAction::Emit(PlayerEvent::PlaybackStateChanged(PlaybackState::Playing)),
            );
            assert(acts@ =~= seq![
                EngineAction::PlaySink,
                EngineAction::Emit(PlayerEvent::PlaybackStateChanged(PlaybackState::Playing)),
            ]);
        }
    }

    /// The outcome of a [`EngineAction::ResolveStream`] request: the path of
    /// the downloaded stream, or the download error.
    pub fn stream_resolved(&mut self, index: usize, track: Track, outcome: Result<String, String>) -> (acts: Vec<EngineAction>)
        requires
            old(self).wf(),
        ensures
            final(self).wf(),
            final(self)@.queue.tracks.len() == old(self)@.queue.tracks.len(),
            match outcome {
                Ok(path) => {
                    &&& final(self)@.queue.tracks == (if index < old(self)@.queue.tracks.len() {
                        old(self)@.queue.tracks.update(
                            index as int,
                            Track { path: path, ..old(self)@.queue.tracks[index as int] },
                        )
                    } else {
                        old(self)@.queue.tracks
                    })
                    &&& final(self)@.queue == (QueueState {
                        tracks: final(self)@.queue.tracks,
                        ..old(self)@.queue
                    })
                    &&& final(self)@ == (EngineState { queue: final(self)@.queue, ..old(self)@ })
                    &&& acts@ == seq![
                        EngineAction::OpenTrack { index, track: Track { path: path, ..track } },
                    ]
                },
                Err(e) => {
                    &&& settled(final(self)@, acts@)
                    &&& match acts@[0] {
                        EngineAction::Emit(PlayerEvent::Error(m)) => m@ == download_failed_message(e@),
                        _ => false,
                    }
                    &&& exists|steps: Seq<(QueueState, Option<usize>, QueueState)>| #[trigger]
                        recovers(old(self)@, download_failed_message(e@), final(self)@, acts@, steps)
                },
            },
    {
        let mut acts: Vec<EngineAction> = Vec::new();
        match outcome {
            Ok(path) => {
                let mut track = track;
                track.path = path.clone();
                self.queue.set_track_path(index, path);
                acts.push(EngineAction::OpenTrack { index, track });
            },
            Err(e) => {
                let mut m = String::from_str("download failed: ");
                m.append(e.as_str());
                self.recover(m, &mut acts);
                assert(acts@.skip(0) =~= acts@);
            },
        }
        acts
    }

    /// The outcome of an [`EngineAction::OpenTrack`] request: the track's
    /// duration in nanoseconds when its decoder knows it, or the error.
    pub fn track_opened(&mut self, track: Track, outcome: Result<Option<u128>, String>) -> (acts: Vec<EngineAction>)
        requires
            old(self).wf(),
        ensures
            final(self).wf(),
            final(self)@.queue.tracks == old(self)@.queue.tracks,
            match outcome {
                Ok(duration) => {
                    &&& final(self)@ == (EngineState {
                        state: PlaybackState::Playing,
                        current: Some(track),
                        duration_ns: match duration {
                            Some(d) => d,
                            None => 0,
                        },
                        has_sound: true,
                        failed: 0,
                        ..old(self)@
                    })
                    &&& acts@ == match duration {
                        Some(d) => seq![
                            EngineAction::Emit(PlayerEvent::TrackStarted(track)),
                            EngineAction::Emit(PlayerEvent::DurationChanged(d)),
                            EngineAction::Emit(PlayerEvent::PlaybackStateChanged(PlaybackState::Playing)),
                        ],
                        None => seq![
                            EngineAction::Emit(PlayerEvent::TrackStarted(track)),
                            EngineAction::Emit(PlayerEvent::PlaybackStateChanged(PlaybackState::Playing)),
                        ],
                    }
                },
                Err(e) => {
                    &&& settled(final(self)@, acts@)
                    &&& acts@[0] == EngineAction::Emit(PlayerEvent::Error(e))
                    &&& exists|steps: Seq<(QueueState, Option<usize>, QueueState)>| #[trigger]
                        recovers(old(self)@, e@, final(self)@, acts@, steps)
                },
            },
    {
        let mut acts: Vec<EngineAction> = Vec::new();
        match outcome {
            Ok(duration) => {
                self.duration_ns = match duration {
                    Some(d) => d,
                    None => 0,
                };
                self.failed_tracks = 0;
                self.has_sound = true;
                self.state = PlaybackState::Playing;
                self.current_track = Some(track.clone());
                acts.push(EngineAction::Emit(PlayerEvent::TrackStarted(track)));
                if let Some(d) = duration {
                    acts.push(EngineAction::Emit(PlayerEvent::DurationChanged(d)));
                }
                acts.push(
                    EngineAction::Emit(PlayerEvent::PlaybackStateChanged(PlaybackState::Playing)),
                );
            },
            Err(e) => {
                self.recover(e, &mut acts);
                assert(acts@.skip(0) =~= acts@);
            },
        }
        acts
    }

    /// The current track has run out: repeat it, move on, or stop at the end
    /// of the queue.
    pub fn track_finished(&mut self) -> (acts: Vec<EngineAction>)
        requires
            old(self).wf(),
        ensures
            final(self).wf(),
            final(self)@.queue.tracks == old(self)@.queue.tracks,
            !final(self)@.has_sound || settled(final(self)@, acts@),
            old(self)@.queue.repeat == RepeatMode::One ==> match old(self)@.current {
                Some(t) => final(self)@ == (EngineState { has_sound: false, ..old(self)@ })
                    && acts@ == seq![EngineAction::RestartTrack { track: t }],
                None => final(self)@ == stopped(old(self)@) && acts@ == stop_actions(),
            },
            old(self)@.queue.repeat != RepeatMode::One ==> settled(final(self)@, acts@)
                && track_ends(old(self)@, final(self)@, acts@),
    {
        let mut acts: Vec<EngineAction> = Vec::new();
        self.has_sound = false;
        match self.queue.repeat() {
            RepeatMode::One => {
                match &self.current_track {
                    Some(track) => {
                        acts.push(EngineAction::RestartTrack { track: track.clone() });
                    },
                    None => {
                        self.stop(&mut acts);
                    },
                }
            },
            _ => {
                let ghost q0 = self.queue@;
                let next = self.queue.next();
                proof {
                    lemma_next_in_range(q0, self.queue@, next);
                }
                let ghost q1 = self.queue@;
                match next {
                    Some(index) => {
                        self.play_index(index, &mut acts);
                        assert(acts@.skip(0) =~= acts@);
                    },
                    None => {
                        acts.push(EngineAction::Emit(PlayerEvent::TrackEnded));
                        self.stop(&mut acts);
                        assert(acts@ =~= seq![EngineAction::Emit(PlayerEvent::TrackEnded)]
                            + stop_actions());
                    },
                }
                assert(next_spec(q0, q1, next));
            },
        }
        acts
    }

    /// The outcome of a [`EngineAction::RestartTrack`] request.
    pub fn track_restarted(&mut self, outcome: Result<(), String>) -> (acts: Vec<EngineAction>)
        requires
            old(self).wf(),
        ensures
            final(self).wf(),
            final(self)@.queue.tracks == old(self)@.queue.tracks,
            match outcome {
                Ok(()) => final(self)@ == (EngineState {
                    state: PlaybackState::Playing,
                    has_sound: true,
                    ..old(self)@
                }) && acts@.len() == 0,
                Err(e) => settled(final(self)@, acts@) && acts@[0] == EngineAction::Emit(
                    PlayerEvent::Error(e),
                ) && exists|steps: Seq<(QueueState, Option<usize>, QueueState)>| #[trigger]
                    recovers(old(self)@, e@, final(self)@, acts@, steps),
            },
    {
        let mut acts: Vec<EngineAction> = Vec::new();
        match outcome {
            Ok(()) => {
                self.has_sound = true;
                self.state = PlaybackState::Playing;
            },
            Err(e) => {
                self.recover(e, &mut acts);
                assert(acts@.skip(0) =~= acts@);
            },
        }
        acts
    }
}

/// The message of a failed stream download.
pub open spec fn download_failed_message(e: Seq<char>) -> Seq<char> {
    "download failed: "@ + e
}

/// Trying the track at `index` from `old`: it is selected and announced,
/// then either its request goes out or it fails and the engine recovers.
pub open spec fn tries(old: EngineState, index: usize, new: EngineState, acts: Seq<EngineAction>) -> bool {
    exists|sel: QueueState|
        #[trigger] selected(old.queue, index, sel) && {
            let mid = EngineState { queue: sel, ..old };
            match attempt(index, old.queue.tracks[index as int]) {
                Ok(request) => new == mid && acts == seq![
                    EngineAction::Emit(PlayerEvent::CurrentIndexChanged(Some(index))),
                    request,
                ],
                Err(m) => acts.len() > 0 && acts[0] == EngineAction::Emit(
                    PlayerEvent::CurrentIndexChanged(Some(index)),
                ) && exists|steps: Seq<(QueueState, Option<usize>, QueueState)>| #[trigger]
                    recovers(mid, m, new, acts.drop_first(), steps),
            }
        }
}

/// Playing `index` from `old`: out of range nothing happens; otherwise the
/// track is tried, and the run ends waiting on a request or stopped.
pub open spec fn plays(old: EngineState, index: usize, new: EngineState, acts: Seq<EngineAction>) -> bool {
    &&& new.queue.tracks == old.queue.tracks
    &&& if index >= old.queue.tracks.len() {
        new == old && acts.len() == 0
    } else {
        &&& settled(new, acts)
        &&& acts.len() > 0
        &&& acts[0] == EngineAction::Emit(PlayerEvent::CurrentIndexChanged(Some(index)))
        &&& tries(old, index, new, acts)
    }
}

/// Moving to the queue's next track: the queue answers, playback stops when
/// it has none, and otherwise the answer plays.
pub open spec fn advances(old: EngineState, new: EngineState, acts: Seq<EngineAction>) -> bool {
    exists|q: QueueState, r: Option<usize>|
        #[trigger] next_spec(old.queue, q, r) && match r {
            None => new == stopped(EngineState { queue: q, ..old }) && acts == stop_actions(),
            Some(i) => plays(EngineState { queue: q, ..old }, i, new, acts),
        }
}

/// The current track ran out (without repeat-one): the queue is asked for
/// the next track; without one the end is reported and playback stops,
/// otherwise that track plays.
pub open spec fn track_ends(old: EngineState, new: EngineState, acts: Seq<EngineAction>) -> bool {
    exists|q: QueueState, r: Option<usize>|
        #[trigger] next_spec(old.queue, q, r) && {
            let e = EngineState { queue: q, has_sound: false, ..old };
            match r {
                None => new == stopped(e) && acts == seq![EngineAction::Emit(PlayerEvent::TrackEnded)]
                    + stop_actions(),
                Some(i) => plays(e, i, new, acts),
            }
        }
}

/// Moving to the queue's previous track: the queue answers, and the answer
/// plays if there is one.
pub open spec fn goes_back(old: EngineState, new: EngineState, acts: Seq<EngineAction>) -> bool {
    exists|q: QueueState, r: Option<usize>|
        #[trigger] previous_spec(old.queue, q, r) && match r {
            None => new == EngineState { queue: q, ..old } && acts.len() == 0,
            Some(i) => plays(EngineState { queue: q, ..old }, i, new, acts),
        }
}

/// Starting playback from the stopped state: the current track plays, and
/// without one nothing happens.
pub open spec fn start_current(old: EngineState, new: EngineState, acts: Seq<EngineAction>) -> bool {
    match old.queue.current {
        Some(i) => plays(old, i, new, acts),
        None => new == old && acts.len() == 0,
    }
}

/// The outcome of play / pause.
pub open spec fn toggle_outcome(old: EngineState, new: EngineState, acts: Seq<EngineAction>) -> bool {
    match old.state {
        PlaybackState::Playing => new == (EngineState { state: PlaybackState::Paused, ..old })
            && acts == seq![
            EngineAction::PauseSink,
            EngineAction::Emit(PlayerEvent::PlaybackStateChanged(PlaybackState::Paused)),
        ],
        PlaybackState::Paused => new == (EngineState { state: PlaybackState::Playing, ..old })
            && acts == seq![
            EngineAction::PlaySink,
            EngineAction::Emit(PlayerEvent::PlaybackStateChanged(PlaybackState::Playing)),
        ],
        PlaybackState::Stopped => start_current(old, new, acts),
    }
}

/// The outcome of resume.
pub open spec fn resume_outcome(old: EngineState, new: EngineState, acts: Seq<EngineAction>) -> bool {
    if old.state == PlaybackState::Stopped {
        start_current(old, new, acts)
    } else if old.has_sound && old.state == PlaybackState::Paused {
        new == (EngineState { state: PlaybackState::Playing, ..old }) && acts == seq![
            EngineAction::PlaySink,
            EngineAction::Emit(PlayerEvent::PlaybackStateChanged(PlaybackState::Playing)),
        ]
    } else {
        new == old && acts.len() == 0
    }
}

/// What a command does to the engine and which actions it asks for.
pub open spec fn command_outcome(old: EngineState, command: PlayerCommand, new: EngineState, acts: Seq<EngineAction>) -> bool {
    match command {
        PlayerCommand::LoadQueue(v) => {
            &&& crate::audio::queue::load_spec(old.queue, v@, new.queue)
            &&& new == (EngineState { queue: new.queue, ..old })
            &&& acts.len() == 2
            &&& (match acts[0] {
                EngineAction::Emit(PlayerEvent::QueueChanged(w)) => w@ == new.queue.tracks,
                _ => false,
            })
            &&& acts[1] == EngineAction::Emit(PlayerEvent::CurrentIndexChanged(new.queue.current))
        },
        PlayerCommand::PlayAt(index) => plays(old, index, new, acts),
        PlayerCommand::PlayPause => toggle_outcome(old, new, acts),
        PlayerCommand::Pause => new == (EngineState { state: PlaybackState::Paused, ..old })
            && acts == seq![
            EngineAction::PauseSink,
            EngineAction::Emit(PlayerEvent::PlaybackStateChanged(PlaybackState::Paused)),
        ],
        PlayerCommand::Resume => resume_outcome(old, new, acts),
        PlayerCommand::Stop => new == stopped(old) && acts == stop_actions(),
        PlayerCommand::Next => new.queue.tracks == old.queue.tracks && settled(new, acts)
            && advances(old, new, acts),
        PlayerCommand::Previous => new.queue.tracks == old.queue.tracks && (acts.len() == 0
            || settled(new, acts)) && goes_back(old, new, acts),
        PlayerCommand::Seek(ns) => new == old && acts == seq![
            EngineAction::SeekSink(ns),
            EngineAction::Emit(PlayerEvent::PositionChanged(ns)),
        ],
        PlayerCommand::SetShuffle(b) => {
            &&& new == (EngineState { queue: new.queue, ..old })
            &&& (if b {
                (QueueState { shuffle: true, ..old.queue }).reshuffled(new.queue)
            } else {
                new.queue == (QueueState { shuffle: false, ..old.queue })
            })
            &&& acts == seq![EngineAction::Emit(PlayerEvent::ShuffleChanged(b))]
        },
        PlayerCommand::SetRepeat(m) => new == (EngineState {
            queue: QueueState { repeat: m, ..old.queue },
            ..old
        }) && acts == seq![EngineAction::Emit(PlayerEvent::RepeatChanged(m))],
    }
}

/// The index `previous` picks is a position of the queue.
pub proof fn lemma_previous_in_range(old: QueueState, new: QueueState, r: Option<usize>)
    requires
        old.wf(),
        previous_spec(old, new, r),
    ensures
        r matches Some(i) ==> i < old.tracks.len(),
        new.tracks == old.tracks,
{
}

/// Recovery in a queue none of whose tracks can be played ends stopped.
proof fn lemma_unplayable_recovery_stops(
    e: EngineState,
    message: Seq<char>,
    new: EngineState,
    acts: Seq<EngineAction>,
    steps: Seq<(QueueState, Option<usize>, QueueState)>,
)
    requires
        recovers(e, message, new, acts, steps),
        forall|i: usize| i < e.queue.tracks.len() ==> #[trigger] attempt(i, e.queue.tracks[i as int]) is Err,
    ensures
        new.state == PlaybackState::Stopped,
        !new.has_sound,
    decreases steps.len(),
{
    let e1 = failed_once(e);
    if e1.failed < failure_limit(e.queue.tracks.len()) {
        let q = steps[0].0;
        assert(q.tracks == e1.queue.tracks);
        if let Some(i) = steps[0].1 {
            let mid = EngineState { queue: steps[0].2, ..e1 };
            assert(attempt(i, q.tracks[i as int]) is Err);
            if let Err(m) = attempt(i, q.tracks[i as int]) {
                lemma_unplayable_recovery_stops(mid, m, new, acts.drop_first().drop_first(), steps.drop_first());
            }
        }
    }
}

/// Asking for any track of a queue none of whose tracks can be played (no
/// source, or a local track without a file) ends with playback stopped.
pub proof fn law_unplayable_queue_stops(
    e0: EngineState,
    index: usize,
    e1: EngineState,
    acts: Seq<EngineAction>,
)
    requires
        plays(e0, index, e1, acts),
        index < e0.queue.tracks.len(),
        forall|i: usize| i < e0.queue.tracks.len() ==> #[trigger] attempt(i, e0.queue.tracks[i as int]) is Err,
    ensures
        e1.state == PlaybackState::Stopped,
        !e1.has_sound,
{
    let sel = choose|sel: QueueState| #[trigger] selected(e0.queue, index, sel) && {
        let mid = EngineState { queue: sel, ..e0 };
        match attempt(index, e0.queue.tracks[index as int]) {
            Ok(request) => e1 == mid && acts == seq![
                EngineAction::Emit(PlayerEvent::CurrentIndexChanged(Some(index))),
                request,
            ],
            Err(m) => acts.len() > 0 && acts[0] == EngineAction::Emit(
                PlayerEvent::CurrentIndexChanged(Some(index)),
            ) && exists|steps: Seq<(QueueState, Option<usize>, QueueState)>| #[trigger]
                recovers(mid, m, e1, acts.drop_first(), steps),
        }
    };
    let mid = EngineState { queue: sel, ..e0 };
    assert(attempt(index, e0.queue.tracks[index as int]) is Err);
    if let Err(m) = attempt(index, e0.queue.tracks[index as int]) {
        let steps = choose|steps: Seq<(QueueState, Option<usize>, QueueState)>| #[trigger]
            recovers(mid, m, e1, acts.drop_first(), steps);
        lemma_unplayable_recovery_stops(mid, m, e1, acts.drop_first(), steps);
    }
}

/// Pausing playback and then toggling play / pause brings the engine back
/// to exactly where it was, and the toggle asks only to resume the sink.
pub proof fn law_pause_then_toggle_resumes(
    e0: EngineState,
    e1: EngineState,
    a1: Seq<EngineAction>,
    e2: EngineState,
    a2: Seq<EngineAction>,
)
    requires
        e0.state == PlaybackState::Playing,
        command_outcome(e0, PlayerCommand::Pause, e1, a1),
        command_outcome(e1, PlayerCommand::PlayPause, e2, a2),
    ensures
        e2 == e0,
        a2 == seq![
            EngineAction::PlaySink,
            EngineAction::Emit(PlayerEvent::PlaybackStateChanged(PlaybackState::Playing)),
        ],
{
}

/// Resume (what MPRIS Play and the play key send) restarts a paused engine
/// whose sink holds sound: it asks the sink to play, announces that playback
/// is playing, and leaves the engine playing with nothing else changed.
pub proof fn law_resume_restarts_paused_playback(
    e0: EngineState,
    e1: EngineState,
    acts: Seq<EngineAction>,
)
    requires
        e0.has_sound,
        e0.state == PlaybackState::Paused,
        command_outcome(e0, PlayerCommand::Resume, e1, acts),
    ensures
        e1.state == PlaybackState::Playing,
        e1 == (EngineState { state: PlaybackState::Playing, ..e0 }),
        acts == seq![
            EngineAction::PlaySink,
            EngineAction::Emit(PlayerEvent::PlaybackStateChanged(PlaybackState::Playing)),
        ],
{
}

/// Pausing playing sound and then resuming brings the engine back to exactly
/// where it was, the resume asking the sink to play and announcing it.
pub proof fn law_pause_then_resume_restores(
    e0: EngineState,
    e1: EngineState,
    a1: Seq<EngineAction>,
    e2: EngineState,
    a2: Seq<EngineAction>,
)
    requires
        e0.has_sound,
        e0.state == PlaybackState::Playing,
        command_outcome(e0, PlayerCommand::Pause, e1, a1),
        command_outcome(e1, PlayerCommand::Resume, e2, a2),
    ensures
        e1.state == PlaybackState::Paused,
        e2 == e0,
        a2 == seq![
            EngineAction::PlaySink,
            EngineAction::Emit(PlayerEvent::PlaybackStateChanged(PlaybackState::Playing)),
        ],
{
}

} // verus!
