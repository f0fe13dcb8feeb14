//! Playback queue with shuffle and repeat support.

use vstd::prelude::*;

use crate::audio::RepeatMode;
use crate::library::{same_track, Track};

verus! {

/// One step of the xorshift64 generator.
pub open spec fn xorshift_step(x: u64) -> u64 {
    let a = x ^ (x << 13u64);
    let b = a ^ (a >> 7u64);
    b ^ (b << 17u64)
}

/// The seed used when the clock gives nothing usable.
pub const FALLBACK_SEED: u64 = 0x9E37_79B9_7F4A_7C15;

/// `std::time::SystemTime`, a reading of the system clock, carried through
/// opaquely.
#[verifier::external_type_specification]
#[verifier::external_body]
pub struct ExSystemTime(std::time::SystemTime);

/// Reads the system clock with `SystemTime::now`; nothing is stated of the
/// reading.
#[verifier::external_body]
fn clock_now() -> std::time::SystemTime {
    std::time::SystemTime::now()
}

/// The time from the Unix epoch to `t`, with `SystemTime::duration_since`;
/// `None` when `t` lies before the epoch. Nothing is stated of the span,
/// which rests on the clock.
#[verifier::external_body]
fn since_epoch(t: &std::time::SystemTime) -> Option<std::time::Duration> {
    t.duration_since(std::time::UNIX_EPOCH).ok()
}

/// The whole nanoseconds of a span, with `Duration::as_nanos`; nothing is
/// stated, as the span itself is opaque.
#[verifier::external_body]
fn whole_nanos(d: &std::time::Duration) -> u128 {
    d.as_nanos()
}

/// A tiny xorshift64 PRNG used to build shuffle orders without pulling in a
/// dependency. Seeded from the system clock so consecutive launches differ.
pub struct XorShift {
    pub state: u64,
}

impl XorShift {
    /// Seeds the generator from the clock, never with zero.
    pub fn from_time() -> (r: Self)
        ensures
            r.state != 0,
    {
        let now = clock_now();
        let seed = match since_epoch(&now) {
            Some(span) => {
                let nanos = whole_nanos(&span);
                #[verifier::truncate]
                (nanos as u64)
            },
            None => FALLBACK_SEED,
        };
        let state = if seed == 0 { FALLBACK_SEED } else { seed };
        XorShift { state }
    }

    /// Advances the generator and returns the high 32 bits of the new state.
    pub fn next_u32(&mut self) -> (r: u32)
        ensures
            final(self).state == xorshift_step(old(self).state),
            r == (xorshift_step(old(self).state) >> 32u64) as u32,
    {
        let mut x = self.state;
        x = x ^ (x << 13u64);
        x = x ^ (x >> 7u64);
        x = x ^ (x << 17u64);
        self.state = x;
        (x >> 32u64) as u32
    }
}

/// `order` lists every index below `n` exactly once.
pub open spec fn is_permutation(order: Seq<usize>, n: nat) -> bool {
    &&& order.len() == n
    &&& forall|i: int| 0 <= i < order.len() ==> #[trigger] order[i] < n
    &&& forall|i: int, j: int| 0 <= i < j < order.len() ==> order[i] != order[j]
}

/// The abstract state of a [`Queue`].
pub ghost struct QueueState {
    /// The tracks in play order.
    pub tracks: Seq<Track>,
    /// Index of the current track.
    pub current: Option<usize>,
    /// Whether shuffle is on.
    pub shuffle: bool,
    /// The repeat mode.
    pub repeat: RepeatMode,
    /// The shuffle order: a sequence of track indices.
    pub order: Seq<usize>,
    /// Position within `order` of the shuffle cursor.
    pub order_pos: usize,
    /// Whether the shuffle pass has not yet handed out its first track.
    pub at_start: bool,
    /// The shuffle generator's state, from which the next order is drawn.
    pub seed: u64,
}

/// A playable track list with shuffle and repeat handling.
pub struct Queue {
    tracks: Vec<Track>,
    current: Option<usize>,
    shuffle: bool,
    repeat: RepeatMode,
    order: Vec<usize>,
    order_pos: usize,
    at_start: bool,
    rand: XorShift,
}

impl View for Queue {
    type V = QueueState;

    closed spec fn view(&self) -> QueueState {
        QueueState {
            tracks: self.tracks@,
            current: self.current,
            shuffle: self.shuffle,
            repeat: self.repeat,
            order: self.order@,
            order_pos: self.order_pos,
            at_start: self.at_start,
            seed: self.rand.state,
        }
    }
}

/// Index of the first track in `tracks` whose content equals `t`.
pub open spec fn first_match(tracks: Seq<Track>, t: Track) -> Option<usize> {
    if exists|i: int| 0 <= i < tracks.len() && same_track(tracks[i]@, t@) {
        let i = choose|i: int|
            0 <= i < tracks.len() && same_track(tracks[i]@, t@) && forall|j: int|
                0 <= j < i ==> !same_track(tracks[j]@, t@);
        Some(i as usize)
    } else {
        None
    }
}

/// Position of `c` within `order`, or `0` when it does not occur.
pub open spec fn position_in(order: Seq<usize>, c: usize) -> usize {
    if exists|i: int| 0 <= i < order.len() && order[i] == c {
        (choose|i: int| 0 <= i < order.len() && order[i] == c) as usize
    } else {
        0
    }
}

impl QueueState {
    /// The queue's invariant: the current index is in range and, under
    /// shuffle, the order is a permutation of all indices with the cursor
    /// inside it.
    pub open spec fn wf(self) -> bool {
        &&& self.tracks.len() < usize::MAX
        &&& (self.current matches Some(c) ==> c < self.tracks.len())
        &&& (self.shuffle ==> is_permutation(self.order, self.tracks.len()))
        &&& (self.shuffle && self.order.len() > 0 ==> self.order_pos < self.order.len())
    }

    /// The state after a fresh shuffle order has been drawn from the
    /// generator: the cursor sits on the current track (or at the front) and
    /// a pass starts over when nothing is current.
    pub open spec fn reshuffled(self, new: QueueState) -> bool {
        &&& new.tracks == self.tracks
        &&& new.current == self.current
        &&& new.shuffle == self.shuffle
        &&& new.repeat == self.repeat
        &&& (new.order, new.seed) == fisher_yates(self.seed, self.tracks.len())
        &&& is_permutation(new.order, self.tracks.len())
        &&& new.order_pos == (match self.current {
            Some(c) => position_in(new.order, c),
            None => 0,
        })
        &&& new.at_start == (self.current is None)
    }

    /// The state after a fresh order has been drawn from the generator and
    /// rotated to start at `start`.
    pub open spec fn reshuffled_from(self, new: QueueState, start: usize) -> bool {
        let drawn = fisher_yates(self.seed, self.tracks.len());
        &&& new.tracks == self.tracks
        &&& new.current == self.current
        &&& new.shuffle == self.shuffle
        &&& new.repeat == self.repeat
        &&& new.order == rotate_left(drawn.0, position_in(drawn.0, start) as int)
        &&& new.seed == drawn.1
        &&& is_permutation(new.order, self.tracks.len())
        &&& new.order[0] == start
        &&& new.order_pos == 0
        &&& !new.at_start
    }

    /// The same queue with only the shuffle cursor fields replaced.
    pub open spec fn with_cursor(self, order_pos: usize, at_start: bool) -> QueueState {
        QueueState { order_pos, at_start, ..self }
    }

    /// The order is cleared after a change made without shuffle.
    pub open spec fn order_refreshed(self, new: QueueState) -> bool {
        if self.shuffle {
            self.reshuffled(new)
        } else {
            &&& new.tracks == self.tracks
            &&& new.current == self.current
            &&& new.shuffle == self.shuffle
            &&& new.repeat == self.repeat
            &&& new.order.len() == 0
            &&& new.order_pos == 0
            &&& new.at_start == (self.current is None)
            &&& new.seed == self.seed
        }
    }
}

/// What `next` returns and leaves behind without shuffle: the queue is
/// unchanged and the successor of the current index is chosen by the repeat
/// mode.
pub open spec fn linear_next(n: nat, current: Option<usize>, repeat: RepeatMode) -> Option<usize> {
    match current {
        None => None,
        Some(c) => match repeat {
            RepeatMode::One => Some(c),
            _ => if c + 1 < n {
                Some((c + 1) as usize)
            } else if repeat == RepeatMode::All {
                Some(0)
            } else {
                None
            },
        },
    }
}

/// What `previous` returns without shuffle.
pub open spec fn linear_previous(n: nat, current: Option<usize>, repeat: RepeatMode) -> Option<usize> {
    match current {
        None => None,
        Some(c) => if c > 0 {
            Some((c - 1) as usize)
        } else if repeat == RepeatMode::All {
            Some((n - 1) as usize)
        } else {
            Some(0)
        },
    }
}

/// The contract of [`Queue::next`]: the index handed out and the state left
/// behind.
pub open spec fn next_spec(old: QueueState, new: QueueState, r: Option<usize>) -> bool {
    let n = old.tracks.len();
    if n == 0 {
        new == old && r is None
    } else if !old.shuffle {
        new == old && r == linear_next(n, old.current, old.repeat)
    } else if old.repeat == RepeatMode::One {
        new == old && r == old.current
    } else if old.at_start {
        new == old.with_cursor(old.order_pos, false) && r == Some(old.order[0])
    } else if old.order_pos + 1 < n {
        new == old.with_cursor((old.order_pos + 1) as usize, old.at_start) && r == Some(
            old.order[old.order_pos + 1],
        )
    } else if old.repeat == RepeatMode::All {
        let p = match old.current {
            Some(c) => position_in(new.order, c),
            None => 0,
        };
        &&& new.tracks == old.tracks
        &&& new.current == old.current
        &&& new.shuffle == old.shuffle
        &&& new.repeat == old.repeat
        &&& (new.order, new.seed) == fisher_yates(old.seed, n)
        &&& is_permutation(new.order, n)
        &&& new.at_start == (old.current is None)
        &&& if p + 1 < n {
            new.order_pos == p + 1 && r == Some(new.order[p + 1])
        } else {
            new.order_pos == 0 && r == Some(new.order[0])
        }
    } else {
        new == old && r is None
    }
}

/// The contract of [`Queue::previous`].
pub open spec fn previous_spec(old: QueueState, new: QueueState, r: Option<usize>) -> bool {
    let n = old.tracks.len();
    if n == 0 {
        new == old && r is None
    } else if !old.shuffle {
        new == old && r == linear_previous(n, old.current, old.repeat)
    } else if old.at_start {
        new == old && r == Some(old.order[0])
    } else if old.order_pos > 0 {
        new == old.with_cursor((old.order_pos - 1) as usize, old.at_start) && r == Some(
            old.order[old.order_pos - 1],
        )
    } else if old.repeat == RepeatMode::All {
        new == old.with_cursor((n - 1) as usize, old.at_start) && r == Some(old.order[n - 1])
    } else {
        new == old && r == Some(old.order[0])
    }
}

/// The track at `current`, if any.
pub open spec fn current_track(tracks: Seq<Track>, current: Option<usize>) -> Option<Track> {
    match current {
        Some(i) => if 0 <= i < tracks.len() {
            Some(tracks[i as int])
        } else {
            None
        },
        None => None,
    }
}

/// The Fisher-Yates passes from position `i - 1` down to position 1 over
/// `order`, with the generator at `state`: each pass advances the generator,
/// takes the high 32 bits of its new state modulo the number of positions
/// still open, and swaps that position with the last open one. Gives the
/// order and the generator's state afterwards.
pub open spec fn shuffle_passes(order: Seq<usize>, state: u64, i: nat) -> (Seq<usize>, u64)
    decreases i,
{
    if i <= 1 {
        (order, state)
    } else {
        let next = xorshift_step(state);
        let k = i - 1;
        let j = ((next >> 32u64) as u32) as int % (i as int);
        shuffle_passes(order.update(k, order[j]).update(j, order[k]), next, k as nat)
    }
}

/// The order of `0..n` that Fisher-Yates draws with the generator at `state`,
/// and the generator's state afterwards.
pub open spec fn fisher_yates(state: u64, n: nat) -> (Seq<usize>, u64) {
    shuffle_passes(identity_order(n), state, n)
}

/// The first `n` indices in increasing order.
pub open spec fn identity_order(n: nat) -> Seq<usize> {
    Seq::new(n, |i: int| i as usize)
}

/// `order` rotated left so that position `pos` comes first.
pub open spec fn rotate_left(order: Seq<usize>, pos: int) -> Seq<usize> {
    order.subrange(pos, order.len() as int) + order.subrange(0, pos)
}

proof fn lemma_rotate_permutation(order: Seq<usize>, n: nat, pos: int)
    requires
        is_permutation(order, n),
        0 <= pos < n,
    ensures
        is_permutation(rotate_left(order, pos), n),
        rotate_left(order, pos)[0] == order[pos],
{
    let r = rotate_left(order, pos);
    assert(r.len() == n);
    assert forall|i: int| 0 <= i < r.len() implies #[trigger] r[i] < n by {
        if i < n - pos {
            assert(r[i] == order[pos + i]);
        } else {
            assert(r[i] == order[i - (n - pos)]);
        }
    }
    assert forall|i: int, j: int| 0 <= i < j < r.len() implies r[i] != r[j] by {
        let oi = if i < n - pos { pos + i } else { i - (n - pos) };
        let oj = if j < n - pos { pos + j } else { j - (n - pos) };
        assert(r[i] == order[oi]);
        assert(r[j] == order[oj]);
        assert(oi != oj);
        if oi < oj {
            assert(order[oi] != order[oj]);
        } else {
            assert(order[oj] != order[oi]);
        }
    }
}

proof fn lemma_position_unique(order: Seq<usize>, n: nat, c: usize, p: int)
    requires
        is_permutation(order, n),
        0 <= p < order.len(),
        order[p] == c,
        order.len() <= usize::MAX,
    ensures
        position_in(order, c) == p,
{
    assert(exists|i: int| 0 <= i < order.len() && order[i] == c);
    let q = choose|i: int| 0 <= i < order.len() && order[i] == c;
    assert(0 <= q < order.len() && order[q] == c);
    if q < p {
        assert(order[q] != order[p]);
    } else if p < q {
        assert(order[p] != order[q]);
    }
}

proof fn lemma_permutation_contains(order: Seq<usize>, n: nat, c: usize)
    requires
        is_permutation(order, n),
        c < n,
    ensures
        exists|i: int| 0 <= i < order.len() && order[i] == c,
    decreases n,
{
    // The values of a permutation are n distinct numbers below n, so they
    // cover every number below n.
    let s = order.to_set();
    assert(order.no_duplicates()) by {
        assert forall|i: int, j: int| 0 <= i < order.len() && 0 <= j < order.len() && i != j
            implies order[i] != order[j] by {
            if i < j {
            } else {
            }
        }
    }
    order.unique_seq_to_set();
    assert(s.subset_of(Set::new(|x: usize| x < n)));
    if !s.contains(c) {
        let bound = Set::new(|x: usize| x < n);
        assert(s.subset_of(bound.remove(c)));
        lemma_bounded_usize_set_len(n);
        vstd::set_lib::lemma_len_subset(s, bound.remove(c));
        assert(false);
    }
    assert(s.contains(c));
}

proof fn lemma_bounded_usize_set_len(n: nat)
    ensures
        Set::new(|x: usize| x < n).finite(),
        Set::new(|x: usize| x < n).len() == if n <= usize::MAX + 1 { n } else { (usize::MAX + 1) as nat },
    decreases n,
{
    if n == 0 {
        assert(Set::new(|x: usize| x < 0) =~= Set::empty());
    } else {
        lemma_bounded_usize_set_len((n - 1) as nat);
        let prev = Set::new(|x: usize| x < (n - 1) as nat);
        let cur = Set::new(|x: usize| x < n);
        if n - 1 <= usize::MAX {
            assert(cur =~= prev.insert((n - 1) as usize));
        } else {
            assert(cur =~= prev);
        }
    }
}


/// Draws a fresh random order of `0..n` (Fisher-Yates over `rand`).
fn shuffled_indices(rand: &mut XorShift, n: usize) -> (order: Vec<usize>)
    ensures
        is_permutation(order@, n as nat),
        (order@, final(rand).state) == fisher_yates(old(rand).state, n as nat),
{
    let mut order: Vec<usize> = Vec::new();
    let mut k: usize = 0;
    while k < n
        invariant
            k <= n,
            order@ == identity_order(k as nat),
        decreases n - k,
    {
        order.push(k);
        k = k + 1;
        assert(order@ =~= identity_order(k as nat));
    }
    let ghost start = rand.state;
    let mut i: usize = n;
    while i > 1
        invariant
            i <= n,
            is_permutation(order@, n as nat),
            shuffle_passes(order@, rand.state, i as nat) == fisher_yates(start, n as nat),
        decreases i,
    {
        i = i - 1;
        let ghost state = rand.state;
        let j = (rand.next_u32() as usize) % (i + 1);
        let a = order[i];
        let b = order[j];
        let ghost before = order@;
        order.set(i, b);
        order.set(j, a);
        assert(order@ == before.update(i as int, before[j as int]).update(j as int, before[i as int]));
        assert forall|x: int, y: int| 0 <= x < y < order@.len() implies order@[x] != order@[y] by {
            let ox = if x == i { j as int } else if x == j { i as int } else { x };
            let oy = if y == i { j as int } else if y == j { i as int } else { y };
            assert(order@[x] == before[ox]);
            assert(order@[y] == before[oy]);
            if ox < oy {
                assert(before[ox] != before[oy]);
            } else {
                assert(before[oy] != before[ox]);
            }
        }
    }
    order
}

/// Index of `c` within `order`, if present.
fn index_of(order: &Vec<usize>, c: usize) -> (r: Option<usize>)
    ensures
        r matches Some(p) ==> p < order@.len() && order@[p as int] == c,
        r is None ==> forall|i: int| 0 <= i < order@.len() ==> order@[i] != c,
{
    let mut i: usize = 0;
    while i < order.len()
        invariant
            i <= order@.len(),
            forall|k: int| 0 <= k < i ==> order@[k] != c,
        decreases order@.len() - i,
    {
        if order[i] == c {
            return Some(i);
        }
        i = i + 1;
    }
    None
}

impl Queue {
    /// Creates an empty queue with repeat disabled and shuffle off.
    pub fn new() -> (q: Self)
        ensures
            q@.wf(),
            q@.tracks.len() == 0,
            q@.current is None,
            !q@.shuffle,
            q@.repeat == RepeatMode::Off,
            q@.order.len() == 0,
            q@.order_pos == 0,
            q@.at_start,
    {
        Queue {
            tracks: Vec::new(),
            current: None,
            shuffle: false,
            repeat: RepeatMode::Off,
            order: Vec::new(),
            order_pos: 0,
            at_start: true,
            rand: XorShift::from_time(),
        }
    }

    /// Regenerates the shuffle order and repositions it on the current track.
    fn rebuild_order(&mut self)
        requires
            old(self).tracks@.len() < usize::MAX,
            old(self).current matches Some(c) ==> c < old(self).tracks@.len(),
        ensures
            old(self)@.reshuffled(final(self)@),
            final(self)@.shuffle ==> final(self)@.wf(),
            final(self)@.tracks.len() > 0 ==> final(self)@.order_pos < final(self)@.order.len(),
    {
        let n = self.tracks.len();
        let order = shuffled_indices(&mut self.rand, n);
        self.order = order;
        self.order_pos = match self.current {
            Some(c) => {
                proof {
                    lemma_permutation_contains(self.order@, n as nat, c);
                }
                match index_of(&self.order, c) {
                    Some(p) => {
                        proof {
                            lemma_position_unique(self.order@, n as nat, c, p as int);
                        }
                        p
                    },
                    None => 0,
                }
            },
            None => 0,
        };
        self.at_start = self.current.is_none();
    }

    /// Builds a fresh shuffle order starting from the given index.
    fn rebuild_order_from(&mut self, start: usize)
        requires
            old(self).tracks@.len() < usize::MAX,
            start < old(self).tracks@.len(),
            old(self).current matches Some(c) ==> c < old(self).tracks@.len(),
        ensures
            old(self)@.reshuffled_from(final(self)@, start),
    {
        let n = self.tracks.len();
        let order = shuffled_indices(&mut self.rand, n);
        proof {
            lemma_permutation_contains(order@, n as nat, start);
        }
        let pos = match index_of(&order, start) {
            Some(p) => {
                proof {
                    lemma_position_unique(order@, n as nat, start, p as int);
                }
                p
            },
            None => 0,
        };
        let mut rotated: Vec<usize> = Vec::new();
        let mut k: usize = pos;
        while k < n
            invariant
                pos <= k <= n,
                n == order@.len(),
                rotated@ == order@.subrange(pos as int, k as int),
            decreases n - k,
        {
            rotated.push(order[k]);
            k = k + 1;
            assert(rotated@ =~= order@.subrange(pos as int, k as int));
        }
        let mut k: usize = 0;
        while k < pos
            invariant
                k <= pos < n,
                n == order@.len(),
                rotated@ == order@.subrange(pos as int, n as int) + order@.subrange(0, k as int),
            decreases pos - k,
        {
            rotated.push(order[k]);
            k = k + 1;
            assert(rotated@ =~= order@.subrange(pos as int, n as int) + order@.subrange(0, k as int));
        }
        proof {
            lemma_rotate_permutation(order@, n as nat, pos as int);
            assert(rotated@ =~= rotate_left(order@, pos as int));
        }
        self.order = rotated;
        self.order_pos = 0;
        self.at_start = false;
    }

    /// Clears or redraws the order after the tracks or the current index changed.
    fn refresh_order(&mut self)
        requires
            old(self).tracks@.len() < usize::MAX,
            old(self).current matches Some(c) ==> c < old(self).tracks@.len(),
        ensures
            old(self)@.order_refreshed(final(self)@),
            final(self)@.wf(),
    {
        if self.shuffle {
            self.rebuild_order();
        } else {
            self.order.clear();
            self.order_pos = 0;
            self.at_start = self.current.is_none();
        }
    }

    /// Index of the current track, if any.
    pub fn current_index(&self) -> (r: Option<usize>)
        ensures
            r == self@.current,
    {
        self.current
    }

    /// A copy of the current track, if any.
    pub fn current(&self) -> (r: Option<Track>)
        ensures
            r == current_track(self@.tracks, self@.current),
    {
        match self.current {
            Some(index) => if index < self.tracks.len() {
                Some(self.tracks[index].clone())
            } else {
                None
            },
            None => None,
        }
    }

    /// Number of tracks in the queue.
    pub fn len(&self) -> (n: usize)
        ensures
            n == self@.tracks.len(),
    {
        self.tracks.len()
    }

    /// Whether the queue holds no tracks.
    pub fn is_empty(&self) -> (b: bool)
        ensures
            b == (self@.tracks.len() == 0),
    {
        self.tracks.len() == 0
    }

    /// Whether shuffle is enabled.
    pub fn shuffle(&self) -> (b: bool)
        ensures
            b == self@.shuffle,
    {
        self.shuffle
    }

    /// The current repeat mode.
    pub fn repeat(&self) -> (m: RepeatMode)
        ensures
            m == self@.repeat,
    {
        self.repeat
    }

    /// Sets the repeat mode.
    pub fn set_repeat(&mut self, mode: RepeatMode)
        requires
            old(self)@.wf(),
        ensures
            final(self)@ == (QueueState { repeat: mode, ..old(self)@ }),
            final(self)@.wf(),
    {
        self.repeat = mode;
    }

    /// Snapshot of all tracks in play order.
    pub fn tracks(&self) -> (v: Vec<Track>)
        ensures
            v@ == self@.tracks,
    {
        let mut v: Vec<Track> = Vec::new();
        let mut i: usize = 0;
        while i < self.tracks.len()
            invariant
                i <= self.tracks@.len(),
                v@ == self.tracks@.subrange(0, i as int),
            decreases self.tracks@.len() - i,
        {
            v.push(self.tracks[i].clone());
            i = i + 1;
            assert(v@ =~= self.tracks@.subrange(0, i as int));
        }
        assert(v@ =~= self.tracks@);
        v
    }
}


/// Index of the first track in `tracks` with the same content as `t`.
fn find_track(tracks: &Vec<Track>, t: &Track) -> (r: Option<usize>)
    ensures
        r == first_match(tracks@, *t),
        r matches Some(i) ==> i < tracks@.len(),
{
    let mut i: usize = 0;
    while i < tracks.len()
        invariant
            i <= tracks@.len(),
            forall|k: int| 0 <= k < i ==> !same_track(tracks@[k]@, t@),
        decreases tracks@.len() - i,
    {
        if tracks[i].same_as(t) {
            assert(exists|k: int| 0 <= k < tracks@.len() && same_track(tracks@[k]@, t@));
            let ghost w = choose|k: int|
                0 <= k < tracks@.len() && same_track(tracks@[k]@, t@) && forall|j: int|
                    0 <= j < k ==> !same_track(tracks@[j]@, t@);
            assert(0 <= i < tracks@.len() && same_track(tracks@[i as int]@, t@) && forall|j: int|
                0 <= j < i ==> !same_track(tracks@[j]@, t@));
            assert(w == i as int) by {
                if w < i {
                } else if w > i {
                    assert(!same_track(tracks@[i as int]@, t@));
                }
            }
            return Some(i);
        }
        i = i + 1;
    }
    None
}

impl Queue {
    /// Replaces the queue contents. The currently playing track is kept at its
    /// new position if it is still present, otherwise nothing is current.
    pub fn load(&mut self, tracks: Vec<Track>)
        requires
            old(self)@.wf(),
            tracks@.len() < usize::MAX,
        ensures
            final(self)@.wf(),
            load_spec(old(self)@, tracks@, final(self)@),
    {
        let current_track = self.current();
        self.tracks = tracks;
        self.current = match current_track {
            Some(track) => find_track(&self.tracks, &track),
            None => None,
        };
        self.refresh_order();
    }

    /// Selects the track at `index` as the current one and returns it, or
    /// `None` if the index is out of bounds.
    pub fn play_at(&mut self, index: usize) -> (r: Option<Track>)
        requires
            old(self)@.wf(),
        ensures
            final(self)@.wf(),
            index >= old(self)@.tracks.len() ==> r is None && final(self)@ == old(self)@,
            index < old(self)@.tracks.len() ==> {
                &&& r == Some(old(self)@.tracks[index as int])
                &&& final(self)@.current == Some(index)
                &&& if old(self)@.shuffle {
                    (QueueState { current: Some(index), ..old(self)@ }).reshuffled_from(
                        final(self)@,
                        index,
                    )
                } else {
                    final(self)@ == (QueueState { current: Some(index), ..old(self)@ })
                }
            },
    {
        if index >= self.tracks.len() {
            return None;
        }
        self.current = Some(index);
        if self.shuffle {
            self.rebuild_order_from(index);
        }
        Some(self.tracks[index].clone())
    }

    /// Updates the resolved file path of the track at `index` in place.
    ///
    /// Used by the player to persist a downloaded stream path so it is not
    /// re-downloaded on the next pass through the queue.
    pub fn set_track_path(&mut self, index: usize, path: String)
        requires
            old(self)@.wf(),
        ensures
            final(self)@.wf(),
            index >= old(self)@.tracks.len() ==> final(self)@ == old(self)@,
            index < old(self)@.tracks.len() ==> final(self)@ == (QueueState {
                tracks: old(self)@.tracks.update(
                    index as int,
                    Track { path: path, ..old(self)@.tracks[index as int] },
                ),
                ..old(self)@
            }),
    {
        if index < self.tracks.len() {
            let mut track = self.tracks[index].clone();
            track.path = path;
            self.tracks.set(index, track);
        }
    }

    /// Appends a track to the end of the queue.
    pub fn add(&mut self, track: Track)
        requires
            old(self)@.wf(),
            old(self)@.tracks.len() + 1 < usize::MAX,
        ensures
            final(self)@.wf(),
            if old(self)@.shuffle {
                (QueueState { tracks: old(self)@.tracks.push(track), ..old(self)@ }).reshuffled(
                    final(self)@,
                )
            } else {
                final(self)@ == (QueueState { tracks: old(self)@.tracks.push(track), ..old(self)@ })
            },
    {
        self.tracks.push(track);
        if self.shuffle {
            self.rebuild_order();
        }
    }

    /// Removes and returns the track at `index`, adjusting the current index.
    pub fn remove_at(&mut self, index: usize) -> (r: Option<Track>)
        requires
            old(self)@.wf(),
        ensures
            final(self)@.wf(),
            index >= old(self)@.tracks.len() ==> r is None && final(self)@ == old(self)@,
            index < old(self)@.tracks.len() ==> r == Some(old(self)@.tracks[index as int])
                && remove_spec(old(self)@, index, final(self)@),
    {
        if index >= self.tracks.len() {
            return None;
        }
        let removed = self.tracks.remove(index);
        if let Some(current) = self.current {
            if current == index {
                self.current = None;
            } else if current > index {
                self.current = Some(current - 1);
            }
        }
        self.refresh_order();
        Some(removed)
    }

    /// Empties the queue.
    pub fn clear(&mut self)
        requires
            old(self)@.wf(),
        ensures
            final(self)@.wf(),
            final(self)@.tracks.len() == 0,
            final(self)@.current is None,
            final(self)@.shuffle == old(self)@.shuffle,
            final(self)@.repeat == old(self)@.repeat,
            final(self)@.order.len() == 0,
            final(self)@.order_pos == 0,
            final(self)@.at_start,
            final(self)@.seed == old(self)@.seed,
    {
        self.tracks.clear();
        self.current = None;
        self.order.clear();
        self.order_pos = 0;
        self.at_start = true;
    }

    /// Enables or disables shuffle.
    pub fn set_shuffle(&mut self, shuffle: bool)
        requires
            old(self)@.wf(),
        ensures
            final(self)@.wf(),
            if shuffle {
                (QueueState { shuffle: true, ..old(self)@ }).reshuffled(final(self)@)
            } else {
                final(self)@ == (QueueState { shuffle: false, ..old(self)@ })
            },
    {
        self.shuffle = shuffle;
        if shuffle {
            self.rebuild_order();
        }
    }

    /// Index of the track to advance to, honouring shuffle and repeat rules.
    pub fn next(&mut self) -> (r: Option<usize>)
        requires
            old(self)@.wf(),
        ensures
            final(self)@.wf(),
            next_spec(old(self)@, final(self)@, r),
    {
        if self.tracks.len() == 0 {
            return None;
        }
        if self.shuffle {
            if self.repeat == RepeatMode::One {
                return self.current;
            }
            if self.order.len() == 0 {
                self.rebuild_order();
            }
            if self.at_start {
                self.at_start = false;
                return Some(self.order[0]);
            }
            if self.order_pos + 1 < self.order.len() {
                self.order_pos = self.order_pos + 1;
                return Some(self.order[self.order_pos]);
            }
            if self.repeat == RepeatMode::All {
                self.rebuild_order();
                if self.order_pos + 1 < self.order.len() {
                    self.order_pos = self.order_pos + 1;
                    return Some(self.order[self.order_pos]);
                }
                self.order_pos = 0;
                return Some(self.order[0]);
            }
            None
        } else {
            let current = match self.current {
                Some(c) => c,
                None => return None,
            };
            match self.repeat {
                RepeatMode::One => Some(current),
                _ => {
                    if current + 1 < self.tracks.len() {
                        Some(current + 1)
                    } else if self.repeat == RepeatMode::All {
                        Some(0)
                    } else {
                        None
                    }
                },
            }
        }
    }

    /// Index of the track to go back to, honouring shuffle and repeat rules.
    pub fn previous(&mut self) -> (r: Option<usize>)
        requires
            old(self)@.wf(),
        ensures
            final(self)@.wf(),
            previous_spec(old(self)@, final(self)@, r),
    {
        if self.tracks.len() == 0 {
            return None;
        }
        if self.shuffle {
            if self.order.len() == 0 {
                self.rebuild_order();
            }
            if self.at_start {
                return Some(self.order[0]);
            }
            if self.order_pos > 0 {
                self.order_pos = self.order_pos - 1;
                return Some(self.order[self.order_pos]);
            }
            if self.repeat == RepeatMode::All {
                self.order_pos = self.order.len() - 1;
                return Some(self.order[self.order_pos]);
            }
            Some(self.order[0])
        } else {
            let current = match self.current {
                Some(c) => c,
                None => return None,
            };
            if current > 0 {
                Some(current - 1)
            } else if self.repeat == RepeatMode::All {
                Some(self.tracks.len() - 1)
            } else {
                Some(0)
            }
        }
    }
}


/// Number of `Some` entries in `outs`.
pub open spec fn count_some(outs: Seq<Option<usize>>) -> nat
    decreases outs.len(),
{
    if outs.len() == 0 {
        0
    } else {
        count_some(outs.drop_last()) + if outs.last() is Some {
            1nat
        } else {
            0nat
        }
    }
}

/// `states` is a run of successive `next` calls that handed out `outs`.
pub open spec fn is_next_run(states: Seq<QueueState>, outs: Seq<Option<usize>>) -> bool {
    &&& states.len() == outs.len() + 1
    &&& forall|k: int| 0 <= k < outs.len() ==> #[trigger] next_spec(states[k], states[k + 1], outs[k])
}

/// Where a shuffle pass resumes: the first position not yet handed out.
pub open spec fn pass_base(q: QueueState) -> nat {
    if q.at_start {
        0
    } else {
        (q.order_pos + 1) as nat
    }
}

/// The part of the queue that stays fixed during a shuffle pass without repeat.
pub open spec fn pass_fixed(q: QueueState, tracks: Seq<Track>, order: Seq<usize>) -> bool {
    &&& q.tracks == tracks
    &&& q.order == order
    &&& q.shuffle
    &&& q.repeat == RepeatMode::Off
    &&& q.wf()
    &&& q.tracks.len() > 0
    &&& (q.at_start ==> q.order_pos == 0)
}

proof fn lemma_pass_step(q: QueueState, q2: QueueState, r: Option<usize>)
    requires
        pass_fixed(q, q.tracks, q.order),
        next_spec(q, q2, r),
    ensures
        pass_fixed(q2, q.tracks, q.order),
        r is Some ==> pass_base(q) < q.tracks.len() && r == Some(q.order[pass_base(q) as int])
            && pass_base(q2) == pass_base(q) + 1,
        r is None ==> pass_base(q) == q.tracks.len() && pass_base(q2) == pass_base(q),
{
}

#[verifier::rlimit(60)]
proof fn lemma_shuffle_run_step(states: Seq<QueueState>, outs: Seq<Option<usize>>, k: int)
    requires
        is_next_run(states, outs),
        pass_fixed(states[0], states[0].tracks, states[0].order),
        0 <= k <= outs.len(),
    ensures
        pass_fixed(states[k], states[0].tracks, states[0].order),
        pass_base(states[k]) == pass_base(states[0]) + count_some(outs.take(k)),
        forall|j: int|
            0 <= j < k && outs[j] is Some ==> outs[j] == Some(
                states[0].order[(pass_base(states[0]) + count_some(outs.take(j))) as int],
            ) && pass_base(states[0]) + count_some(outs.take(j)) < states[0].tracks.len(),
        forall|j: int|
            0 <= j < k && outs[j] is None ==> pass_base(states[0]) + count_some(outs.take(j))
                == states[0].tracks.len(),
    decreases k,
{
    if k > 0 {
        lemma_shuffle_run_step(states, outs, k - 1);
        let base = pass_base(states[0]);
        let o = states[0].order;
        let q = states[k - 1];
        assert(next_spec(states[k - 1], states[(k - 1) + 1], outs[k - 1]));
        lemma_pass_step(q, states[k], outs[k - 1]);
        assert(outs.take(k).drop_last() =~= outs.take(k - 1));
        assert(outs.take(k).last() == outs[k - 1]);
        assert(pass_base(q) == base + count_some(outs.take(k - 1)));
        assert forall|j: int| 0 <= j < k && outs[j] is Some implies outs[j] == Some(
            o[(base + count_some(outs.take(j))) as int],
        ) && base + count_some(outs.take(j)) < states[0].tracks.len() by {
            if j == k - 1 {
                assert(q.order == o);
            }
        }
        assert forall|j: int| 0 <= j < k && outs[j] is None implies base + count_some(outs.take(j))
            == states[0].tracks.len() by {
            if j == k - 1 {
                assert(q.tracks == states[0].tracks);
            }
        }
    }
}

/// Within one shuffle pass without repeat, `next` never hands out an index
/// twice: every index it returns is in range, the returned indices are
/// pairwise distinct, and it first returns `None` only once the whole order
/// (from where the pass stood) has been handed out.
pub proof fn law_shuffle_pass_distinct(states: Seq<QueueState>, outs: Seq<Option<usize>>)
    requires
        is_next_run(states, outs),
        states[0].wf(),
        states[0].shuffle,
        states[0].repeat == RepeatMode::Off,
        states[0].tracks.len() > 0,
        states[0].at_start ==> states[0].order_pos == 0,
    ensures
        forall|j: int| 0 <= j < outs.len() && #[trigger] outs[j] is Some ==> outs[j]->0 < states[0].tracks.len(),
        forall|i: int, j: int|
            0 <= i < j < outs.len() && outs[i] is Some && outs[j] is Some ==> outs[i] != outs[j],
        forall|j: int|
            0 <= j < outs.len() && #[trigger] outs[j] is None ==> pass_base(states[0]) + count_some(outs.take(j))
                == states[0].tracks.len(),
{
    lemma_shuffle_run_step(states, outs, outs.len() as int);
    let o = states[0].order;
    let b = pass_base(states[0]);
    assert forall|i: int, j: int|
        0 <= i < j < outs.len() && outs[i] is Some && outs[j] is Some implies outs[i] != outs[j] by {
        lemma_count_some_monotone(outs, i, j);
        assert(o[(b + count_some(outs.take(i))) as int] != o[(b + count_some(outs.take(j))) as int]);
    }
}

proof fn lemma_count_some_monotone(outs: Seq<Option<usize>>, i: int, j: int)
    requires
        0 <= i < j <= outs.len(),
        outs[i] is Some,
    ensures
        count_some(outs.take(i)) < count_some(outs.take(j)),
    decreases j - i,
{
    assert(outs.take(i + 1).drop_last() =~= outs.take(i));
    if j > i + 1 {
        lemma_count_some_monotone_le(outs, i + 1, j);
    }
}

proof fn lemma_count_some_monotone_le(outs: Seq<Option<usize>>, i: int, j: int)
    requires
        0 <= i <= j <= outs.len(),
    ensures
        count_some(outs.take(i)) <= count_some(outs.take(j)),
    decreases j - i,
{
    if j > i {
        assert(outs.take(j).drop_last() =~= outs.take(j - 1));
        lemma_count_some_monotone_le(outs, i, j - 1);
    }
}




/// The contract of [`Queue::load`]: the new tracks are in, the current track
/// is looked up again by content, and the order is refreshed.
pub open spec fn load_spec(old: QueueState, tracks: Seq<Track>, new: QueueState) -> bool {
    (QueueState {
        tracks: tracks,
        current: match current_track(old.tracks, old.current) {
            Some(t) => first_match(tracks, t),
            None => None,
        },
        ..old
    }).order_refreshed(new)
}

/// The contract of [`Queue::remove_at`] for an index in range.
pub open spec fn remove_spec(old: QueueState, index: usize, new: QueueState) -> bool {
    (QueueState {
        tracks: old.tracks.remove(index as int),
        current: match old.current {
            Some(c) => if c == index {
                None
            } else if c > index {
                Some((c - 1) as usize)
            } else {
                Some(c)
            },
            None => None,
        },
        ..old
    }).order_refreshed(new)
}

/// Loading new contents keeps playing the same song: when the current track
/// (by content) occurs in the new list, the new current track is the first
/// such occurrence; otherwise nothing is current.
pub proof fn law_load_keeps_current(old: QueueState, tracks: Seq<Track>, new: QueueState)
    requires
        old.wf(),
        tracks.len() <= usize::MAX,
        load_spec(old, tracks, new),
    ensures
        current_track(old.tracks, old.current) matches Some(t) ==> if exists|i: int|
            0 <= i < tracks.len() && same_track(tracks[i]@, t@) {
            current_track(new.tracks, new.current) matches Some(u) && same_track(u@, t@)
        } else {
            new.current is None
        },
        old.current is None ==> new.current is None,
{
    if let Some(t) = current_track(old.tracks, old.current) {
        if exists|i: int| 0 <= i < tracks.len() && same_track(tracks[i]@, t@) {
            let w = choose|i: int|
                0 <= i < tracks.len() && same_track(tracks[i]@, t@) && forall|j: int|
                    0 <= j < i ==> !same_track(tracks[j]@, t@);
            lemma_first_match_exists(tracks, t);
            assert(0 <= w < tracks.len() && same_track(tracks[w]@, t@));
            assert(first_match(tracks, t) == Some(w as usize));
            assert(new.tracks == tracks);
            assert(new.current == Some(w as usize));
        }
    }
}

proof fn lemma_first_match_exists(tracks: Seq<Track>, t: Track)
    requires
        exists|i: int| 0 <= i < tracks.len() && same_track(tracks[i]@, t@),
    ensures
        exists|i: int|
            0 <= i < tracks.len() && same_track(tracks[i]@, t@) && forall|j: int|
                0 <= j < i ==> !same_track(tracks[j]@, t@),
{
    let i0 = choose|i: int| 0 <= i < tracks.len() && same_track(tracks[i]@, t@);
    lemma_first_match_below(tracks, t, i0);
}

proof fn lemma_first_match_below(tracks: Seq<Track>, t: Track, i0: int)
    requires
        0 <= i0 < tracks.len(),
        same_track(tracks[i0]@, t@),
    ensures
        exists|i: int|
            0 <= i < tracks.len() && same_track(tracks[i]@, t@) && forall|j: int|
                0 <= j < i ==> !same_track(tracks[j]@, t@),
    decreases i0,
{
    if exists|j: int| 0 <= j < i0 && same_track(tracks[j]@, t@) {
        let j0 = choose|j: int| 0 <= j < i0 && same_track(tracks[j]@, t@);
        lemma_first_match_below(tracks, t, j0);
    } else {
        assert(forall|j: int| 0 <= j < i0 ==> !same_track(tracks[j]@, t@));
    }
}

/// Removing a track other than the current one keeps the same track current.
pub proof fn law_remove_keeps_current(old: QueueState, index: usize, new: QueueState)
    requires
        old.wf(),
        index < old.tracks.len(),
        old.current != Some(index),
        remove_spec(old, index, new),
    ensures
        current_track(new.tracks, new.current) == current_track(old.tracks, old.current),
{
}

/// Without shuffle, going back undoes going forward: when `next` moves on from
/// the current track (repeat off before the end, or repeat all anywhere),
/// `previous` from there leads back to it.
pub proof fn law_previous_undoes_next(n: nat, c: usize, repeat: RepeatMode)
    requires
        c < n <= usize::MAX,
        repeat != RepeatMode::One,
        repeat == RepeatMode::Off ==> c + 1 < n,
    ensures
        linear_next(n, Some(c), repeat) matches Some(d) && linear_previous(n, Some(d), repeat) == Some(c),
{
}

/// Under shuffle, once a pass has handed out its first track, `previous`
/// steps one place back in the shuffle order, whether or not a track is
/// current: it returns the index at the position before the cursor and
/// moves the cursor there, leaving everything else as it was.
pub proof fn law_shuffle_previous_steps_back(q0: QueueState, q1: QueueState, r: Option<usize>)
    requires
        q0.wf(),
        q0.shuffle,
        q0.tracks.len() > 0,
        !q0.at_start,
        0 < q0.order_pos,
        previous_spec(q0, q1, r),
    ensures
        r == Some(q0.order[q0.order_pos - 1]),
        q1 == (QueueState { order_pos: (q0.order_pos - 1) as usize, ..q0 }),
{
}

/// Under shuffle, stepping forward within a pass and then back is undone:
/// `previous` returns the index that was handed out before the step and
/// the queue is restored, whether or not a track is current.
pub proof fn law_shuffle_previous_undoes_next(
    q0: QueueState,
    q1: QueueState,
    r1: Option<usize>,
    q2: QueueState,
    r2: Option<usize>,
)
    requires
        q0.wf(),
        q0.shuffle,
        q0.repeat != RepeatMode::One,
        !q0.at_start,
        q0.order_pos + 1 < q0.tracks.len(),
        next_spec(q0, q1, r1),
        previous_spec(q1, q2, r2),
    ensures
        r1 == Some(q0.order[q0.order_pos + 1]),
        r2 == Some(q0.order[q0.order_pos as int]),
        q2 == q0,
{
}

/// Under shuffle, `previous` at the front of a pass stays in the order:
/// before the pass has handed anything out it names the first track of the
/// order and changes nothing; at the first position it wraps to the last
/// track of the order under repeat-all and otherwise names the first one
/// again, leaving the queue as it was.
pub proof fn law_shuffle_previous_at_front(q0: QueueState, q1: QueueState, r: Option<usize>)
    requires
        q0.wf(),
        q0.shuffle,
        q0.tracks.len() > 0,
        q0.at_start || q0.order_pos == 0,
        previous_spec(q0, q1, r),
    ensures
        q0.at_start ==> r == Some(q0.order[0]) && q1 == q0,
        !q0.at_start && q0.repeat == RepeatMode::All ==> r == Some(q0.order[q0.tracks.len() - 1])
            && q1 == (QueueState { order_pos: (q0.tracks.len() - 1) as usize, ..q0 }),
        !q0.at_start && q0.repeat != RepeatMode::All ==> r == Some(q0.order[0]) && q1 == q0,
{
}

} // verus!
