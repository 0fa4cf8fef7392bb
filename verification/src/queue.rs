//! The playback queue: its items, the order in which they play (shuffled or
//! not), the item now playing, and the repeat and shuffle settings.
//!
//! Every operation that the player has to carry out is returned as a
//! [`PlayerAction`]; the caller performs it.
use rand::seq::SliceRandom;
use rand::Rng;
use vstd::prelude::*;

use crate::config::PlaybackState;

verus! {

/// Repeat behavior for the [Queue].
#[derive(Clone, Copy, Debug, PartialEq, Eq, Structural)]
pub enum RepeatSetting {
    /// No repetition (named `None` in the settings it is shown with).
    Off,
    RepeatPlaylist,
    RepeatTrack,
}

impl RepeatSetting {
    /// The variant's name, as the derived `Display` writes it.
    pub fn to_string(&self) -> (r: String)
        ensures
            r@ == repeat_name(*self),
    {
        match self {
            RepeatSetting::Off => String::from_str("None"),
            RepeatSetting::RepeatPlaylist => String::from_str("RepeatPlaylist"),
            RepeatSetting::RepeatTrack => String::from_str("RepeatTrack"),
        }
    }
}

pub open spec fn repeat_name(r: RepeatSetting) -> Seq<char> {
    match r {
        RepeatSetting::Off => "None"@,
        RepeatSetting::RepeatPlaylist => "RepeatPlaylist"@,
        RepeatSetting::RepeatTrack => "RepeatTrack"@,
    }
}

/// Events that are specific to the [Queue].
#[derive(Clone, Copy, Debug, PartialEq, Eq, Structural)]
pub enum QueueEvent {
    /// Request the player to 'preload' a track, basically making sure that
    /// transitions between tracks can be uninterrupted.
    PreloadTrackRequest,
}

/// What the player reports about its own state.
#[derive(Clone, Copy, Debug, PartialEq, Eq, Structural)]
pub enum PlayerStatus {
    Playing,
    Paused,
    Stopped,
    /// Any other state (loading, finished and the like).
    Other,
}

/// What the player has to do after a queue operation.
#[derive(Clone, Copy, Debug, PartialEq, Eq, Structural)]
pub enum PlayerAction {
    Nothing,
    /// Load the queue item at this index and start playing it.
    Load(usize),
    /// Stop playback.
    Stop,
    /// Toggle between playing and paused.
    TogglePlayback,
}

/// The position of `c` in the play order `o`: its first occurrence.
pub open spec fn order_pos(o: Seq<usize>, c: usize) -> int {
    choose|p: int| 0 <= p < o.len() && o[p] == c && forall|j: int| 0 <= j < p ==> o[j] != c
}

/// The position in the play order of the item at `c`.
pub open spec fn play_position(order: Option<Seq<usize>>, c: usize) -> int {
    match order {
        Some(o) => order_pos(o, c),
        None => c as int,
    }
}

/// The item index at position `p` of the play order.
pub open spec fn entry_at(order: Option<Seq<usize>>, p: int) -> int {
    match order {
        Some(o) => o[p] as int,
        None => p,
    }
}

/// The index of the next item to play in a queue of `len` items, or `None`
/// at the end of the queue.
pub open spec fn next_index_of(len: int, order: Option<Seq<usize>>, current: Option<usize>) -> Option<
    usize,
> {
    match current {
        None => None,
        Some(c) => {
            let p = play_position(order, c);
            if p + 1 < len {
                Some(entry_at(order, p + 1) as usize)
            } else {
                None
            }
        },
    }
}

/// The index of the previous item to play, or `None` at the start.
pub open spec fn previous_index_of(order: Option<Seq<usize>>, current: Option<usize>) -> Option<
    usize,
> {
    match current {
        None => None,
        Some(c) => {
            let p = play_position(order, c);
            if p > 0 {
                Some(entry_at(order, p - 1) as usize)
            } else {
                None
            }
        },
    }
}

/// The play order can be looked up without failing: the current item occurs
/// in it.
pub open spec fn order_knows_current(order: Option<Seq<usize>>, current: Option<usize>) -> bool {
    match (order, current) {
        (Some(o), Some(c)) => o.contains(c),
        _ => true,
    }
}

/// `next_index` can be computed without failing.
pub open spec fn next_index_defined(len: int, order: Option<Seq<usize>>, current: Option<usize>) -> bool {
    &&& order_knows_current(order, current)
    &&& match (order, current) {
        (Some(o), Some(c)) => order_pos(o, c) + 1 < len ==> order_pos(o, c) + 1 < o.len(),
        _ => true,
    }
}

/// Playing the item at `i`: the new current item and the player action.
pub open spec fn play_effect(len: int, current: Option<usize>, i: usize) -> (Option<usize>, PlayerAction) {
    if i < len {
        (Some(i), PlayerAction::Load(i))
    } else {
        (current, PlayerAction::Nothing)
    }
}

/// The first item of the play order, or `0` when there is no shuffled order.
pub open spec fn first_in_order(order: Option<Seq<usize>>) -> usize {
    match order {
        Some(o) => o[0],
        None => 0,
    }
}

/// Advancing to the next item: the new current item, repeat setting and
/// player action.
pub open spec fn next_of(
    len: int,
    order: Option<Seq<usize>>,
    current: Option<usize>,
    repeat: RepeatSetting,
    manual: bool,
) -> (Option<usize>, RepeatSetting, PlayerAction) {
    if repeat == RepeatSetting::RepeatTrack && !manual {
        match current {
            Some(i) => {
                let (c, a) = play_effect(len, current, i);
                (c, repeat, a)
            },
            None => (current, repeat, PlayerAction::Nothing),
        }
    } else {
        match next_index_of(len, order, current) {
            Some(i) => {
                let (c, a) = play_effect(len, current, i);
                (
                    c,
                    if repeat == RepeatSetting::RepeatTrack && manual {
                        RepeatSetting::RepeatPlaylist
                    } else {
                        repeat
                    },
                    a,
                )
            },
            None => {
                if repeat == RepeatSetting::RepeatPlaylist && len > 0 {
                    let (c, a) = play_effect(len, current, first_in_order(order));
                    (c, repeat, a)
                } else {
                    (current, repeat, PlayerAction::Stop)
                }
            },
        }
    }
}

/// `next` can run without failing.
pub open spec fn next_defined(
    len: int,
    order: Option<Seq<usize>>,
    current: Option<usize>,
    repeat: RepeatSetting,
    manual: bool,
) -> bool {
    (repeat == RepeatSetting::RepeatTrack && !manual) || (next_index_defined(len, order, current) && (
    next_index_of(len, order, current) is None && repeat == RepeatSetting::RepeatPlaylist && len > 0
        ==> (order matches Some(o) ==> o.len() > 0)))
}

/// Going back to the previous item: the new current item and the player action.
pub open spec fn previous_of(
    len: int,
    order: Option<Seq<usize>>,
    current: Option<usize>,
    repeat: RepeatSetting,
    shuffle: bool,
) -> (Option<usize>, PlayerAction) {
    match previous_index_of(order, current) {
        Some(i) => play_effect(len, current, i),
        None => {
            if repeat == RepeatSetting::RepeatPlaylist && len > 0 {
                if shuffle {
                    play_effect(
                        len,
                        current,
                        match order {
                            Some(o) => o[len - 1],
                            None => 0,
                        },
                    )
                } else {
                    play_effect(len, current, (len - 1) as usize)
                }
            } else {
                match current {
                    Some(i) => play_effect(len, current, i),
                    None => (current, PlayerAction::Nothing),
                }
            }
        },
    }
}

/// `previous` can run without failing.
pub open spec fn previous_defined(
    len: int,
    order: Option<Seq<usize>>,
    current: Option<usize>,
    repeat: RepeatSetting,
    shuffle: bool,
) -> bool {
    &&& order_knows_current(order, current)
    &&& (previous_index_of(order, current) is None && repeat == RepeatSetting::RepeatPlaylist && len
        > 0 && shuffle) ==> (order matches Some(o) ==> o.len() >= len)
}

/// `o` is a shuffled play order for `len` items that starts at `current`:
/// every index below `len` occurs exactly once.
pub open spec fn fresh_order(o: Seq<usize>, len: int, current: Option<usize>) -> bool {
    &&& o.len() == len
    &&& o.no_duplicates()
    &&& forall|i: int| 0 <= i < o.len() ==> o[i] < len
    &&& current matches Some(c) ==> o[0] == c
}

/// The state just after removing the item at `index` (from a queue that
/// had `len` items), before the shuffled order is regenerated: the current
/// item, the repeat setting and the player action.
pub open spec fn remove_step(
    len: int,
    order: Option<Seq<usize>>,
    current: Option<usize>,
    repeat: RepeatSetting,
    index: usize,
) -> (Option<usize>, RepeatSetting, PlayerAction) {
    let n = len - 1;
    if n == 0 {
        (None, repeat, PlayerAction::Stop)
    } else {
        match current {
            None => (current, repeat, PlayerAction::Nothing),
            Some(c) => {
                if c == index {
                    if c == n {
                        if repeat == RepeatSetting::RepeatPlaylist {
                            next_of(n, order, current, repeat, false)
                        } else {
                            (None, repeat, PlayerAction::Stop)
                        }
                    } else {
                        let (cc, a) = play_effect(n, current, index);
                        (cc, repeat, a)
                    }
                } else if c > index {
                    (Some((c - 1) as usize), repeat, PlayerAction::Nothing)
                } else {
                    (current, repeat, PlayerAction::Nothing)
                }
            },
        }
    }
}

/// `remove` can run without failing.
pub open spec fn remove_defined(
    len: int,
    order: Option<Seq<usize>>,
    current: Option<usize>,
    repeat: RepeatSetting,
    shuffle: bool,
    index: usize,
) -> bool {
    len == 0 || (index < len && {
        let n = len - 1;
        &&& (n > 0 && current == Some(index) && index == n && repeat == RepeatSetting::RepeatPlaylist)
            ==> next_defined(n, order, current, repeat, false)
        &&& (n > 0 && shuffle) ==> (remove_step(len, order, current, repeat, index).0 matches Some(
            c,
        ) ==> c < n)
    })
}

/// The queue determines the playback order of its items, and is also used to
/// control playback itself.
pub struct Queue<T> {
    /// The items, which don't change with shuffle or repeat.
    pub queue: Vec<T>,
    /// The playback order of the queue, as indices into `queue`.
    pub random_order: Option<Vec<usize>>,
    /// The index of the item now playing.
    pub current_track: Option<usize>,
    pub repeat: RepeatSetting,
    pub shuffle: bool,
}

/// The persisted part of a queue.
pub struct QueueState<T> {
    pub current_track: Option<usize>,
    pub random_order: Option<Vec<usize>>,
    pub track_progress_ms: u64,
    pub queue: Vec<T>,
}

/// What the player does with the restored current item on start-up.
#[derive(Clone, Copy, Debug, PartialEq, Eq, Structural)]
pub struct ResumeAction {
    /// The index of the item to load.
    pub index: usize,
    /// Whether loading starts playback.
    pub start_playing: bool,
    /// The position to load at, in milliseconds.
    pub position_ms: u32,
    /// Whether playback is then stopped (otherwise it is paused).
    pub stop: bool,
}

impl<T> Queue<T> {
    pub open spec fn len_spec(&self) -> int {
        self.queue@.len() as int
    }

    pub open spec fn order_view(&self) -> Option<Seq<usize>> {
        match self.random_order {
            Some(o) => Some(o@),
            None => None,
        }
    }

    /// The current item, if any, is an index into the queue.
    pub open spec fn wf(&self) -> bool {
        self.current_track matches Some(c) ==> c < self.queue@.len()
    }

    /// A queue restored from `state`, with the given settings.
    pub fn new(state: QueueState<T>, repeat: RepeatSetting, shuffle: bool) -> (r: Queue<T>)
        ensures
            r.queue@ == state.queue@,
            r.random_order == state.random_order,
            r.current_track == state.current_track,
            r.repeat == repeat,
            r.shuffle == shuffle,
    {
        Queue {
            queue: state.queue,
            random_order: state.random_order,
            current_track: state.current_track,
            repeat,
            shuffle,
        }
    }

    /// What the player does on start-up with the restored current item: load
    /// it at the saved position, playing only if playback was saved as
    /// playing, and then stop it if it was saved as stopped, else pause it.
    pub fn resume_action(&self, playback_state: PlaybackState, track_progress_ms: u64) -> (r:
        Option<ResumeAction>)
        ensures
            match self.current_track {
                None => r is None,
                Some(c) => r == Some(
                    ResumeAction {
                        index: c,
                        start_playing: playback_state == PlaybackState::Playing,
                        position_ms: track_progress_ms as u32,
                        stop: playback_state == PlaybackState::Stopped,
                    },
                ),
            },
    {
        match self.current_track {
            None => None,
            Some(c) => Some(
                ResumeAction {
                    index: c,
                    start_playing: playback_state == PlaybackState::Playing,
                    position_ms: track_progress_ms as u32,
                    stop: playback_state == PlaybackState::Stopped,
                },
            ),
        }
    }

    /// The first position of `c` in the play order `o`.
    fn position_of(o: &Vec<usize>, c: usize) -> (r: usize)
        requires
            o@.contains(c),
        ensures
            r == order_pos(o@, c),
            0 <= r < o@.len(),
            o@[r as int] == c,
    {
        let mut i: usize = 0;
        while i < o.len()
            invariant
                o@.contains(c),
                i <= o@.len(),
                forall|j: int| 0 <= j < i ==> o@[j] != c,
            decreases o@.len() - i,
        {
            if o[i] == c {
                assert(0 <= i < o@.len() && o@[i as int] == c && forall|j: int|
                    0 <= j < i ==> o@[j] != c);
                let ghost p = order_pos(o@, c);
                assert(p == i) by {
                    if p < i {
                        assert(o@[p] != c);
                    }
                    if p > i {
                        assert(o@[i as int] != c);
                    }
                }
                return i;
            }
            i = i + 1;
        }
        assert(false);
        0
    }

    /// The index of the next item in `queue` that should be played. None
    /// if at the end of the queue.
    pub fn next_index(&self) -> (r: Option<usize>)
        requires
            next_index_defined(self.len_spec(), self.order_view(), self.current_track),
        ensures
            r == next_index_of(self.len_spec(), self.order_view(), self.current_track),
    {
        match self.current_track {
            Some(c) => {
                let mut index = c;
                if let Some(order) = &self.random_order {
                    index = Self::position_of(order, c);
                }
                if index < self.queue.len() && index + 1 < self.queue.len() {
                    let mut next_index = index + 1;
                    if let Some(order) = &self.random_order {
                        next_index = order[next_index];
                    }
                    Some(next_index)
                } else {
                    None
                }
            },
            None => None,
        }
    }

    /// The index of the previous item in `queue` that should be played.
    /// None if at the start of the queue.
    pub fn previous_index(&self) -> (r: Option<usize>)
        requires
            order_knows_current(self.order_view(), self.current_track),
        ensures
            r == previous_index_of(self.order_view(), self.current_track),
    {
        match self.current_track {
            Some(c) => {
                let mut index = c;
                if let Some(order) = &self.random_order {
                    index = Self::position_of(order, c);
                }
                if index > 0 {
                    let mut prev = index - 1;
                    if let Some(order) = &self.random_order {
                        prev = order[prev];
                    }
                    Some(prev)
                } else {
                    None
                }
            },
            None => None,
        }
    }

    /// The currently playing item.
    pub fn get_current(&self) -> (r: Option<&T>)
        requires
            self.wf(),
        ensures
            match self.current_track {
                None => r is None,
                Some(c) => r == Some(&self.queue@[c as int]),
            },
    {
        match self.current_track {
            Some(c) => Some(&self.queue[c]),
            None => None,
        }
    }

    /// The index of the currently playing item.
    pub fn get_current_index(&self) -> (r: Option<usize>)
        ensures
            r == self.current_track,
    {
        self.current_track
    }

    /// The amount of items in the queue.
    pub fn len(&self) -> (r: usize)
        ensures
            r == self.queue@.len(),
    {
        self.queue.len()
    }

    /// Get the current repeat behavior.
    pub fn get_repeat(&self) -> (r: RepeatSetting)
        ensures
            r == self.repeat,
    {
        self.repeat
    }

    /// Set the current repeat behavior.
    pub fn set_repeat(&mut self, new: RepeatSetting)
        ensures
            final(self).repeat == new,
            final(self).queue@ == old(self).queue@,
            final(self).random_order == old(self).random_order,
            final(self).current_track == old(self).current_track,
            final(self).shuffle == old(self).shuffle,
    {
        self.repeat = new;
    }

    /// Get the current shuffle behavior.
    pub fn get_shuffle(&self) -> (r: bool)
        ensures
            r == self.shuffle,
    {
        self.shuffle
    }

    /// Get the current order that is used to shuffle.
    pub fn get_random_order(&self) -> (r: Option<Vec<usize>>)
        ensures
            match self.random_order {
                None => r is None,
                Some(o) => r matches Some(v) && v@ == o@,
            },
    {
        match &self.random_order {
            None => None,
            Some(o) => Some(o.clone()),
        }
    }
}

/// Shuffles `v` in place with `rand`'s `SliceRandom::shuffle` and the thread's
/// generator. Claimed: the result is a permutation of `v` (same elements,
/// same multiplicities); which permutation is left open.
#[verifier::external_body]
fn shuffle_in_place(v: &mut Vec<usize>)
    ensures
        final(v)@.to_multiset() == old(v)@.to_multiset(),
{
    v.shuffle(&mut rand::thread_rng());
}

/// Draws an index below `n` with `rand`'s `Rng::gen_range(0..n)` on the
/// thread's generator. Claimed: the result is below `n`; which one is left
/// open. `gen_range` panics on an empty range, hence `n > 0`.
#[verifier::external_body]
fn random_below(n: usize) -> (r: usize)
    requires
        n > 0,
    ensures
        r < n,
{
    rand::thread_rng().gen_range(0..n)
}

proof fn lemma_fresh_order(o: Seq<usize>, rest: Seq<usize>, src: Seq<usize>, len: int, current: Option<usize>)
    requires
        rest.to_multiset() == src.to_multiset(),
        src.no_duplicates(),
        forall|i: int| 0 <= i < src.len() ==> src[i] < len,
        match current {
            Some(c) => o == seq![c] + rest && src.len() == len - 1 && c < len && !src.contains(c),
            None => o == rest && src.len() == len,
        },
    ensures
        fresh_order(o, len, current),
{
    broadcast use vstd::seq_lib::group_to_multiset_ensures;

    src.lemma_multiset_has_no_duplicates();
    assert forall|x: usize| rest.to_multiset().contains(x) implies rest.to_multiset().count(x) == 1 by {
    }
    rest.lemma_multiset_has_no_duplicates_conv();
    assert forall|i: int| 0 <= i < rest.len() implies rest[i] < len by {
        assert(rest.contains(rest[i]));
        assert(src.to_multiset().count(rest[i]) > 0);
        assert(src.contains(rest[i]));
    }
    assert(rest.len() == src.len()) by {
        rest.to_multiset_ensures();
        src.to_multiset_ensures();
    }
    if let Some(c) = current {
        assert(!rest.contains(c)) by {
            if rest.contains(c) {
                assert(rest.to_multiset().count(c) > 0);
                assert(src.contains(c));
            }
        }
        assert forall|i: int, j: int| 0 <= i < o.len() && 0 <= j < o.len() && i != j implies o[i]
            != o[j] by {
            if i == 0 && j > 0 {
                assert(o[j] == rest[j - 1]);
                assert(rest.contains(rest[j - 1]));
            } else if j == 0 && i > 0 {
                assert(o[i] == rest[i - 1]);
                assert(rest.contains(rest[i - 1]));
            } else {
                assert(o[i] == rest[i - 1] && o[j] == rest[j - 1]);
            }
        }
        assert forall|i: int| 0 <= i < o.len() implies o[i] < len by {
            if i > 0 {
                assert(o[i] == rest[i - 1]);
            }
        }
    }
}

impl<T> Queue<T> {
    /// (Re)generate the random shuffle order: the current item first, then
    /// every other index in an order chosen at random.
    pub fn generate_random_order(&mut self)
        requires
            old(self).wf(),
        ensures
            final(self).random_order matches Some(o) && fresh_order(
                o@,
                old(self).len_spec(),
                old(self).current_track,
            ),
            final(self).queue@ == old(self).queue@,
            final(self).current_track == old(self).current_track,
            final(self).repeat == old(self).repeat,
            final(self).shuffle == old(self).shuffle,
    {
        broadcast use vstd::seq_lib::group_to_multiset_ensures;

        let n = self.queue.len();
        let mut order: Vec<usize> = Vec::new();
        let mut random: Vec<usize> = Vec::new();
        let mut i: usize = 0;
        while i < n
            invariant
                i <= n,
                random@.len() == i,
                forall|j: int| 0 <= j < i ==> random@[j] == j,
            decreases n - i,
        {
            random.push(i);
            i = i + 1;
        }
        let ghost full = random@;
        assert(full.no_duplicates());
        if let Some(current) = self.current_track {
            order.push(current);
            random.remove(current);
            assert(!random@.contains(current)) by {
                if random@.contains(current) {
                    let k = choose|k: int| 0 <= k < random@.len() && random@[k] == current;
                    if k < current {
                        assert(random@[k] == full[k]);
                    } else {
                        assert(random@[k] == full[k + 1]);
                    }
                }
            }
            assert forall|a: int, b: int|
                0 <= a < random@.len() && 0 <= b < random@.len() && a != b implies random@[a]
                != random@[b] by {
                let fa = if a < current { a } else { a + 1 };
                let fb = if b < current { b } else { b + 1 };
                assert(random@[a] == full[fa]);
                assert(random@[b] == full[fb]);
            }
            assert forall|a: int| 0 <= a < random@.len() implies random@[a] < n by {
                let fa = if a < current { a } else { a + 1 };
                assert(random@[a] == full[fa]);
            }
        }
        let ghost src = random@;
        shuffle_in_place(&mut random);
        let ghost rest = random@;
        order.append(&mut random);
        proof {
            if let Some(c) = self.current_track {
                assert(order@ =~= seq![c] + rest);
            } else {
                assert(order@ =~= rest);
            }
            lemma_fresh_order(order@, rest, src, n as int, self.current_track);
        }
        self.random_order = Some(order);
    }

    /// Set the current shuffle behavior; switching it on draws a new random
    /// order, switching it off drops the order.
    pub fn set_shuffle(&mut self, new: bool)
        requires
            new ==> old(self).wf(),
        ensures
            final(self).shuffle == new,
            new ==> (final(self).random_order matches Some(o) && fresh_order(
                o@,
                old(self).len_spec(),
                old(self).current_track,
            )),
            !new ==> final(self).random_order is None,
            final(self).queue@ == old(self).queue@,
            final(self).current_track == old(self).current_track,
            final(self).repeat == old(self).repeat,
    {
        self.shuffle = new;
        if new {
            self.generate_random_order();
        } else {
            self.random_order = None;
        }
    }

    /// Makes the item at `index` the current one, if there is such an item,
    /// and says what the player has to do.
    pub fn select(&mut self, index: usize) -> (r: PlayerAction)
        ensures
            (final(self).current_track, r) == play_effect(
                old(self).len_spec(),
                old(self).current_track,
                index,
            ),
            final(self).queue@ == old(self).queue@,
            final(self).random_order == old(self).random_order,
            final(self).repeat == old(self).repeat,
            final(self).shuffle == old(self).shuffle,
    {
        if index < self.queue.len() {
            self.current_track = Some(index);
            PlayerAction::Load(index)
        } else {
            PlayerAction::Nothing
        }
    }

    /// Play the item at `index`.
    ///
    /// `reshuffle`: Reshuffle the current order of the queue.
    /// `shuffle_index`: If this is true (and shuffle is on and the queue is
    /// not empty), `index` isn't actually used, but is chosen at random as a
    /// valid index in the queue.
    pub fn play(&mut self, index: usize, reshuffle: bool, shuffle_index: bool) -> (r: PlayerAction)
        requires
            (reshuffle && old(self).shuffle) ==> ((shuffle_index && old(self).len_spec() > 0) || index
                < old(self).len_spec() || old(self).wf()),
        ensures
            !(shuffle_index && old(self).shuffle && old(self).len_spec() > 0) ==> (
            final(self).current_track,
            r,
        ) == play_effect(old(self).len_spec(), old(self).current_track, index),
            (shuffle_index && old(self).shuffle && old(self).len_spec() > 0) ==> (r matches PlayerAction::Load(
                i,
            ) && i < old(self).len_spec() && final(self).current_track == Some(i)),
            (reshuffle && old(self).shuffle) ==> (final(self).random_order matches Some(o)
                && fresh_order(o@, old(self).len_spec(), final(self).current_track)),
            !(reshuffle && old(self).shuffle) ==> final(self).random_order == old(self).random_order,
            final(self).queue@ == old(self).queue@,
            final(self).repeat == old(self).repeat,
            final(self).shuffle == old(self).shuffle,
    {
        let mut index = index;
        let n = self.queue.len();
        if n > 0 && shuffle_index && self.shuffle {
            index = random_below(n);
        }
        let r = self.select(index);
        if reshuffle && self.shuffle {
            self.generate_random_order();
        }
        r
    }

    /// Stop playback: nothing is current any more; the player is to stop.
    pub fn stop(&mut self) -> (r: PlayerAction)
        ensures
            r == PlayerAction::Stop,
            final(self).current_track is None,
            final(self).queue@ == old(self).queue@,
            final(self).random_order == old(self).random_order,
            final(self).repeat == old(self).repeat,
            final(self).shuffle == old(self).shuffle,
    {
        self.current_track = None;
        PlayerAction::Stop
    }

    /// Play the next song in the queue.
    ///
    /// `manual`: If this is true, normal queue logic like repeat will not be
    /// used, and the next track will actually be played.
    pub fn next(&mut self, manual: bool) -> (r: PlayerAction)
        requires
            next_defined(
                old(self).len_spec(),
                old(self).order_view(),
                old(self).current_track,
                old(self).repeat,
                manual,
            ),
        ensures
            (final(self).current_track, final(self).repeat, r) == next_of(
                old(self).len_spec(),
                old(self).order_view(),
                old(self).current_track,
                old(self).repeat,
                manual,
            ),
            final(self).queue@ == old(self).queue@,
            final(self).random_order == old(self).random_order,
            final(self).shuffle == old(self).shuffle,
    {
        let repeat = self.repeat;
        if repeat == RepeatSetting::RepeatTrack && !manual {
            if let Some(index) = self.current_track {
                self.select(index)
            } else {
                PlayerAction::Nothing
            }
        } else if let Some(index) = self.next_index() {
            let a = self.select(index);
            if repeat == RepeatSetting::RepeatTrack && manual {
                self.repeat = RepeatSetting::RepeatPlaylist;
            }
            a
        } else if repeat == RepeatSetting::RepeatPlaylist && self.queue.len() > 0 {
            let first = match &self.random_order {
                Some(o) => o[0],
                None => 0,
            };
            self.select(first)
        } else {
            PlayerAction::Stop
        }
    }

    /// Play the previous item in the queue.
    pub fn previous(&mut self) -> (r: PlayerAction)
        requires
            previous_defined(
                old(self).len_spec(),
                old(self).order_view(),
                old(self).current_track,
                old(self).repeat,
                old(self).shuffle,
            ),
        ensures
            (final(self).current_track, r) == previous_of(
                old(self).len_spec(),
                old(self).order_view(),
                old(self).current_track,
                old(self).repeat,
                old(self).shuffle,
            ),
            final(self).queue@ == old(self).queue@,
            final(self).random_order == old(self).random_order,
            final(self).repeat == old(self).repeat,
            final(self).shuffle == old(self).shuffle,
    {
        let n = self.queue.len();
        if let Some(index) = self.previous_index() {
            self.select(index)
        } else if self.repeat == RepeatSetting::RepeatPlaylist && n > 0 {
            if self.shuffle {
                let target = match &self.random_order {
                    Some(o) => o[n - 1],
                    None => 0,
                };
                self.select(target)
            } else {
                self.select(n - 1)
            }
        } else if let Some(index) = self.current_track {
            self.select(index)
        } else {
            PlayerAction::Nothing
        }
    }

    /// Toggle the playback. If playback is currently stopped, this will either
    /// play the next song if one is available, or restart from the start.
    pub fn toggleplayback(&mut self, status: PlayerStatus) -> (r: PlayerAction)
        requires
            status == PlayerStatus::Stopped ==> next_index_defined(
                old(self).len_spec(),
                old(self).order_view(),
                old(self).current_track,
            ),
        ensures
            (status == PlayerStatus::Playing || status == PlayerStatus::Paused) ==> (r
                == PlayerAction::TogglePlayback && final(self).current_track == old(self).current_track && final(self).repeat == old(self).repeat),
            status == PlayerStatus::Stopped ==> match next_index_of(
                old(self).len_spec(),
                old(self).order_view(),
                old(self).current_track,
            ) {
                Some(_) => (final(self).current_track, final(self).repeat, r) == next_of(
                    old(self).len_spec(),
                    old(self).order_view(),
                    old(self).current_track,
                    old(self).repeat,
                    false,
                ),
                None => (final(self).current_track, r) == play_effect(
                    old(self).len_spec(),
                    old(self).current_track,
                    0,
                ) && final(self).repeat == old(self).repeat,
            },
            status == PlayerStatus::Other ==> (r == PlayerAction::Nothing && final(self).current_track
                == old(self).current_track && final(self).repeat == old(self).repeat),
            final(self).queue@ == old(self).queue@,
            final(self).random_order == old(self).random_order,
            final(self).shuffle == old(self).shuffle,
    {
        match status {
            PlayerStatus::Playing | PlayerStatus::Paused => PlayerAction::TogglePlayback,
            PlayerStatus::Stopped => match self.next_index() {
                Some(_) => {
                    proof {
                        assert(next_index_of(
                            self.len_spec(),
                            self.order_view(),
                            self.current_track,
                        ) is Some);
                    }
                    self.next(false)
                },
                None => self.select(0),
            },
            PlayerStatus::Other => PlayerAction::Nothing,
        }
    }

    /// The index to preload when the player asks for it: the next item.
    pub fn handle_event(&self, event: QueueEvent) -> (r: Option<usize>)
        requires
            next_index_defined(self.len_spec(), self.order_view(), self.current_track),
        ensures
            r == next_index_of(self.len_spec(), self.order_view(), self.current_track),
    {
        match event {
            QueueEvent::PreloadTrackRequest => self.next_index(),
        }
    }
}


/// The play order after inserting an item right after the item at `index`,
/// which sits at position `pos` of the order: indices after `index` move up
/// by one and the new item's index `index + 1` follows position `pos`.
pub open spec fn order_after_insert(o: Seq<usize>, index: usize, pos: int) -> Seq<usize> {
    o.map_values(|x: usize| if x > index { (x + 1) as usize } else { x }).insert(
        pos + 1,
        (index + 1) as usize,
    )
}

/// The play order after appending to a queue of `len` items: the new item's
/// index `len` is played last.
pub open spec fn order_after_append(o: Seq<usize>, len: int) -> Seq<usize> {
    o.push(len as usize)
}

/// `o` is a play order for a queue of `len` items: every index below `len`
/// occurs in it exactly once.
pub open spec fn is_play_order(o: Seq<usize>, len: int) -> bool {
    &&& o.len() == len
    &&& o.no_duplicates()
    &&& forall|i: int| 0 <= i < o.len() ==> o[i] < len
}

/// The play order after inserting `k` items at index `first`: indices from
/// `first` on move up by `k`, and the new indices `first .. first + k` follow
/// the current item (at the end when nothing is playing or the current item
/// is not in the order).
pub open spec fn order_after_append_next(o: Seq<usize>, first: int, k: int, current: Option<usize>) -> Seq<
    usize,
> {
    let bumped = o.map_values(|x: usize| if x >= first { (x + k) as usize } else { x });
    let added = index_range(first, first + k);
    match current {
        Some(c) => if o.contains(c) {
            bumped.take(order_pos(o, c) + 1) + added + bumped.skip(order_pos(o, c) + 1)
        } else {
            bumped + added
        },
        None => bumped + added,
    }
}

/// The indices `lo, lo + 1, ..., hi - 1`.
pub open spec fn index_range(lo: int, hi: int) -> Seq<usize> {
    Seq::new((if hi > lo { hi - lo } else { 0 }) as nat, |i: int| (lo + i) as usize)
}

/// Where `append_next` inserts: after the current item, or at the end.
pub open spec fn append_next_at(len: int, current: Option<usize>) -> int {
    match current {
        Some(i) => i + 1,
        None => len,
    }
}

/// The current index after moving the item at `from` to `to`.
pub open spec fn current_after_shift(current: Option<usize>, from: usize, to: usize) -> Option<usize> {
    match current {
        None => None,
        Some(c) => {
            if c == from {
                Some(to)
            } else if from < c && c <= to {
                Some((c - 1) as usize)
            } else if to <= c && c < from {
                Some((c + 1) as usize)
            } else {
                Some(c)
            }
        },
    }
}

/// Adds `k` to every entry of `order` that is at least `first`.
fn raise_indices_from(order: &mut Vec<usize>, first: usize, k: usize)
    requires
        forall|i: int| 0 <= i < old(order)@.len() ==> old(order)@[i] + k <= usize::MAX,
    ensures
        final(order)@ == old(order)@.map_values(
            |x: usize| if x >= first { (x + k) as usize } else { x },
        ),
{
    let ghost o = order@;
    let mut j: usize = 0;
    while j < order.len()
        invariant
            order@.len() == o.len(),
            j <= o.len(),
            forall|i: int| 0 <= i < o.len() ==> o[i] + k <= usize::MAX,
            forall|i: int|
                0 <= i < j ==> order@[i] == (if o[i] >= first {
                    (o[i] + k) as usize
                } else {
                    o[i]
                }),
            forall|i: int| j <= i < o.len() ==> order@[i] == o[i],
        decreases o.len() - j,
    {
        let item = order[j];
        assert(item == o[j as int]);
        if item >= first {
            order.set(j, item + k);
        }
        j = j + 1;
    }
    assert(order@ =~= o.map_values(|x: usize| if x >= first { (x + k) as usize } else { x }));
}

fn order_contains(o: &Vec<usize>, c: usize) -> (r: bool)
    ensures
        r == o@.contains(c),
{
    let mut i: usize = 0;
    while i < o.len()
        invariant
            i <= o@.len(),
            forall|j: int| 0 <= j < i ==> o@[j] != c,
        decreases o@.len() - i,
    {
        if o[i] == c {
            assert(o@[i as int] == c);
            return true;
        }
        i = i + 1;
    }
    false
}

/// Where `order_after_append_next` puts the new indices: right after the
/// current item, or at the end.
pub open spec fn append_next_order_at(o: Seq<usize>, current: Option<usize>) -> int {
    match current {
        Some(c) => if o.contains(c) {
            order_pos(o, c) + 1
        } else {
            o.len() as int
        },
        None => o.len() as int,
    }
}

proof fn lemma_order_after_append_next(o: Seq<usize>, first: int, k: int, current: Option<usize>)
    requires
        0 <= append_next_order_at(o, current) <= o.len(),
    ensures
        ({
            let bumped = o.map_values(|x: usize| if x >= first { (x + k) as usize } else { x });
            let at = append_next_order_at(o, current);
            order_after_append_next(o, first, k, current) == bumped.take(at) + index_range(first, first + k)
                + bumped.skip(at)
        }),
{
    let bumped = o.map_values(|x: usize| if x >= first { (x + k) as usize } else { x });
    let at = append_next_order_at(o, current);
    if at == o.len() {
        assert(bumped.skip(at) =~= Seq::<usize>::empty());
        assert(bumped.take(at) =~= bumped);
        assert(bumped.take(at) + index_range(first, first + k) + bumped.skip(at) =~= bumped + index_range(
            first,
            first + k,
        ));
    }
}

/// Inserts the indices `first .. first + k` at position `at`.
fn insert_index_range(order: &mut Vec<usize>, at: usize, first: usize, k: usize)
    requires
        at <= old(order)@.len(),
        first + k <= usize::MAX,
    ensures
        final(order)@ == old(order)@.take(at as int) + index_range(first as int, first + k) + old(
            order,
        )@.skip(at as int),
{
    let ghost b = order@;
    assert(b.take(at as int) + index_range(first as int, first as int) + b.skip(at as int) =~= b);
    let mut j: usize = 0;
    while j < k
        invariant
            j <= k,
            at <= b.len(),
            first + k <= usize::MAX,
            order@ == b.take(at as int) + index_range(first as int, first + j) + b.skip(at as int),
        decreases k - j,
    {
        let cur_len = order.len();
        assert(at + j <= cur_len);
        order.insert(at + j, first + j);
        assert(order@ =~= b.take(at as int) + index_range(first as int, first + j + 1) + b.skip(at as int));
        j = j + 1;
    }
}

/// Inserting `k` items at `first` (at most the queue's length) keeps a play
/// order of the whole queue one: every index, old or new, occurs once.
pub proof fn lemma_append_next_keeps_play_order(
    o: Seq<usize>,
    len: int,
    first: int,
    k: int,
    current: Option<usize>,
)
    requires
        is_play_order(o, len),
        0 <= first <= len,
        0 <= k,
        len + k <= usize::MAX,
    ensures
        is_play_order(order_after_append_next(o, first, k, current), len + k),
{
    if let Some(c) = current {
        if o.contains(c) {
            lemma_order_pos_facts(o, c);
        }
    }
    let bumped = o.map_values(|x: usize| if x >= first { (x + k) as usize } else { x });
    let added = index_range(first, first + k);
    let at = append_next_order_at(o, current);
    lemma_order_after_append_next(o, first, k, current);
    let r = bumped.take(at) + added + bumped.skip(at);
    assert(r.len() == len + k);
    // Where each entry of `r` comes from.
    assert forall|i: int| 0 <= i < r.len() implies #[trigger] r[i] == (if i < at {
        bumped[i]
    } else if i < at + k {
        (first + (i - at)) as usize
    } else {
        bumped[i - k]
    }) by {
        if i < at {
            assert(r[i] == bumped.take(at)[i]);
        } else if i < at + k {
            assert(r[i] == added[i - at]);
        } else {
            assert(r[i] == bumped.skip(at)[i - at - k]);
        }
    }
    assert forall|i: int| 0 <= i < bumped.len() implies #[trigger] bumped[i] < len + k && (bumped[i] < first
        || bumped[i] >= first + k) by {
        assert(o[i] < len);
    }
    assert forall|i: int| 0 <= i < r.len() implies #[trigger] r[i] < len + k by {
        if i < at {
            assert(bumped[i] < len + k);
        } else if i >= at + k {
            assert(bumped[i - k] < len + k);
        }
    }
    assert forall|i: int, j: int| 0 <= i < r.len() && 0 <= j < r.len() && i != j implies r[i] != r[j] by {
        let bi = if i < at { i } else { i - k };
        let bj = if j < at { j } else { j - k };
        let ni = at <= i < at + k;
        let nj = at <= j < at + k;
        if !ni && !nj {
            assert(bi != bj);
            assert(o[bi] != o[bj]);
            assert(bumped[bi] == (if o[bi] >= first { (o[bi] + k) as usize } else { o[bi] }));
            assert(bumped[bj] == (if o[bj] >= first { (o[bj] + k) as usize } else { o[bj] }));
        } else if !ni && nj {
            assert(bumped[bi] < first || bumped[bi] >= first + k);
        } else if ni && !nj {
            assert(bumped[bj] < first || bumped[bj] >= first + k);
        }
    }
}

/// The play order after `append_next` inserted `k` items at `first` (see
/// `order_after_append_next`).
fn order_with_inserted(order: Vec<usize>, first: usize, k: usize, current: Option<usize>) -> (r: Vec<usize>)
    requires
        first + k <= usize::MAX,
        forall|i: int| 0 <= i < order@.len() ==> order@[i] + k <= usize::MAX,
    ensures
        r@ == order_after_append_next(order@, first as int, k as int, current),
{
    let ghost o = order@;
    let len = order.len();
    let at: usize = match current {
        Some(c) => {
            if order_contains(&order, c) {
                let p = Queue::<usize>::position_of(&order, c);
                p + 1
            } else {
                len
            }
        },
        None => len,
    };
    assert(at == append_next_order_at(o, current));
    proof {
        lemma_order_after_append_next(o, first as int, k as int, current);
    }
    let mut order = order;
    raise_indices_from(&mut order, first, k);
    insert_index_range(&mut order, at, first, k);
    order
}

/// Adds one to every entry of `order` that is greater than `index`.
fn bump_indices_after(order: &mut Vec<usize>, index: usize)
    requires
        forall|i: int| 0 <= i < old(order)@.len() ==> old(order)@[i] < usize::MAX,
    ensures
        final(order)@ == old(order)@.map_values(
            |x: usize| if x > index { (x + 1) as usize } else { x },
        ),
{
    let ghost o = order@;
    let mut k: usize = 0;
    while k < order.len()
        invariant
            order@.len() == o.len(),
            k <= o.len(),
            forall|i: int| 0 <= i < o.len() ==> o[i] < usize::MAX,
            forall|i: int|
                0 <= i < k ==> order@[i] == (if o[i] > index {
                    (o[i] + 1) as usize
                } else {
                    o[i]
                }),
            forall|i: int| k <= i < o.len() ==> order@[i] == o[i],
        decreases o.len() - k,
    {
        let item = order[k];
        assert(item == o[k as int]);
        if item > index {
            order.set(k, item + 1);
        }
        k = k + 1;
    }
    assert(order@ =~= o.map_values(|x: usize| if x > index { (x + 1) as usize } else { x }));
}

impl<T> Queue<T> {
    /// Insert `track` as the item that should logically follow the currently
    /// playing item, taking into account shuffle status.
    pub fn insert_after_current(&mut self, track: T)
        requires
            old(self).wf(),
            old(self).current_track is Some ==> order_knows_current(
                old(self).order_view(),
                old(self).current_track,
            ),
            old(self).random_order matches Some(o) ==> forall|i: int|
                0 <= i < o@.len() ==> o@[i] < usize::MAX,
        ensures
            match old(self).current_track {
                Some(index) => {
                    &&& final(self).queue@ == old(self).queue@.insert(index + 1, track)
                    &&& final(self).current_track == old(self).current_track
                    &&& match old(self).random_order {
                        Some(o) => final(self).random_order matches Some(o2) && o2@
                            == order_after_insert(o@, index, order_pos(o@, index)),
                        None => final(self).random_order is None,
                    }
                },
                None => {
                    &&& final(self).queue@ == old(self).queue@.push(track)
                    &&& final(self).current_track is None
                    &&& match old(self).random_order {
                        Some(o) => final(self).random_order matches Some(o2) && o2@
                            == order_after_append(o@, old(self).len_spec()),
                        None => final(self).random_order is None,
                    }
                },
            },
            final(self).repeat == old(self).repeat,
            final(self).shuffle == old(self).shuffle,
    {
        match self.current_track {
            Some(index) => self.insert_after(index, track),
            None => self.append(track),
        }
    }

    fn insert_after(&mut self, index: usize, track: T)
        requires
            index < old(self).queue@.len(),
            old(self).random_order matches Some(o) ==> o@.contains(index),
            old(self).random_order matches Some(o) ==> forall|i: int|
                0 <= i < o@.len() ==> o@[i] < usize::MAX,
        ensures
            final(self).queue@ == old(self).queue@.insert(index + 1, track),
            final(self).current_track == old(self).current_track,
            match old(self).random_order {
                Some(o) => final(self).random_order matches Some(o2) && o2@ == order_after_insert(
                    o@,
                    index,
                    order_pos(o@, index),
                ),
                None => final(self).random_order is None,
            },
            final(self).repeat == old(self).repeat,
            final(self).shuffle == old(self).shuffle,
    {
        let old_order = self.random_order.take();
        match old_order {
            Some(mut order) => {
                let next_i = Self::position_of(&order, index);
                bump_indices_after(&mut order, index);
                assert(next_i < order.len());
                order.insert(next_i + 1, index + 1);
                self.random_order = Some(order);
            },
            None => {},
        }
        assert(self.queue@ == old(self).queue@);
        assert(index < self.queue.len());
        self.queue.insert(index + 1, track);
    }

    /// Add `track` to the end of the queue; in shuffle mode it is played
    /// last.
    pub fn append(&mut self, track: T)
        ensures
            final(self).queue@ == old(self).queue@.push(track),
            match old(self).random_order {
                Some(o) => final(self).random_order matches Some(o2) && o2@ == order_after_append(
                    o@,
                    old(self).len_spec(),
                ) && (is_play_order(o@, old(self).len_spec()) ==> is_play_order(
                    o2@,
                    final(self).len_spec(),
                )),
                None => final(self).random_order is None,
            },
            final(self).current_track == old(self).current_track,
            final(self).repeat == old(self).repeat,
            final(self).shuffle == old(self).shuffle,
    {
        let n = self.queue.len();
        match self.random_order.take() {
            Some(mut order) => {
                let ghost o = order@;
                order.push(n);
                proof {
                    if is_play_order(o, n as int) {
                        assert forall|i: int, j: int|
                            0 <= i < order@.len() && 0 <= j < order@.len() && i != j implies order@[i]
                            != order@[j] by {
                            if i < o.len() && j < o.len() {
                                assert(o[i] != o[j]);
                            } else if i < o.len() {
                                assert(o[i] < n);
                            } else {
                                assert(o[j] < n);
                            }
                        }
                    }
                }
                self.random_order = Some(order);
            },
            None => {},
        }
        self.queue.push(track);
    }

    /// Append `tracks` after the currently playing item (at the end when
    /// nothing is playing), taking into account shuffle status: in the play
    /// order they follow the current item. Returns the number of added items.
    pub fn append_next(&mut self, tracks: Vec<T>) -> (r: usize)
        requires
            old(self).wf(),
            old(self).queue@.len() + tracks@.len() <= usize::MAX,
            old(self).random_order matches Some(o) ==> forall|i: int|
                0 <= i < o@.len() ==> o@[i] + tracks@.len() <= usize::MAX,
        ensures
            r == tracks@.len(),
            final(self).queue@ == old(self).queue@.take(
                append_next_at(old(self).len_spec(), old(self).current_track),
            ) + tracks@ + old(self).queue@.skip(
                append_next_at(old(self).len_spec(), old(self).current_track),
            ),
            match old(self).random_order {
                Some(o) => final(self).random_order matches Some(o2) && o2@ == order_after_append_next(
                    o@,
                    append_next_at(old(self).len_spec(), old(self).current_track),
                    tracks@.len() as int,
                    old(self).current_track,
                ) && (is_play_order(o@, old(self).len_spec()) ==> is_play_order(
                    o2@,
                    final(self).len_spec(),
                )),
                None => final(self).random_order is None,
            },
            final(self).current_track == old(self).current_track,
            final(self).repeat == old(self).repeat,
            final(self).shuffle == old(self).shuffle,
    {
        let n = self.queue.len();
        let k = tracks.len();
        let ghost cur = self.current_track;
        let first = match self.current_track {
            Some(index) => index + 1,
            None => n,
        };
        let old_order = self.random_order.take();
        let new_order = match old_order {
            Some(order) => {
                proof {
                    if is_play_order(order@, n as int) {
                        lemma_append_next_keeps_play_order(order@, n as int, first as int, k as int, cur);
                    }
                }
                Some(order_with_inserted(order, first, k, self.current_track))
            },
            None => None,
        };
        self.random_order = new_order;
        let ghost q = self.queue@;
        let ghost ts = tracks@;
        let ghost ro = self.random_order;
        let mut tracks = tracks;
        let mut i = first;
        while tracks.len() > 0
            invariant
                first <= n,
                q.len() == n,
                n + ts.len() <= usize::MAX,
                tracks@.len() <= ts.len(),
                i == first + (ts.len() - tracks@.len()),
                tracks@ == ts.skip(ts.len() - tracks@.len()),
                self.queue@ == q.take(first as int) + ts.take(ts.len() - tracks@.len()) + q.skip(
                    first as int,
                ),
                self.current_track == cur,
                self.random_order == ro,
                self.repeat == old(self).repeat,
                self.shuffle == old(self).shuffle,
            decreases tracks@.len(),
        {
            let ghost j = ts.len() - tracks@.len();
            let t = tracks.remove(0);
            assert(t == ts[j]);
            self.queue.insert(i, t);
            assert(ts.take(j + 1) =~= ts.take(j).push(ts[j]));
            assert(tracks@ =~= ts.skip(j + 1));
            assert(self.queue@ =~= q.take(first as int) + ts.take(j + 1) + q.skip(first as int));
            i = i + 1;
        }
        assert(ts.take(ts.len() as int) =~= ts);
        k
    }

    /// Remove the item at `index`. This doesn't take into account shuffle
    /// status, and will literally remove the item at `index` in `queue`.
    pub fn remove(&mut self, index: usize) -> (r: PlayerAction)
        requires
            remove_defined(
                old(self).len_spec(),
                old(self).order_view(),
                old(self).current_track,
                old(self).repeat,
                old(self).shuffle,
                index,
            ),
        ensures
            old(self).len_spec() == 0 ==> (r == PlayerAction::Nothing && final(self).queue@ == old(self).queue@ && final(self).current_track == old(self).current_track && final(self).random_order == old(self).random_order && final(self).repeat == old(self).repeat),
            old(self).len_spec() > 0 ==> {
                &&& final(self).queue@ == old(self).queue@.remove(index as int)
                &&& (final(self).current_track, final(self).repeat, r) == remove_step(
                    old(self).len_spec(),
                    old(self).order_view(),
                    old(self).current_track,
                    old(self).repeat,
                    index,
                )
                &&& if old(self).len_spec() > 1 && old(self).shuffle {
                    final(self).random_order matches Some(o) && fresh_order(
                        o@,
                        old(self).len_spec() - 1,
                        final(self).current_track,
                    )
                } else {
                    final(self).random_order == old(self).random_order
                }
            },
            final(self).shuffle == old(self).shuffle,
    {
        if self.queue.len() == 0 {
            return PlayerAction::Nothing;
        }
        self.queue.remove(index);
        let n = self.queue.len();
        if n == 0 {
            return self.stop();
        }
        let action = match self.current_track {
            Some(c) => {
                if c == index {
                    if c == n {
                        if self.repeat == RepeatSetting::RepeatPlaylist {
                            self.next(false)
                        } else {
                            self.stop()
                        }
                    } else {
                        self.select(index)
                    }
                } else if c > index {
                    self.current_track = Some(c - 1);
                    PlayerAction::Nothing
                } else {
                    PlayerAction::Nothing
                }
            },
            None => PlayerAction::Nothing,
        };
        if self.shuffle {
            self.generate_random_order();
        }
        action
    }

    /// Clear all the items from the queue and stop playback.
    pub fn clear(&mut self) -> (r: PlayerAction)
        ensures
            r == PlayerAction::Stop,
            final(self).queue@.len() == 0,
            final(self).current_track is None,
            match old(self).random_order {
                Some(_) => final(self).random_order matches Some(o) && o@.len() == 0,
                None => final(self).random_order is None,
            },
            final(self).repeat == old(self).repeat,
            final(self).shuffle == old(self).shuffle,
    {
        let r = self.stop();
        self.queue.clear();
        match self.random_order.take() {
            Some(mut o) => {
                o.clear();
                self.random_order = Some(o);
            },
            None => {},
        }
        r
    }

    /// Shift the item at `from` to `to`; the current index follows the item
    /// it was on.
    pub fn shift(&mut self, from: usize, to: usize)
        requires
            from < old(self).queue@.len(),
            to < old(self).queue@.len(),
        ensures
            final(self).queue@ == old(self).queue@.remove(from as int).insert(
                to as int,
                old(self).queue@[from as int],
            ),
            final(self).current_track == current_after_shift(old(self).current_track, from, to),
            final(self).random_order == old(self).random_order,
            final(self).repeat == old(self).repeat,
            final(self).shuffle == old(self).shuffle,
    {
        let item = self.queue.remove(from);
        self.queue.insert(to, item);
        if let Some(index) = self.current_track {
            if index == from {
                self.current_track = Some(to);
            } else if from < index && index <= to {
                self.current_track = Some(index - 1);
            } else if to <= index && index < from {
                self.current_track = Some(index + 1);
            }
        }
    }
}


proof fn lemma_order_pos_is(o: Seq<usize>, c: usize, p: int)
    requires
        0 <= p < o.len(),
        o[p] == c,
        forall|j: int| 0 <= j < p ==> o[j] != c,
    ensures
        order_pos(o, c) == p,
{
    let q = order_pos(o, c);
    assert(0 <= q < o.len() && o[q] == c && forall|j: int| 0 <= j < q ==> o[j] != c);
    if q < p {
        assert(o[q] != c);
    }
    if q > p {
        assert(o[p] != c);
    }
}

proof fn lemma_order_pos_facts(o: Seq<usize>, c: usize)
    requires
        o.contains(c),
    ensures
        0 <= order_pos(o, c) < o.len(),
        o[order_pos(o, c)] == c,
        forall|j: int| 0 <= j < order_pos(o, c) ==> o[j] != c,
    decreases o.len(),
{
    let k = choose|k: int| 0 <= k < o.len() && o[k] == c;
    if exists|j: int| 0 <= j < k && o[j] == c {
        let j = choose|j: int| 0 <= j < k && o[j] == c;
        let t = o.take(k);
        assert(t.contains(c)) by {
            assert(t[j] == c);
        }
        lemma_order_pos_facts(t, c);
        let p = order_pos(t, c);
        assert forall|i: int| 0 <= i < p implies o[i] != c by {
            assert(t[i] == o[i]);
        }
        lemma_order_pos_is(o, c, p);
    } else {
        lemma_order_pos_is(o, c, k);
    }
}

/// Going forward and then back returns to the same item: when the next index
/// of a queue is `j`, the previous index of `j` is the item that was current.
/// Holds when the play order has no repeated entries (as a play order of
/// the whole queue has, or no shuffled order at all).
pub proof fn lemma_next_then_previous(len: int, order: Option<Seq<usize>>, current: Option<usize>)
    requires
        len <= usize::MAX,
        next_index_defined(len, order, current),
        order matches Some(o) ==> o.no_duplicates(),
    ensures
        next_index_of(len, order, current) matches Some(j) ==> (order_knows_current(order, Some(j))
            && previous_index_of(order, Some(j)) == current),
{
    if let Some(c) = current {
        if let Some(o) = order {
            lemma_order_pos_facts(o, c);
            let p = order_pos(o, c);
            if p + 1 < len {
                let j = o[p + 1];
                assert(o.contains(j)) by {
                    assert(o[p + 1] == j);
                }
                assert forall|i: int| 0 <= i < p + 1 implies o[i] != j by {
                    assert(o[i] != o[p + 1]);
                }
                lemma_order_pos_is(o, j, p + 1);
                assert(play_position(order, j) == p + 1);
                assert(entry_at(order, p) == c);
                assert(next_index_of(len, order, current) == Some(j));
                assert(previous_index_of(order, Some(j)) == Some(c));
            }
        } else {
            if c + 1 < len {
                assert(next_index_of(len, order, current) == Some((c + 1) as usize));
                assert(previous_index_of(order, Some((c + 1) as usize)) == Some(c));
            }
        }
    }
}

proof fn lemma_inserted_is_next_shuffled(len: int, o: Seq<usize>, index: usize)
    requires
        index < len <= usize::MAX,
        o.contains(index),
        o.len() <= len,
        forall|i: int| 0 <= i < o.len() ==> o[i] < usize::MAX,
    ensures
        ({
            let o2 = order_after_insert(o, index, order_pos(o, index));
            &&& order_pos(o2, index) == order_pos(o, index)
            &&& order_pos(o2, index) + 1 < len + 1
            &&& o2[order_pos(o2, index) + 1] == index + 1
        }),
{
    lemma_order_pos_facts(o, index);
    let p = order_pos(o, index);
    let m = o.map_values(|x: usize| if x > index { (x + 1) as usize } else { x });
    let o2 = m.insert(p + 1, (index + 1) as usize);
    assert(o2 == order_after_insert(o, index, p));
    assert(o2[p] == m[p]);
    assert(m[p] == index);
    assert forall|j: int| 0 <= j < p implies o2[j] != index by {
        assert(o2[j] == m[j]);
        assert(m[j] == (if o[j] > index { (o[j] + 1) as usize } else { o[j] }));
        assert(o[j] != index);
    }
    assert(o2[p + 1] == index + 1);
    lemma_order_pos_is(o2, index, p);
}

/// The item inserted after the current one is the next one to play, whether
/// or not the queue is shuffled: after `insert_after_current`, the next index
/// is `index + 1`, where the inserted item now sits. Holds when the play
/// order, if any, has no more entries than the queue has items (as a fresh
/// shuffled order has).
pub proof fn lemma_inserted_is_next(len: int, order: Option<Seq<usize>>, index: usize)
    requires
        index < len <= usize::MAX,
        order matches Some(o) ==> (o.contains(index) && o.len() <= len && forall|i: int|
            0 <= i < o.len() ==> o[i] < usize::MAX),
    ensures
        next_index_of(
            len + 1,
            match order {
                Some(o) => Some(order_after_insert(o, index, order_pos(o, index))),
                None => None,
            },
            Some(index),
        ) == Some((index + 1) as usize),
{
    if let Some(o) = order {
        lemma_inserted_is_next_shuffled(len, o, index);
    }
}

/// Moving an item keeps the current index on the same item.
pub proof fn lemma_shift_keeps_current_item<T>(q: Seq<T>, current: usize, from: usize, to: usize)
    requires
        from < q.len(),
        to < q.len(),
        current < q.len(),
    ensures
        current_after_shift(Some(current), from, to) matches Some(c2) && q.remove(from as int).insert(
            to as int,
            q[from as int],
        )[c2 as int] == q[current as int],
{
}

/// Removing another item keeps the current index on the same item.
pub proof fn lemma_remove_keeps_current_item<T>(
    q: Seq<T>,
    order: Option<Seq<usize>>,
    current: usize,
    repeat: RepeatSetting,
    index: usize,
)
    requires
        index < q.len(),
        current < q.len(),
        current != index,
    ensures
        remove_step(q.len() as int, order, Some(current), repeat, index).0 matches Some(c2) && q.remove(
            index as int,
        )[c2 as int] == q[current as int],
{
}


/// Removing the playing item, when another item follows it, keeps playback
/// going: the item that followed moves into its place and is loaded, and the
/// current index stays where it was.
pub proof fn lemma_removing_current_plays_the_next<T>(
    q: Seq<T>,
    order: Option<Seq<usize>>,
    repeat: RepeatSetting,
    index: usize,
)
    requires
        index + 1 < q.len(),
    ensures
        remove_step(q.len() as int, order, Some(index), repeat, index) == (
            Some(index),
            repeat,
            PlayerAction::Load(index),
        ),
        q.remove(index as int)[index as int] == q[index + 1],
{
}

} // verus!
