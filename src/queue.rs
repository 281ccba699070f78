//! The play queue: tracks in play order and an optional cursor, stepped circularly.
use vstd::prelude::*;

use crate::state::State;

verus! {

/// What a queue holds: its tracks, and the index of the current one if any.
pub struct QueueModel {
    pub tracks: Seq<String>,
    pub cursor: Option<int>,
}

impl QueueModel {
    /// The cursor, when present, points at a track.
    pub open spec fn wf(self) -> bool {
        self.cursor matches Some(i) ==> 0 <= i < self.tracks.len()
    }

    /// The track under the cursor.
    pub open spec fn current(self) -> Option<String> {
        match self.cursor {
            Some(i) => Some(self.tracks[i]),
            None => None,
        }
    }

    /// The queue after a step forward: the cursor moves to the next track, from the
    /// last back to the first, or to the first when there was none; an empty queue
    /// stays as it is.
    pub open spec fn forward(self) -> QueueModel {
        if self.tracks.len() == 0 {
            self
        } else {
            let i = match self.cursor {
                Some(i) => if i + 1 < self.tracks.len() {
                    i + 1
                } else {
                    0
                },
                None => 0,
            };
            QueueModel { tracks: self.tracks, cursor: Some(i) }
        }
    }

    /// The queue after a step back: the cursor moves to the previous track, from the
    /// first round to the last, or to the first when there was none; an empty queue
    /// stays as it is.
    pub open spec fn backward(self) -> QueueModel {
        if self.tracks.len() == 0 {
            self
        } else {
            let i = match self.cursor {
                Some(i) => if i == 0 {
                    self.tracks.len() - 1
                } else {
                    i - 1
                },
                None => 0,
            };
            QueueModel { tracks: self.tracks, cursor: Some(i) }
        }
    }

    /// `n` steps forward.
    pub open spec fn forward_n(self, n: nat) -> QueueModel
        decreases n,
    {
        if n == 0 {
            self
        } else {
            self.forward_n((n - 1) as nat).forward()
        }
    }

    /// `n` steps back.
    pub open spec fn backward_n(self, n: nat) -> QueueModel
        decreases n,
    {
        if n == 0 {
            self
        } else {
            self.backward_n((n - 1) as nat).backward()
        }
    }
}

/// The cursor restored from a saved position: kept when it points at a track.
pub open spec fn cursor_of_state(position: Option<usize>, len: nat) -> Option<int> {
    match position {
        Some(i) => if i < len {
            Some(i as int)
        } else {
            None
        },
        None => None,
    }
}

/// The queue restored from saved state.
pub open spec fn restored_model(state: State) -> QueueModel {
    QueueModel {
        tracks: state.queue@,
        cursor: cursor_of_state(state.position, state.queue@.len()),
    }
}

pub struct Queue {
    tracks: Vec<String>,
    current: Option<usize>,
}

impl View for Queue {
    type V = QueueModel;

    closed spec fn view(&self) -> QueueModel {
        QueueModel {
            tracks: self.tracks@,
            cursor: match self.current {
                Some(i) => Some(i as int),
                None => None,
            },
        }
    }
}

impl Queue {
    pub open spec fn wf(&self) -> bool {
        self@.wf()
    }

    /// A queue in the given order, its cursor on the first track.
    pub fn from_tracks_ordered(tracks: Vec<String>) -> (r: Queue)
        ensures
            r.wf(),
            r@.tracks == tracks@,
            r@.cursor == (if tracks@.len() == 0 {
                None
            } else {
                Some(0int)
            }),
    {
        let current = if tracks.len() == 0 {
            None
        } else {
            Some(0)
        };
        Queue { tracks, current }
    }

    pub fn empty() -> (r: Queue)
        ensures
            r.wf(),
            r@.tracks.len() == 0,
            r@.cursor is None,
    {
        Queue { tracks: Vec::new(), current: None }
    }

    /// A queue of the given tracks in a random order, its cursor on the first track.
    pub fn from_tracks_shuffled(tracks: Vec<String>) -> (r: Queue)
        ensures
            r.wf(),
            r@.tracks.to_multiset() == tracks@.to_multiset(),
            r@.tracks.len() == tracks@.len(),
            r@.cursor == (if tracks@.len() == 0 {
                None
            } else {
                Some(0int)
            }),
    {
        let mut tracks = tracks;
        shuffle_tracks(&mut tracks);
        Queue::from_tracks_ordered(tracks)
    }

    /// The queue saved in `state`; a cursor past the end is dropped, not clamped.
    pub fn from_state(state: State) -> (r: Queue)
        ensures
            r.wf(),
            r@.tracks == state.queue@,
            r@.cursor == cursor_of_state(state.position, state.queue@.len()),
    {
        let mut queue = Queue { tracks: state.queue, current: state.position };
        match queue.current {
            Some(idx) => {
                if idx >= queue.tracks.len() {
                    queue.current = None;
                }
            },
            None => {},
        }
        queue
    }

    /// What survives a restart.
    pub fn to_state(&self) -> (r: State)
        ensures
            r.queue@ == self@.tracks,
            r.position matches Some(i) ==> self@.cursor == Some(i as int),
            r.position is None ==> self@.cursor is None,
    {
        State { queue: self.tracks.clone(), position: self.current }
    }

    pub fn tracks(&self) -> (r: &Vec<String>)
        ensures
            r@ == self@.tracks,
    {
        &self.tracks
    }

    pub fn position(&self) -> (r: Option<usize>)
        ensures
            r matches Some(i) ==> self@.cursor == Some(i as int),
            r is None ==> self@.cursor is None,
    {
        self.current
    }

    pub fn current_track(&self) -> (r: Option<String>)
        requires
            self.wf(),
        ensures
            r == self@.current(),
    {
        match self.current {
            Some(idx) => self.track_at(idx),
            None => None,
        }
    }

    pub fn track_at(&self, idx: usize) -> (r: Option<String>)
        ensures
            r == (if idx < self@.tracks.len() {
                Some(self@.tracks[idx as int])
            } else {
                None
            }),
    {
        if idx < self.tracks.len() {
            Some(self.tracks[idx].clone())
        } else {
            None
        }
    }

    /// Steps forward and hands back the track now under the cursor.
    pub fn next_track(&mut self) -> (r: Option<String>)
        requires
            old(self).wf(),
        ensures
            final(self).wf(),
            final(self)@ == old(self)@.forward(),
            r == final(self)@.current(),
    {
        if self.tracks.len() == 0 {
            return None;
        }
        let next_idx: usize = match self.current {
            Some(idx) => if idx + 1 < self.tracks.len() {
                idx + 1
            } else {
                0
            },
            None => 0,
        };
        self.current = Some(next_idx);
        self.track_at(next_idx)
    }

    /// Steps back and hands back the track now under the cursor.
    pub fn prev_track(&mut self) -> (r: Option<String>)
        requires
            old(self).wf(),
        ensures
            final(self).wf(),
            final(self)@ == old(self)@.backward(),
            r == final(self)@.current(),
    {
        if self.tracks.len() == 0 {
            return None;
        }
        let prev_idx: usize = match self.current {
            Some(idx) => if idx == 0 {
                self.tracks.len() - 1
            } else {
                idx - 1
            },
            None => 0,
        };
        self.current = Some(prev_idx);
        self.track_at(prev_idx)
    }
}

/// Relies on rand's `SliceRandom::shuffle`, driven by the thread-local generator
/// `rand::rng()`: it only swaps elements, so the result is a permutation.
#[verifier::external_body]
fn shuffle_tracks(tracks: &mut Vec<String>)
    ensures
        final(tracks)@.to_multiset() == old(tracks)@.to_multiset(),
        final(tracks)@.len() == old(tracks)@.len(),
{
    rand::seq::SliceRandom::shuffle(tracks.as_mut_slice(), &mut rand::rng());
}

/// Where `k` steps forward from track `i` of `len` lead, for `k` up to `len`.
proof fn lemma_forward_n(q: QueueModel, i: int, k: nat)
    requires
        q.wf(),
        q.cursor == Some(i),
        k <= q.tracks.len(),
    ensures
        q.forward_n(k).tracks == q.tracks,
        q.forward_n(k).cursor == Some(
            if i + k < q.tracks.len() {
                i + k
            } else {
                i + k - q.tracks.len()
            },
        ),
    decreases k,
{
    if k > 0 {
        lemma_forward_n(q, i, (k - 1) as nat);
    }
}

/// Where `k` steps back from track `i` of `len` lead, for `k` up to `len`.
proof fn lemma_backward_n(q: QueueModel, i: int, k: nat)
    requires
        q.wf(),
        q.cursor == Some(i),
        k <= q.tracks.len(),
    ensures
        q.backward_n(k).tracks == q.tracks,
        q.backward_n(k).cursor == Some(
            if k <= i {
                i - k
            } else {
                i + q.tracks.len() - k
            },
        ),
    decreases k,
{
    if k > 0 {
        lemma_backward_n(q, i, (k - 1) as nat);
    }
}

/// Stepping is circular: from any track of a non-empty queue, as many steps forward
/// as there are tracks lead back to it, and no fewer steps do; the same holds
/// stepping back.
pub proof fn lemma_steps_are_circular(q: QueueModel, k: nat)
    requires
        q.wf(),
        q.tracks.len() > 0,
        q.cursor is Some,
    ensures
        q.forward_n(q.tracks.len()) == q,
        q.backward_n(q.tracks.len()) == q,
        0 < k < q.tracks.len() ==> q.forward_n(k).cursor != q.cursor,
        0 < k < q.tracks.len() ==> q.backward_n(k).cursor != q.cursor,
{
    let i = q.cursor->0;
    lemma_forward_n(q, i, q.tracks.len());
    lemma_backward_n(q, i, q.tracks.len());
    if 0 < k < q.tracks.len() {
        lemma_forward_n(q, i, k);
        lemma_backward_n(q, i, k);
    }
}

/// A step back undoes a step forward, wherever the cursor stands; an empty queue is
/// left as it is by both. (A non-empty queue without a cursor is left out: the step
/// forward puts the cursor on the first track, and the step back then moves it to
/// the last.)
pub proof fn lemma_forward_then_backward(q: QueueModel)
    requires
        q.wf(),
        q.tracks.len() == 0 || q.cursor is Some,
    ensures
        q.forward().backward() == q,
{
}

} // verus!
