//! The part of the play queue that survives a restart.
use vstd::prelude::*;

verus! {

/// Persisted playback state: the queue's tracks and its cursor.
#[derive(Debug, PartialEq, Eq)]
pub struct State {
    pub queue: Vec<String>,
    pub position: Option<usize>,
}

} // verus!
