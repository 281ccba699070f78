use crabbox::queue::Queue;
use crabbox::state::State;

fn tracks(names: &[&str]) -> Vec<String> {
    names.iter().map(|n| n.to_string()).collect()
}

#[test]
fn ordered_queue_starts_at_first_track() {
    let q = Queue::from_tracks_ordered(tracks(&["a", "b"]));
    assert_eq!(q.position(), Some(0));
    assert_eq!(q.current_track(), Some("a".to_string()));
    let e = Queue::from_tracks_ordered(Vec::new());
    assert_eq!(e.position(), None);
    assert_eq!(e.current_track(), None);
}

#[test]
fn next_wraps_round_after_len_steps() {
    let mut q = Queue::from_tracks_ordered(tracks(&["a", "b", "c"]));
    assert_eq!(q.next_track(), Some("b".to_string()));
    assert_eq!(q.next_track(), Some("c".to_string()));
    assert_eq!(q.next_track(), Some("a".to_string()));
    assert_eq!(q.position(), Some(0));
}

#[test]
fn prev_wraps_round_after_len_steps() {
    let mut q = Queue::from_tracks_ordered(tracks(&["a", "b", "c"]));
    assert_eq!(q.prev_track(), Some("c".to_string()));
    assert_eq!(q.prev_track(), Some("b".to_string()));
    assert_eq!(q.prev_track(), Some("a".to_string()));
    assert_eq!(q.position(), Some(0));
}

#[test]
fn next_then_prev_returns_to_cursor() {
    for start in 0..3usize {
        let mut q = Queue::from_state(State { queue: tracks(&["a", "b", "c"]), position: Some(start) });
        q.next_track();
        q.prev_track();
        assert_eq!(q.position(), Some(start));
    }
}

#[test]
fn empty_queue_steps_do_nothing() {
    let mut q = Queue::empty();
    assert_eq!(q.next_track(), None);
    assert_eq!(q.prev_track(), None);
    assert_eq!(q.position(), None);
}

#[test]
fn from_state_drops_out_of_range_cursor() {
    let q = Queue::from_state(State { queue: tracks(&["a", "b"]), position: Some(2) });
    assert_eq!(q.position(), None);
    assert_eq!(q.current_track(), None);
    let q = Queue::from_state(State { queue: Vec::new(), position: Some(0) });
    assert_eq!(q.position(), None);
    let q = Queue::from_state(State { queue: tracks(&["a", "b"]), position: Some(1) });
    assert_eq!(q.current_track(), Some("b".to_string()));
}

#[test]
fn no_cursor_steps_to_first_track() {
    let mut q = Queue::from_state(State { queue: tracks(&["a", "b"]), position: None });
    assert_eq!(q.prev_track(), Some("a".to_string()));
    let mut q = Queue::from_state(State { queue: tracks(&["a", "b"]), position: None });
    assert_eq!(q.next_track(), Some("a".to_string()));
}

#[test]
fn shuffled_queue_keeps_tracks() {
    let q = Queue::from_tracks_shuffled(tracks(&["a", "b", "c", "d"]));
    let mut got = q.tracks().clone();
    got.sort();
    assert_eq!(got, tracks(&["a", "b", "c", "d"]));
    assert_eq!(q.position(), Some(0));
    let state = q.to_state();
    assert_eq!(state.queue.len(), 4);
    assert_eq!(state.position, Some(0));
}

