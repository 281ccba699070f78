use crabbox::bindings::TagBindings;
use crabbox::command::Command;
use crabbox::config::{Config, MusicDirectory, ServerConfig};
use crabbox::crabbox::{Action, Crabbox, PlayerState, ToggleResult};
use crabbox::state::State;
use crabbox::tag::TagId;

fn config(state_file: Option<&str>, shutdown_sound: Option<&str>) -> Config {
    Config {
        music: vec![MusicDirectory { dir: "/music".to_string() }],
        server: ServerConfig {
            pipe: None,
            web: "0.0.0.0:8080".to_string(),
            startup_sound: None,
            shutdown_sound: shutdown_sound.map(str::to_string),
        },
        tags: TagBindings::new(),
        state_file: state_file.map(str::to_string),
        path: "/etc/crabbox/config.toml".to_string(),
        backup_dir: None,
        gpio: None,
        rfid: None,
    }
}

fn idle() -> PlayerState {
    PlayerState { has_sink: false, paused: false }
}

fn files(names: &[&str]) -> Vec<String> {
    names.iter().map(|n| n.to_string()).collect()
}

/// Carries out the actions as a player that starts every track it is given.
fn perform(engine: &mut Crabbox, actions: &[Action]) {
    for action in actions {
        if let Action::Play { track } = action {
            engine.record_playback(ToggleResult::Started(track.clone()));
        }
    }
}

#[test]
fn play_next_next_next_wraps() {
    let mut engine = Crabbox::new(&config(None, None), None);
    let lib = files(&["/music/a.mp3", "/music/b.mp3", "/music/c.mp3"]);

    let play = Command::Play { filter: None };
    assert!(engine.needs_library(&play));
    let actions = engine.process_command(play, idle(), lib.clone());
    assert_eq!(
        actions,
        vec![Action::StopPlayer, Action::Play { track: "/music/a.mp3".to_string() }]
    );
    perform(&mut engine, &actions);
    let snap = engine.snapshot();
    assert_eq!(snap.queue, lib);
    assert_eq!(snap.queue_position, Some(0));
    assert_eq!(snap.current, Some("/music/a.mp3".to_string()));

    for (pos, track) in [(1, "/music/b.mp3"), (2, "/music/c.mp3"), (0, "/music/a.mp3")] {
        assert!(!engine.needs_library(&Command::Next));
        let actions = engine.process_command(Command::Next, idle(), Vec::new());
        assert_eq!(actions, vec![Action::Play { track: track.to_string() }]);
        perform(&mut engine, &actions);
        let snap = engine.snapshot();
        assert_eq!(snap.queue_position, Some(pos));
        assert_eq!(snap.current, Some(track.to_string()));
    }
}

#[test]
fn shuffle_with_no_matches_leaves_queue_empty() {
    let mut engine = Crabbox::new(&config(None, None), None);
    let lib = files(&["/music/a.mp3", "/music/b.mp3"]);
    let actions = engine.process_command(
        Command::Shuffle { filter: Some("nothing/*".to_string()) },
        idle(),
        lib,
    );
    assert_eq!(actions, vec![Action::StopPlayer]);
    let snap = engine.snapshot();
    assert!(snap.queue.is_empty());
    assert_eq!(snap.queue_position, None);
    assert_eq!(snap.current, None);
}

#[test]
fn unbound_tag_only_records_last_tag() {
    let mut engine = Crabbox::new(&config(None, None), None);
    let lib = files(&["/music/a.mp3"]);
    let actions = engine.process_command(Command::Play { filter: None }, idle(), lib);
    perform(&mut engine, &actions);
    let id = TagId::from_hex_str("0A0B0C0D").unwrap();
    let actions = engine.process_command(Command::Tag { id }, idle(), Vec::new());
    assert!(actions.is_empty());
    let snap = engine.snapshot();
    assert_eq!(snap.last_tag, Some(id));
    assert_eq!(snap.last_tag_command, None);
    assert_eq!(snap.current, Some("/music/a.mp3".to_string()));
}

#[test]
fn assigned_tag_shuffles_its_filter() {
    let mut engine = Crabbox::new(&config(None, None), None);
    let id = TagId::from_hex_str("ABCD1234").unwrap();
    let actions = engine.process_command(
        Command::AssignTag { id, command: Some("SHUFFLE 80s/*".to_string()) },
        idle(),
        Vec::new(),
    );
    let bound = Command::Shuffle { filter: Some("80s/*".to_string()) };
    assert_eq!(actions, vec![Action::PersistTag { id, command: Some(bound.duplicate()) }]);

    let tag = Command::Tag { id };
    assert!(engine.needs_library(&tag));
    let lib = files(&["80s/x.mp3", "90s/z.mp3", "80s/y.mp3"]);
    let actions = engine.process_command(tag, idle(), lib);
    assert_eq!(actions[0], Action::StopPlayer);
    assert_eq!(actions.len(), 2);
    perform(&mut engine, &actions);
    let snap = engine.snapshot();
    let mut queue = snap.queue.clone();
    queue.sort();
    assert_eq!(queue, files(&["80s/x.mp3", "80s/y.mp3"]));
    assert_eq!(snap.queue_position, Some(0));
    assert_eq!(snap.current, Some(snap.queue[0].clone()));
    assert_eq!(snap.last_tag, Some(id));
    assert_eq!(snap.last_tag_command, Some(bound));
    assert_eq!(snap.tags.len(), 1);
}

#[test]
fn assign_blank_removes_and_bad_text_is_ignored() {
    let mut engine = Crabbox::new(&config(None, None), None);
    let id = TagId::from_uid([1, 2, 3, 4]);
    engine.process_command(Command::AssignTag { id, command: Some("stop".to_string()) }, idle(), Vec::new());
    assert_eq!(engine.snapshot().tags.len(), 1);

    let actions = engine.process_command(
        Command::AssignTag { id, command: Some("dance".to_string()) },
        idle(),
        Vec::new(),
    );
    assert!(actions.is_empty());
    assert_eq!(engine.snapshot().tags[0].1, Command::Stop);

    let actions = engine.process_command(
        Command::AssignTag { id, command: Some("   ".to_string()) },
        idle(),
        Vec::new(),
    );
    assert_eq!(actions, vec![Action::PersistTag { id, command: None }]);
    assert!(engine.snapshot().tags.is_empty());
}

#[test]
fn tag_bound_to_tag_is_ignored() {
    let id = TagId::from_uid([9, 9, 9, 9]);
    let mut cfg = config(None, None);
    cfg.tags.insert(id, Command::Tag { id });
    let mut engine = Crabbox::new(&cfg, None);
    let actions = engine.process_command(Command::Tag { id }, idle(), Vec::new());
    assert!(actions.is_empty());
    assert_eq!(engine.snapshot().last_tag, Some(id));
}

#[test]
fn saves_state_and_restores_it() {
    let restored = State { queue: files(&["a.mp3", "b.mp3"]), position: Some(1) };
    let mut engine = Crabbox::new(&config(Some("/var/state.json"), None), Some(restored));
    let snap = engine.snapshot();
    assert_eq!(snap.current, Some("b.mp3".to_string()));
    let actions = engine.process_command(Command::Prev, idle(), Vec::new());
    assert_eq!(
        actions,
        vec![
            Action::Play { track: "a.mp3".to_string() },
            Action::SaveState {
                path: "/var/state.json".to_string(),
                state: State { queue: files(&["a.mp3", "b.mp3"]), position: Some(0) },
            },
        ]
    );
    engine.record_playback(ToggleResult::Stopped);
    assert_eq!(engine.snapshot().current, None);
}

#[test]
fn restored_cursor_out_of_range_is_dropped() {
    let restored = State { queue: files(&["a.mp3"]), position: Some(3) };
    let engine = Crabbox::new(&config(None, None), Some(restored));
    let snap = engine.snapshot();
    assert_eq!(snap.queue_position, None);
    assert_eq!(snap.current, None);
}

#[test]
fn play_pause_toggles_or_starts() {
    let mut engine = Crabbox::new(&config(None, None), None);
    engine.process_command(Command::Play { filter: None }, idle(), files(&["a.mp3", "b.mp3"]));
    engine.record_playback(ToggleResult::Started("a.mp3".to_string()));
    let pp = Command::PlayPause { filter: None };
    assert!(!engine.needs_library(&pp));
    let playing = PlayerState { has_sink: true, paused: false };
    assert_eq!(engine.process_command(pp.duplicate(), playing, Vec::new()), vec![Action::Pause]);
    engine.record_playback(ToggleResult::Toggled);
    assert_eq!(engine.snapshot().current, Some("a.mp3".to_string()));
    let paused = PlayerState { has_sink: true, paused: true };
    assert_eq!(engine.process_command(pp.duplicate(), paused, Vec::new()), vec![Action::Resume]);
    engine.process_command(Command::Stop, idle(), Vec::new());
    assert_eq!(
        engine.process_command(pp, idle(), Vec::new()),
        vec![Action::Play { track: "a.mp3".to_string() }]
    );
    let filtered = Command::PlayPause { filter: Some("b*".to_string()) };
    assert!(engine.needs_library(&filtered));
    assert_eq!(
        engine.process_command(filtered, idle(), files(&["a.mp3", "b.mp3"])),
        vec![Action::StopPlayer, Action::Play { track: "b.mp3".to_string() }]
    );
}

#[test]
fn stop_volume_and_shutdown() {
    let mut engine = Crabbox::new(&config(None, Some("/snd/bye.wav")), None);
    engine.process_command(Command::Play { filter: None }, idle(), files(&["a.mp3"]));
    engine.record_playback(ToggleResult::Started("a.mp3".to_string()));
    assert_eq!(engine.process_command(Command::VolumeUp, idle(), Vec::new()), vec![Action::VolumeUp]);
    assert_eq!(engine.process_command(Command::VolumeDown, idle(), Vec::new()), vec![Action::VolumeDown]);
    assert_eq!(engine.snapshot().current, Some("a.mp3".to_string()));
    assert_eq!(engine.process_command(Command::Stop, idle(), Vec::new()), vec![Action::StopPlayer]);
    assert_eq!(engine.snapshot().current, None);
    assert_eq!(
        engine.process_command(Command::Shutdown, idle(), Vec::new()),
        vec![
            Action::StopPlayer,
            Action::PlaySound { path: "/snd/bye.wav".to_string() },
            Action::ShutdownHost
        ]
    );
}

#[test]
fn track_done_advances_like_next() {
    let mut engine = Crabbox::new(&config(None, None), None);
    engine.process_command(Command::Play { filter: None }, idle(), files(&["a.mp3", "b.mp3"]));
    assert_eq!(
        engine.process_command(Command::TrackDone, idle(), Vec::new()),
        vec![Action::Play { track: "b.mp3".to_string() }]
    );
}

#[test]
fn snapshot_lists_tags_by_hex_text() {
    let mut engine = Crabbox::new(&config(None, None), None);
    for (hex, text) in [("DEADBEEF", "STOP"), ("0A1B2C3D", "NEXT"), ("ABCD1234", "PREV"), ("0A1B2C3D", "PLAY")] {
        let id = TagId::from_hex_str(hex).unwrap();
        engine.process_command(Command::AssignTag { id, command: Some(text.to_string()) }, idle(), Vec::new());
    }
    let snap = engine.snapshot();
    let keys: Vec<String> = snap.tags.iter().map(|(id, _)| id.to_string()).collect();
    assert_eq!(keys, vec!["0A1B2C3D", "ABCD1234", "DEADBEEF"]);
    assert_eq!(snap.tags[0].1, Command::Play { filter: None });
}

#[test]
fn binding_to_a_tag_command_is_kept_but_ignored() {
    let mut engine = Crabbox::new(&config(None, None), None);
    let id = TagId::from_uid([1, 1, 1, 1]);
    let actions = engine.process_command(
        Command::AssignTag { id, command: Some("TAG 02020202".to_string()) },
        idle(),
        Vec::new(),
    );
    let target = Command::Tag { id: TagId::from_uid([2, 2, 2, 2]) };
    assert_eq!(actions, vec![Action::PersistTag { id, command: Some(target) }]);
    assert!(engine.process_command(Command::Tag { id }, idle(), Vec::new()).is_empty());
}
