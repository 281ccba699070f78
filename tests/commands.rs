use crabbox::command::{parse_command, Command};
use crabbox::tag::TagId;

#[test]
fn parses_basic_commands() {
    assert_eq!(parse_command("PLAY"), Some(Command::Play { filter: None }));
    assert_eq!(parse_command("Stop"), Some(Command::Stop));
    assert_eq!(parse_command("previous"), Some(Command::Prev));
}

#[test]
fn parses_with_filter() {
    assert_eq!(
        parse_command("play chill/*"),
        Some(Command::Play {
            filter: Some("chill/*".to_string())
        })
    );

    assert_eq!(
        parse_command(" shuffle   synthwave "),
        Some(Command::Shuffle {
            filter: Some("synthwave".to_string())
        })
    );
}

#[test]
fn rejects_unknown() {
    assert_eq!(parse_command("dance"), None);
    assert_eq!(parse_command(""), None);
}

#[test]
fn commands_parses_via_from_str() {
    let cmd: Command = "play mix/*".parse().expect("should parse");
    assert_eq!(
        cmd,
        Command::Play {
            filter: Some("mix/*".to_string())
        }
    );
}

#[test]
fn from_str_reports_the_rejected_text() {
    let err = "dance".parse::<Command>().unwrap_err();
    assert_eq!(err, "Invalid command 'dance'");
}

#[test]
fn every_verb_in_any_case() {
    assert_eq!(parse_command("playpause"), Some(Command::PlayPause { filter: None }));
    assert_eq!(parse_command("NeXt"), Some(Command::Next));
    assert_eq!(parse_command("PREV"), Some(Command::Prev));
    assert_eq!(parse_command("shutdown"), Some(Command::Shutdown));
    assert_eq!(parse_command("volumeup"), Some(Command::VolumeUp));
    assert_eq!(parse_command("VolumeDown"), Some(Command::VolumeDown));
    assert_eq!(parse_command("stop now"), Some(Command::Stop));
    assert_eq!(parse_command("TRACKDONE"), Some(Command::TrackDone));
    assert_eq!(
        parse_command("tag 0a1b2c3d"),
        Some(Command::Tag { id: TagId::from_uid([0x0A, 0x1B, 0x2C, 0x3D]) })
    );
    assert_eq!(parse_command("TAG 0A1B2C3"), None);
    assert_eq!(parse_command("TAG"), None);
    assert_eq!(parse_command("ASSIGN_TAG 0A1B2C3D"), None);
}

#[test]
fn blank_filter_is_no_filter() {
    assert_eq!(parse_command("PLAY    "), Some(Command::Play { filter: None }));
    assert_eq!(parse_command("\tplay\u{3000}"), Some(Command::Play { filter: None }));
    assert_eq!(
        parse_command("SHUFFLE a b "),
        Some(Command::Shuffle {
            filter: Some("a b".to_string())
        })
    );
}

#[test]
fn formats_commands() {
    assert_eq!(Command::Stop.to_string(), "STOP");
    assert_eq!(Command::TrackDone.to_string(), "TRACKDONE");
    assert_eq!(
        Command::PlayPause {
            filter: Some("jazz/*".to_string())
        }
        .to_string(),
        "PLAYPAUSE jazz/*"
    );
    let id = TagId::from_uid([0xAB, 0xCD, 0x12, 0x34]);
    assert_eq!(Command::Tag { id }.to_string(), "TAG ABCD1234");
    assert_eq!(
        Command::AssignTag { id, command: Some("STOP".to_string()) }.to_string(),
        "ASSIGN_TAG ABCD1234"
    );
}

#[test]
fn format_then_parse_round_trips() {
    let cmds = vec![
        Command::Play { filter: None },
        Command::Play { filter: Some("80s/*".to_string()) },
        Command::PlayPause { filter: None },
        Command::PlayPause { filter: Some("a b".to_string()) },
        Command::Shuffle { filter: Some("x?y".to_string()) },
        Command::Shuffle { filter: None },
        Command::Stop,
        Command::Next,
        Command::Prev,
        Command::VolumeUp,
        Command::VolumeDown,
        Command::Shutdown,
        Command::TrackDone,
        Command::Tag { id: TagId::from_uid([0xAB, 0xCD, 0x12, 0x34]) },
        Command::Tag { id: TagId::from_uid([0, 0, 0, 0]) },
    ];
    for cmd in cmds {
        assert_eq!(parse_command(&cmd.to_string()), Some(cmd.duplicate()));
    }
}

#[test]
fn names_and_filters() {
    assert_eq!(Command::VolumeUp.name(), "VOLUMEUP");
    assert!(Command::Shuffle { filter: None }.has_filter());
    assert!(!Command::Stop.has_filter());
}
