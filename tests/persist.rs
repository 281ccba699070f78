use crabbox::command::Command;
use crabbox::persist::{backup_file_name, edit_tag_binding, persist_steps, BindingError, FileOp};
use crabbox::tag::TagId;

#[test]
fn persist_tag_mapping_creates_backup_before_saving() {
    let initial_config = r#"[[music]]
dir = "/music"

[server]
web = "0.0.0.0:8080"

[tags]
0A1B2C3D = "PLAY"
"#;

    let config_path = "/tmp/x/config.toml";
    let backup_dir = "/tmp/x/backups";
    let steps = persist_steps(
        config_path,
        Some(backup_dir),
        "20250102T030405",
        initial_config,
        TagId::from_hex_str("0A1B2C3D").unwrap(),
        Some(&Command::Stop),
    )
    .expect("persist tag");

    let backups: Vec<&FileOp> = steps.iter().filter(|s| matches!(s, FileOp::Copy { .. })).collect();
    assert_eq!(backups.len(), 1, "expected exactly one backup file");
    assert_eq!(
        backups[0],
        &FileOp::Copy {
            from: config_path.to_string(),
            to: format!("{backup_dir}/{}", backup_file_name(config_path, "20250102T030405")),
        }
    );
    assert_eq!(backup_file_name(config_path, "20250102T030405"), "config.toml.20250102T030405");

    let updated_config = match steps.last() {
        Some(FileOp::Write { path, text }) if path == config_path => text.clone(),
        other => panic!("the last step must write the configuration, not {other:?}"),
    };
    assert!(updated_config.contains("0A1B2C3D = \"STOP\""));
}

#[test]
fn persist_tag_mapping_preserves_existing_tags_table() {
    let initial_config = r#"[[music]]
dir = "/music"

[server]
web = "0.0.0.0:8080"

[tags]
# keep this comment
ABCD1234 = "PLAY"
# untouched entry
DEADBEEF = "SHUFFLE 80s/*"
"#;

    let updated_config = edit_tag_binding(
        initial_config,
        TagId::from_hex_str("ABCD1234").unwrap(),
        Some(&Command::Stop),
    )
    .expect("persist tag");

    assert!(updated_config.contains("# keep this comment"));
    assert!(updated_config.contains("# untouched entry"));
    assert!(updated_config.contains("DEADBEEF = \"SHUFFLE 80s/*\""));
    assert!(updated_config.contains("ABCD1234 = \"STOP\""));
}

#[test]
fn persist_tag_mapping_removes_entry_without_touching_other_tags() {
    let initial_config = r#"[[music]]
dir = "/music"

[server]
web = "0.0.0.0:8080"

[tags]
# primary tag comment
ABCD1234 = "PLAY"
# preserve this entry
DEADBEEF = "SHUFFLE 80s/*"
"#;

    let updated_config =
        edit_tag_binding(initial_config, TagId::from_hex_str("ABCD1234").unwrap(), None)
            .expect("persist tag");

    assert!(updated_config.contains("# preserve this entry"));
    assert!(updated_config.contains("DEADBEEF = \"SHUFFLE 80s/*\""));
    assert!(!updated_config.contains("ABCD1234"));
}

#[test]
fn new_binding_creates_tags_table() {
    let initial_config = "# top comment\n[server]\nweb = \"x\"\n";
    let id = TagId::from_uid([0xAB, 0xCD, 0x12, 0x34]);
    let cmd = Command::Shuffle { filter: Some("80s/*".to_string()) };
    let updated = edit_tag_binding(initial_config, id, Some(&cmd)).expect("persist tag");
    assert!(updated.starts_with("# top comment\n[server]\nweb = \"x\"\n"));
    assert!(updated.contains("[tags]"));
    assert!(updated.contains("ABCD1234 = \"SHUFFLE 80s/*\""));
}

#[test]
fn untouched_text_is_kept_byte_for_byte() {
    let initial_config = "[server]\nweb = \"x\"   # port comes later\n\n[tags]\n# a\nDEADBEEF = \"STOP\"  # trailing\n";
    let id = TagId::from_uid([1, 2, 3, 4]);
    let updated = edit_tag_binding(initial_config, id, Some(&Command::Next)).expect("persist tag");
    assert!(updated.starts_with(initial_config));
    assert!(updated.ends_with("01020304 = \"NEXT\"\n"));
}

#[test]
fn bad_documents_are_refused() {
    let id = TagId::from_uid([1, 2, 3, 4]);
    assert!(matches!(
        edit_tag_binding("[tags\n", id, None),
        Err(BindingError::Parse(_))
    ));
    assert!(matches!(
        edit_tag_binding("tags = 3\n", id, Some(&Command::Stop)),
        Err(BindingError::TagsNotATable)
    ));
}

#[test]
fn backup_name_defaults() {
    assert_eq!(backup_file_name("", "T"), "config.toml.T");
    assert_eq!(backup_file_name("/etc/", "T"), "config.toml.T");
    assert_eq!(backup_file_name("settings.toml", "T"), "settings.toml.T");
}

#[test]
fn backup_is_taken_before_the_write() {
    let raw = "[tags]\nABCD1234 = \"PLAY\"\n";
    let id = TagId::from_uid([0xAB, 0xCD, 0x12, 0x34]);
    let steps = persist_steps("/etc/crabbox/config.toml", Some("/var/backups"), "20250102T030405", raw, id, None)
        .expect("steps");
    assert_eq!(steps.len(), 3);
    assert_eq!(steps[0], FileOp::CreateDir { path: "/var/backups".to_string() });
    assert_eq!(
        steps[1],
        FileOp::Copy {
            from: "/etc/crabbox/config.toml".to_string(),
            to: "/var/backups/config.toml.20250102T030405".to_string()
        }
    );
    match &steps[2] {
        FileOp::Write { path, text } => {
            assert_eq!(path, "/etc/crabbox/config.toml");
            assert!(text.contains("[tags]"));
            assert!(!text.contains("ABCD1234"));
        }
        other => panic!("unexpected step {other:?}"),
    }

    let steps = persist_steps("c.toml", None, "T", raw, id, Some(&Command::Stop)).expect("steps");
    assert_eq!(steps.len(), 1);
    assert!(matches!(&steps[0], FileOp::Write { path, .. } if path == "c.toml"));
    let steps = persist_steps("c.toml", Some("b/"), "T", raw, id, None).expect("steps");
    assert_eq!(steps[1], FileOp::Copy { from: "c.toml".to_string(), to: "b/c.toml.T".to_string() });
    assert!(persist_steps("c.toml", Some("b"), "T", "[tags", id, None).is_err());
}
