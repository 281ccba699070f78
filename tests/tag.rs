use crabbox::tag::TagId;

#[test]
fn rfid_tag_id_parses_hex() {
    let tag = TagId::from_hex_str("0a1b2c3d").expect("valid hex");
    assert_eq!(tag.to_string(), "0A1B2C3D");
}

#[test]
fn rfid_tag_id_rejects_wrong_length() {
    assert!(TagId::from_hex_str("123").is_err());
}

#[test]
fn tag_tag_id_parses_hex() {
    let tag = TagId::from_hex_str("0a1b2c3d").expect("valid hex");
    assert_eq!(tag.to_string(), "0A1B2C3D");
}

#[test]
fn tag_tag_id_rejects_wrong_length() {
    assert!(TagId::from_hex_str("123").is_err());
}

#[test]
fn tag_parses_via_from_str() {
    let tag: TagId = "0a1b2c3d".parse().expect("should parse");
    assert_eq!(tag.to_string(), "0A1B2C3D");
}

#[test]
fn tag_id_bytes_and_whitespace() {
    let tag = TagId::from_hex_str("  DeadBeef\n").expect("valid hex");
    assert_eq!(tag.bytes, [0xDE, 0xAD, 0xBE, 0xEF]);
    assert_eq!(TagId::from_uid([0, 1, 0x0F, 0xF0]).to_string(), "00010FF0");
}

#[test]
fn tag_id_rejects_non_hex() {
    assert!(TagId::from_hex_str("0A1B2C3G").is_err());
    assert!(TagId::from_hex_str("+a+b+c+d").is_err());
    assert!(TagId::from_hex_str("0A1B2C3D4").is_err());
    assert!(TagId::from_hex_str("").is_err());
}
