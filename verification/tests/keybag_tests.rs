use iphone_call_export::keybag::{keybag_tag_u32, parse_keybag_tlv, same_text, KeybagEntry};
use iphone_call_export::unlock::parse_class_keys;
use iphone_call_export::error::ExportError;

#[test]
fn parses_keybag_tlv_entries() {
    let bytes = [
        b'V', b'E', b'R', b'S', 0, 0, 0, 4, 0, 0, 0, 4,
        b'I', b'T', b'E', b'R', 0, 0, 0, 4, 0, 0, 0, 10,
    ];
    let entries = parse_keybag_tlv(&bytes).ok().expect("parse");
    assert_eq!(entries.len(), 2);
    assert_eq!(keybag_tag_u32(&entries, "VERS"), Some(4));
    assert_eq!(keybag_tag_u32(&entries, "ITER"), Some(10));
}

#[test]
fn rejects_truncated_keybag_tlv() {
    let bytes = [b'S', b'A', b'L', b'T', 0, 0, 0, 8, 1, 2];
    let error = parse_keybag_tlv(&bytes).err().expect("must reject");
    assert!(error.message().contains("erwartet 8 Bytes"));
}

#[test]
fn parses_class_key_records() {
    let entries = vec![
        KeybagEntry { tag: "UUID".into(), value: vec![0; 16] },
        KeybagEntry { tag: "CLAS".into(), value: 3_u32.to_be_bytes().to_vec() },
        KeybagEntry { tag: "WRAP".into(), value: 2_u32.to_be_bytes().to_vec() },
        KeybagEntry { tag: "WPKY".into(), value: vec![1; 40] },
    ];
    let records = parse_class_keys(&entries).ok().expect("records");
    assert_eq!(records.len(), 1);
    assert_eq!(records[0].class, 3);
    assert_eq!(records[0].wrap, 2);
    assert_eq!(records[0].wrapped_key.len(), 40);
}

#[test]
fn keybag_parse_keeps_values_and_tags() {
    let bytes = [b'S', b'A', b'L', b'T', 0, 0, 0, 3, 7, 8, 9, b'D', b'P', b'I', b'C', 0, 0, 0, 0];
    let entries = parse_keybag_tlv(&bytes).ok().expect("parse");
    assert_eq!(entries.len(), 2);
    assert_eq!(entries[0].tag, "SALT");
    assert_eq!(entries[0].value, vec![7, 8, 9]);
    assert_eq!(entries[1].tag, "DPIC");
    assert!(entries[1].value.is_empty());
    assert_eq!(keybag_tag_u32(&entries, "SALT"), None);
    assert_eq!(keybag_tag_u32(&entries, "MISS"), None);
}

#[test]
fn keybag_empty_input_has_no_entries() {
    let entries = parse_keybag_tlv(&[]).ok().expect("parse");
    assert!(entries.is_empty());
}

#[test]
fn keybag_rejects_short_header() {
    let bytes = [b'V', b'E', b'R', b'S', 0, 0, 0, 0, 1, 2, 3];
    match parse_keybag_tlv(&bytes) {
        Err(ExportError::KeybagHeaderTruncated { offset }) => assert_eq!(offset, 8),
        _ => panic!("expected a truncated header"),
    }
}

#[test]
fn keybag_lossy_tag_from_invalid_utf8() {
    let bytes = [0xff, b'A', b'B', b'C', 0, 0, 0, 1, 5];
    let entries = parse_keybag_tlv(&bytes).ok().expect("parse");
    assert_eq!(entries[0].tag, "\u{fffd}ABC");
}

#[test]
fn keybag_first_tag_wins() {
    let entries = vec![
        KeybagEntry { tag: "ITER".into(), value: vec![0, 0, 0, 7] },
        KeybagEntry { tag: "ITER".into(), value: vec![0, 0, 0, 9] },
    ];
    assert_eq!(keybag_tag_u32(&entries, "ITER"), Some(7));
}

#[test]
fn class_keys_are_collected_per_uuid() {
    let entries = vec![
        KeybagEntry { tag: "UUID".into(), value: vec![0; 16] },
        KeybagEntry { tag: "CLAS".into(), value: vec![0, 0, 0, 1] },
        KeybagEntry { tag: "WRAP".into(), value: vec![0, 0, 0, 3] },
        KeybagEntry { tag: "WPKY".into(), value: vec![5; 40] },
        KeybagEntry { tag: "UUID".into(), value: vec![1; 16] },
        KeybagEntry { tag: "CLAS".into(), value: vec![0, 0, 0, 2] },
        KeybagEntry { tag: "WPKY".into(), value: vec![6; 40] },
        KeybagEntry { tag: "UUID".into(), value: vec![2; 16] },
        KeybagEntry { tag: "CLAS".into(), value: vec![0, 0, 0, 4] },
        KeybagEntry { tag: "WRAP".into(), value: vec![0, 0, 0, 1] },
        KeybagEntry { tag: "WPKY".into(), value: vec![7; 40] },
    ];
    let records = parse_class_keys(&entries).ok().expect("records");
    assert_eq!(records.len(), 2);
    assert_eq!(records[0].class, 1);
    assert_eq!(records[1].class, 4);
    assert_eq!(records[1].wrap, 1);
}

#[test]
fn class_keys_missing_is_an_error() {
    let entries = vec![KeybagEntry { tag: "UUID".into(), value: vec![0; 16] }];
    assert!(matches!(parse_class_keys(&entries), Err(ExportError::NoClassKeys)));
}

#[test]
fn text_comparison_is_exact() {
    assert!(same_text("WPKY", "WPKY"));
    assert!(!same_text("WPKY", "wpky"));
    assert!(!same_text("WPK", "WPKY"));
}

fn encode(entries: &[(&str, Vec<u8>)]) -> Vec<u8> {
    let mut bytes = Vec::new();
    for (tag, value) in entries {
        bytes.extend_from_slice(tag.as_bytes());
        bytes.extend_from_slice(&(value.len() as u32).to_be_bytes());
        bytes.extend_from_slice(value);
    }
    bytes
}

#[test]
fn keybag_text_tags_round_trip() {
    let given = vec![("VERS", vec![0, 0, 0, 4]), ("Üab", vec![1, 2, 3]), ("WPKY", Vec::new())];
    let bytes = encode(&given);
    let entries = parse_keybag_tlv(&bytes).ok().expect("parse");
    let back: Vec<(String, Vec<u8>)> = entries.iter().map(|e| (e.tag.clone(), e.value.clone())).collect();
    let expected: Vec<(String, Vec<u8>)> = given.iter().map(|(t, v)| (t.to_string(), v.clone())).collect();
    assert_eq!(back, expected);
    let pairs: Vec<(&str, Vec<u8>)> = entries.iter().map(|e| (e.tag.as_str(), e.value.clone())).collect();
    assert_eq!(encode(&pairs), bytes);
}

#[test]
fn keybag_prefix_keeps_rest() {
    let a = encode(&[("SALT", vec![9; 5])]);
    let b = encode(&[("ITER", vec![0, 0, 0, 2]), ("DPIC", vec![1])]);
    let joined: Vec<u8> = a.iter().chain(b.iter()).copied().collect();
    let whole = parse_keybag_tlv(&joined).ok().expect("parse");
    let mut parts = parse_keybag_tlv(&a).ok().expect("a");
    parts.extend(parse_keybag_tlv(&b).ok().expect("b"));
    assert_eq!(whole, parts);
    let broken: Vec<u8> = a.iter().copied().chain([b'X', b'Y', b'Z', b'W', 0, 0, 0, 9, 1]).collect();
    assert!(parse_keybag_tlv(&broken).is_err());
}

#[test]
fn truncated_tag_is_quoted_like_debug() {
    let bytes = [b'a', b'"', b'b', b'\\', 0, 0, 0, 2, 1];
    let error = parse_keybag_tlv(&bytes).err().expect("must reject");
    assert_eq!(error.message(), "Keybag-TLV \"a\\\"b\\\\\" erwartet 2 Bytes, es sind aber nur 1 vorhanden");
}
