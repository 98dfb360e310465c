use iphone_call_export::cbc::PaddedCbcDecoder;
use iphone_call_export::error::{EncryptedFile, ExportError};
use iphone_call_export::file_metadata::FileEncryptionMetadata;
use iphone_call_export::keybag::KeybagEntry;
use iphone_call_export::manifest::EncryptedBackupMetadata;
use iphone_call_export::unlock::{derive_passcode_key, unlock_backup, unlock_manifest_key, verify_backup_password};

fn hex(text: &str) -> Vec<u8> {
    (0..text.len()).step_by(2).map(|i| u8::from_str_radix(&text[i..i + 2], 16).unwrap()).collect()
}

fn entry(tag: &str, value: Vec<u8>) -> KeybagEntry {
    KeybagEntry { tag: tag.into(), value }
}

// A keybag made with PBKDF2 (SHA-256, then SHA-1) and RFC 3394 wrapping
// computed independently of this library.
fn backup_metadata() -> EncryptedBackupMetadata {
    EncryptedBackupMetadata {
        version: Some("10.0".into()),
        is_encrypted: true,
        backup_keybag: Vec::new(),
        manifest_key_class: 3,
        wrapped_manifest_key: hex("ea6a7bc9db0d34f0a2a6adb93f77133b085a9e2040be6adfefc2778396c7e908e23c60df3cbaa216"),
        keybag_entries: vec![
            entry("VERS", vec![0, 0, 0, 4]),
            entry("SALT", (0..20).collect()),
            entry("ITER", vec![0, 0, 0, 3]),
            entry("DPSL", (100..120).collect()),
            entry("DPIC", vec![0, 0, 0, 2]),
            entry("UUID", vec![9; 16]),
            entry("CLAS", vec![0, 0, 0, 3]),
            entry("WRAP", vec![0, 0, 0, 3]),
            entry("WPKY", hex("41be5e9c703cac73ffe83d44e9b141c63aa09ec970a3548794e8511a9504b239e0f87fe53df21158")),
        ],
    }
}

#[test]
fn passcode_key_matches_reference_derivation() {
    let entries = vec![
        entry("SALT", vec![1; 20]),
        entry("ITER", vec![0, 0, 0, 1]),
        entry("DPSL", vec![2; 20]),
        entry("DPIC", vec![0, 0, 0, 1]),
    ];
    let key = derive_passcode_key(&entries, b"secret").ok().expect("key");
    assert_eq!(key.bytes().to_vec(), hex("1dbbf93ddecade15bf81b94cd0192ae3de76e05d9299bfd108c987304d5a4333"));
}

#[test]
fn unlocks_manifest_and_file_keys() {
    let meta = backup_metadata();
    let manifest_key: Vec<u8> = (64..96).collect();
    let key = unlock_manifest_key(&meta, b"hunter2").ok().expect("no error").expect("unlocked");
    assert_eq!(key.bytes().to_vec(), manifest_key);

    let unlocked = unlock_backup(&meta, b"hunter2").ok().expect("no error").expect("unlocked");
    assert_eq!(unlocked.manifest_key().to_vec(), manifest_key);

    let file = FileEncryptionMetadata {
        protection_class: 3,
        wrapped_key: hex("214b8d694793390bebbb96266bf5c812391ea2644ae6217c5e497a8c0c6bcaca7aea0a7551eef775"),
        logical_size: Some(10),
        size_before_copy: None,
        content_compression_method: None,
        content_encoding_method: None,
    };
    let file_key = unlocked.unlock_file_key(&file).ok().expect("file key");
    assert_eq!(file_key.bytes().to_vec(), (96..128).collect::<Vec<u8>>());

    let other_class = FileEncryptionMetadata { protection_class: 4, ..file };
    assert!(unlocked.unlock_file_key(&other_class).is_err());
}

#[test]
fn verifies_password_against_manifest_header() {
    let meta = backup_metadata();
    let ciphertext = hex("36ad7092f0061dfeefdf4d77e7c4027471d6dfaa6d03d4efb91dfa56d625ce7f");
    let header: [u8; 16] = ciphertext[..16].try_into().unwrap();
    assert!(matches!(verify_backup_password(&meta, b"hunter2", &header), Ok(true)));
    assert!(matches!(verify_backup_password(&meta, b"hunter3", &header), Ok(false)));
    assert!(matches!(verify_backup_password(&meta, b"hunter2", &[0_u8; 16]), Ok(false)));
    assert!(matches!(unlock_manifest_key(&meta, b"wrong"), Ok(None)));

    let key = unlock_manifest_key(&meta, b"hunter2").ok().expect("no error").expect("unlocked");
    let mut decoder = PaddedCbcDecoder::new(key.bytes()).ok().expect("decoder");
    assert!(decoder.push(header).is_none());
    let first = decoder.push(ciphertext[16..].try_into().unwrap()).expect("first block");
    assert_eq!(&first, b"SQLite format 3\0");
    assert_eq!(decoder.finish(EncryptedFile::BackupFile).ok().expect("tail"), vec![b'A'; 12]);
}

#[test]
fn later_passcode_record_of_a_class_wins() {
    let wrapped_first = hex("b8b600b8e53e77270d37b69f1effaf255cf82c5229f9b92ace8b8ac40825bea4095a35897a566a3d");
    let wrapped_second = hex("4836d5367390a2515efde85268643975bf2ec0d81c32878d97e7f62f00b694740e7f96cce4a5db7f");
    let mut meta = backup_metadata();
    meta.wrapped_manifest_key =
        hex("c4e92d9b5687d421d7c4550b779e4274926807370272e0b83b94b1ce556297adae5ba8d1939982f3");
    meta.keybag_entries.truncate(5);
    meta.keybag_entries.extend(vec![
        entry("UUID", vec![1; 16]),
        entry("CLAS", vec![0, 0, 0, 3]),
        entry("WRAP", vec![0, 0, 0, 3]),
        entry("WPKY", wrapped_first),
        entry("UUID", vec![2; 16]),
        entry("CLAS", vec![0, 0, 0, 3]),
        entry("WRAP", vec![0, 0, 0, 2]),
        entry("WPKY", wrapped_second),
        entry("UUID", vec![3; 16]),
        entry("CLAS", vec![0, 0, 0, 4]),
        entry("WRAP", vec![0, 0, 0, 1]),
        entry("WPKY", vec![7; 40]),
    ]);
    let unlocked = unlock_backup(&meta, b"hunter2").ok().expect("no error").expect("unlocked");
    assert_eq!(unlocked.manifest_key().to_vec(), (64..96).collect::<Vec<u8>>());
    let file = FileEncryptionMetadata {
        protection_class: 4,
        wrapped_key: vec![0; 40],
        logical_size: None,
        size_before_copy: None,
        content_compression_method: None,
        content_encoding_method: None,
    };
    match unlocked.unlock_file_key(&file) {
        Err(ExportError::ClassNotUnlocked { class }) => assert_eq!(class, 4),
        _ => panic!("class 4 is not protected by the passcode"),
    }
    // The manifest key alone goes by the first record of its class.
    assert!(matches!(unlock_manifest_key(&meta, b"hunter2"), Ok(None)));
}

#[test]
fn unlock_error_messages() {
    assert_eq!(
        ExportError::FileKeyUnwrap { cause: Box::new(ExportError::KeyWrapIntegrity) }.message(),
        "Dateischlüssel konnte nicht entsperrt werden"
    );
    assert_eq!(
        ExportError::ManifestClassKeyLength { len: 16 }.message(),
        "Entsperrter Klassenschlüssel hat 16 statt 32 Bytes"
    );
    assert_eq!(
        ExportError::ClassKeyLength { class: 3, len: 16 }.message(),
        "Entsperrter Klassenschlüssel 3 hat 16 statt 32 Bytes"
    );
    let entries = vec![entry("SALT", vec![1; 20]), entry("ITER", vec![0, 0, 0, 1]), entry("DPSL", vec![2; 20]), entry("DPIC", vec![0, 0, 0, 1])];
    assert_eq!(derive_passcode_key(&entries, b"").ok().expect("key").bytes().len(), 32);
}
