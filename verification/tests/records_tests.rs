use iphone_call_export::backup::{backup_file_folder, backup_info_from_plists, newest_backup_index};
use iphone_call_export::calls::{
    call_csv_header, call_csv_row, choose_call_history_decryption, CallExportStats, CallHistoryDecryption,
    CallRecordFields, ContactMatch,
};
use iphone_call_export::error::ExportError;
use iphone_call_export::file_metadata::{
    file_encryption_metadata_from_archive, parse_file_encryption_metadata, FileEncryptionMetadata,
};
use iphone_call_export::manifest::{encrypted_backup_metadata_from_plist, read_plist_dictionary};
use iphone_call_export::plist_value::PlistValue;
use iphone_call_export::tables::{find_call_table, find_table};
use iphone_call_export::text::{decimal_string, hex_header, printable_header, signed_decimal_string};

#[test]
fn rejects_non_plist_metadata() {
    let error = parse_file_encryption_metadata(b"not a plist").err().expect("must reject");
    assert!(error.message().contains("Property-List"));
}

fn entry(key: &str, value: PlistValue) -> (String, PlistValue) {
    (key.to_string(), value)
}

fn archive(objects: Vec<PlistValue>) -> PlistValue {
    PlistValue::Dictionary(vec![
        entry("$version", PlistValue::Integer(Some(100000))),
        entry("$objects", PlistValue::Array(objects)),
    ])
}

#[test]
fn reads_metadata_through_uids() {
    let mut key = 3_u32.to_le_bytes().to_vec();
    key.extend_from_slice(&[7; 40]);
    let objects = vec![
        PlistValue::String("$null".into()),
        PlistValue::Dictionary(vec![
            entry("ProtectionClass", PlistValue::Integer(Some(3))),
            entry("EncryptionKey", PlistValue::Uid(2)),
            entry("Size", PlistValue::Integer(Some(4096))),
        ]),
        PlistValue::Dictionary(vec![entry("NS.data", PlistValue::Data(key))]),
    ];
    let meta = file_encryption_metadata_from_archive(&archive(objects)).ok().expect("metadata");
    assert_eq!(meta.protection_class, 3);
    assert_eq!(meta.wrapped_key, vec![7; 40]);
    assert_eq!(meta.logical_size, Some(4096));
    assert_eq!(meta.size_before_copy, None);
}

#[test]
fn metadata_errors() {
    let objects = vec![PlistValue::Dictionary(vec![
        entry("ProtectionClass", PlistValue::Integer(Some(4))),
        entry("EncryptionKey", PlistValue::Uid(9)),
    ])];
    assert!(matches!(
        file_encryption_metadata_from_archive(&archive(objects)),
        Err(ExportError::ArchiveUidOutOfRange)
    ));
    let mut key = 3_u32.to_le_bytes().to_vec();
    key.push(1);
    let objects = vec![PlistValue::Dictionary(vec![
        entry("ProtectionClass", PlistValue::Integer(Some(4))),
        entry("EncryptionKey", PlistValue::Data(key)),
    ])];
    assert!(matches!(
        file_encryption_metadata_from_archive(&archive(objects)),
        Err(ExportError::ProtectionClassMismatch { class: 4, prefix: 3 })
    ));
    assert!(matches!(
        file_encryption_metadata_from_archive(&PlistValue::Boolean(true)),
        Err(ExportError::MetadataArchiveNotDictionary)
    ));
    assert!(matches!(
        file_encryption_metadata_from_archive(&archive(vec![])),
        Err(ExportError::MetadataKeysMissing)
    ));
}

#[test]
fn parses_binary_plist_bytes() {
    let xml = br#"<?xml version="1.0" encoding="UTF-8"?>
<!DOCTYPE plist PUBLIC "-//Apple//DTD PLIST 1.0//EN" "http://www.apple.com/DTDs/PropertyList-1.0.dtd">
<plist version="1.0"><dict><key>IsEncrypted</key><true/><key>Version</key><string>10.0</string>
<key>BackupKeyBag</key><data>VkVSUwAAAAQAAAAE</data><key>ManifestKey</key><data>AwAAAAEC</data></dict></plist>"#;
    let dict = read_plist_dictionary(xml).ok().expect("dictionary");
    let meta = encrypted_backup_metadata_from_plist(&dict).ok().expect("metadata");
    assert_eq!(meta.version.as_deref(), Some("10.0"));
    assert_eq!(meta.manifest_key_class, 3);
    assert_eq!(meta.wrapped_manifest_key, vec![1, 2]);
    assert_eq!(meta.keybag_entries.len(), 1);
    assert_eq!(meta.keybag_entries[0].tag, "VERS");
}

#[test]
fn manifest_plist_errors() {
    let not_encrypted = vec![entry("IsEncrypted", PlistValue::Boolean(false))];
    assert!(matches!(encrypted_backup_metadata_from_plist(&not_encrypted), Err(ExportError::NotEncrypted)));
    let wrong_type = vec![
        entry("IsEncrypted", PlistValue::Boolean(true)),
        entry("BackupKeyBag", PlistValue::String("x".into())),
    ];
    match encrypted_backup_metadata_from_plist(&wrong_type) {
        Err(ExportError::ManifestFieldNotData { name }) => assert_eq!(name, "BackupKeyBag"),
        _ => panic!("expected BackupKeyBag to have the wrong type"),
    }
    let short_key = vec![
        entry("IsEncrypted", PlistValue::Boolean(true)),
        entry("BackupKeyBag", PlistValue::Data(vec![])),
        entry("ManifestKey", PlistValue::Data(vec![1, 2, 3])),
    ];
    assert!(matches!(
        encrypted_backup_metadata_from_plist(&short_key),
        Err(ExportError::ManifestKeyTooShort { len: 3 })
    ));
    assert!(matches!(read_plist_dictionary(b"garbage"), Err(ExportError::PlistUnreadable)));
}

#[test]
fn backup_info_picks_fields() {
    let info = vec![
        entry("Device Name", PlistValue::String("iPhone".into())),
        entry("Product Version", PlistValue::Integer(Some(17))),
    ];
    let manifest = vec![entry("IsEncrypted", PlistValue::Boolean(true))];
    let backup = backup_info_from_plists("/tmp/b".into(), &info, &manifest);
    assert_eq!(backup.path, "/tmp/b");
    assert_eq!(backup.device_name.as_deref(), Some("iPhone"));
    assert_eq!(backup.product_version, None);
    assert_eq!(backup.encrypted, Some(true));
}

#[test]
fn newest_backup_takes_the_last_of_the_newest() {
    assert!(matches!(newest_backup_index(&[]), Err(ExportError::NoBackupFound)));
    assert_eq!(newest_backup_index(&[5, 9, 2, 9, 1]).ok(), Some(3));
    assert_eq!(newest_backup_index(&[-4]).ok(), Some(0));
}

#[test]
fn backup_file_folder_is_the_id_prefix() {
    assert_eq!(backup_file_folder("ab12cd").ok().as_deref(), Some("ab"));
    match backup_file_folder("a") {
        Err(ExportError::InvalidFileId { id }) => assert_eq!(id, "a"),
        _ => panic!("expected an invalid ID"),
    }
}

#[test]
fn finds_person_and_call_tables() {
    let tables: Vec<String> = vec!["ABMultiValue".into(), "abperson".into(), "ZCONTACTS".into()];
    assert_eq!(find_table(&tables, &["ABPerson", "ZABCDRECORD", "ZCONTACT"]).as_deref(), Some("abperson"));
    assert_eq!(find_table(&tables, &["ABMultiValue", "ZPHONE"]).as_deref(), Some("ABMultiValue"));
    let others: Vec<String> = vec!["ZMETA".into(), "ZMyContactList".into()];
    assert_eq!(find_table(&others, &["ABPerson"]).as_deref(), Some("ZMyContactList"));
    assert_eq!(find_table(&["ZMETA".to_string()], &["ABPerson"]), None);

    let calls: Vec<String> = vec!["ZCALLDBPROPERTIES".into(), "ZCallRecord".into()];
    assert_eq!(find_call_table(&calls).as_deref(), Some("ZCallRecord"));
    let fallback: Vec<String> = vec!["Z_META".into(), "ZOLD_CALL_RECORDS".into()];
    assert_eq!(find_call_table(&fallback).as_deref(), Some("ZOLD_CALL_RECORDS"));
    assert_eq!(find_call_table(&["ZCALL".to_string()]), None);
}

fn fields() -> CallRecordFields {
    CallRecordFields {
        date_text: "2024-05-01T10:00:00+02:00".into(),
        duration_text: "61".into(),
        originated: Some(1),
        answered: Some(0),
        address: Some("+49301234".into()),
        call_name: Some("Büro".into()),
        call_type: Some(-8),
        country: Some("de".into()),
        provider: None,
        unique_id: Some("X".into()),
    }
}

#[test]
fn builds_call_rows() {
    let row = call_csv_row(fields(), None);
    assert_eq!(
        row,
        vec!["2024-05-01T10:00:00+02:00", "61", "ausgehend", "nein", "+49301234", "Büro", "Büro", "", "Anrufliste", "-8", "de", "", "X"]
    );
    let contact = ContactMatch { name: "Anna".into(), organization: "ACME".into() };
    let mut f = fields();
    f.originated = Some(0);
    f.answered = None;
    let row = call_csv_row(f, Some(&contact));
    assert_eq!(row[2], "eingehend");
    assert_eq!(row[3], "unbekannt");
    assert_eq!(row[5], "Anna");
    assert_eq!(row[7], "ACME");
    assert_eq!(row[8], "iPhone-AddressBook");
    let mut f = fields();
    f.call_name = None;
    f.originated = None;
    let row = call_csv_row(f, None);
    assert_eq!(row[2], "unbekannt");
    assert_eq!(row[8], "");
    assert_eq!(call_csv_header().len(), 13);
}

#[test]
fn counts_exported_calls() {
    let mut stats = CallExportStats::new();
    stats.record_call(true);
    stats.record_call(false);
    assert_eq!(stats.exported, 2);
    assert_eq!(stats.matched_contacts, 1);
}

fn file_meta(logical: Option<u64>, compression: Option<u64>) -> FileEncryptionMetadata {
    FileEncryptionMetadata {
        protection_class: 3,
        wrapped_key: vec![],
        logical_size: logical,
        size_before_copy: None,
        content_compression_method: compression,
        content_encoding_method: None,
    }
}

#[test]
fn chooses_call_history_decryption() {
    assert!(matches!(
        choose_call_history_decryption(&file_meta(None, None), 32),
        Err(ExportError::LogicalSizeMissing)
    ));
    assert!(matches!(
        choose_call_history_decryption(&file_meta(Some(20), Some(0)), 32),
        Ok(CallHistoryDecryption::ExactFile { logical_size: 20 })
    ));
    assert!(matches!(
        choose_call_history_decryption(&file_meta(Some(40), None), 32),
        Ok(CallHistoryDecryption::StoredPayload)
    ));
    assert!(matches!(
        choose_call_history_decryption(&file_meta(Some(20), Some(1)), 32),
        Ok(CallHistoryDecryption::StoredPayload)
    ));
}

#[test]
fn writes_numbers_and_headers() {
    assert_eq!(decimal_string(0), "0");
    assert_eq!(decimal_string(1234567), "1234567");
    assert_eq!(signed_decimal_string(i64::MIN), i64::MIN.to_string());
    let header = *b"SQLite format 3\0";
    assert_eq!(printable_header(&header), "SQLite format 3.");
    assert_eq!(
        hex_header(&header),
        "53 51 4c 69 74 65 20 66 6f 72 6d 61 74 20 33 00"
    );
}
