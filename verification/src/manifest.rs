//! The manifest of a backup: whether `Manifest.db` is plain SQLite, and the
//! encryption metadata that `Manifest.plist` holds.

use vstd::prelude::*;
use vstd::string::*;
use vstd::slice::{slice_subrange, slice_to_vec};
use crate::error::ExportError;
use crate::file_metadata::le_u32;
use crate::keybag::{entries_of_records, entries_view, parse_keybag_tlv, reports_fault, tlv_records, KeybagEntry, TlvFault};
use crate::plist_value::{dict_get, dict_lookup, PlistValue};
use crate::primitives::{parse_plist, plist_decode};

verus! {

/// The encryption metadata of an encrypted backup.
#[derive(Debug, Clone, PartialEq, Eq)]
pub struct EncryptedBackupMetadata {
    pub version: Option<String>,
    pub is_encrypted: bool,
    pub backup_keybag: Vec<u8>,
    pub manifest_key_class: u32,
    pub wrapped_manifest_key: Vec<u8>,
    pub keybag_entries: Vec<KeybagEntry>,
}

/// The first sixteen bytes of every SQLite database: "SQLite format 3" and a zero byte.
pub open spec fn sqlite_header() -> Seq<u8> {
    seq![
        0x53u8, 0x51u8, 0x4cu8, 0x69u8, 0x74u8, 0x65u8, 0x20u8, 0x66u8,
        0x6fu8, 0x72u8, 0x6du8, 0x61u8, 0x74u8, 0x20u8, 0x33u8, 0x00u8,
    ]
}

/// Whether `bytes` are exactly the SQLite header.
pub fn is_sqlite_header(bytes: &[u8]) -> (is_header: bool)
    ensures
        is_header == (bytes@ == sqlite_header()),
{
    let expected: [u8; 16] = [
        0x53, 0x51, 0x4c, 0x69, 0x74, 0x65, 0x20, 0x66, 0x6f, 0x72, 0x6d, 0x61, 0x74, 0x20, 0x33, 0x00,
    ];
    assert(expected@ =~= sqlite_header());
    if bytes.len() != 16 {
        return false;
    }
    let mut i: usize = 0;
    while i < 16
        invariant
            i <= 16,
            bytes@.len() == 16,
            expected@ == sqlite_header(),
            forall|k: int| 0 <= k < i ==> bytes@[k] == expected@[k],
        decreases 16 - i,
    {
        if bytes[i] != expected[i] {
            return false;
        }
        i = i + 1;
    }
    assert(bytes@ =~= expected@);
    true
}

/// What the start of `Manifest.db` says about it.
#[derive(Debug, Clone, PartialEq, Eq)]
pub struct ManifestStatus {
    pub size_bytes: u64,
    pub is_plain_sqlite: bool,
}

/// The status of a `Manifest.db` of `size_bytes` bytes whose first read gave
/// `head` (at most sixteen bytes): plain SQLite exactly when those are the
/// sixteen bytes of the SQLite header.
pub fn manifest_status(size_bytes: u64, head: &[u8]) -> (status: ManifestStatus)
    ensures
        status.size_bytes == size_bytes,
        status.is_plain_sqlite == (head@ == sqlite_header()),
{
    ManifestStatus { size_bytes, is_plain_sqlite: is_sqlite_header(head) }
}

/// The entries of a property list whose top level is a dictionary.
pub open spec fn plist_dictionary_spec(bytes: Seq<u8>) -> Option<Option<Seq<(String, PlistValue)>>> {
    match plist_decode(bytes) {
        None => None,
        Some(PlistValue::Dictionary(entries)) => Some(Some(entries@)),
        Some(_) => Some(None),
    }
}

/// Parses a property list whose top level must be a dictionary.
pub fn read_plist_dictionary(bytes: &[u8]) -> (dictionary: Result<Vec<(String, PlistValue)>, ExportError>)
    ensures
        match plist_dictionary_spec(bytes@) {
            None => dictionary matches Err(ExportError::PlistUnreadable),
            Some(None) => dictionary matches Err(ExportError::PlistNotDictionary),
            Some(Some(entries)) => dictionary matches Ok(d) && d@ == entries,
        },
{
    match parse_plist(bytes) {
        None => Err(ExportError::PlistUnreadable),
        Some(PlistValue::Dictionary(entries)) => Ok(entries),
        Some(_) => Err(ExportError::PlistNotDictionary),
    }
}

/// Why `Manifest.plist` gives no encryption metadata.
pub enum ManifestFault {
    NotEncrypted,
    FieldMissing(Seq<char>),
    FieldNotData(Seq<char>),
    ManifestKeyTooShort(nat),
    Keybag(TlvFault),
}

/// The error that reports a manifest fault.
pub open spec fn reports_manifest_fault(error: ExportError, fault: ManifestFault) -> bool {
    match fault {
        ManifestFault::NotEncrypted => error matches ExportError::NotEncrypted,
        ManifestFault::FieldMissing(n) => error matches ExportError::ManifestFieldMissing { name } && name@ == n,
        ManifestFault::FieldNotData(n) => error matches ExportError::ManifestFieldNotData { name } && name@ == n,
        ManifestFault::ManifestKeyTooShort(l) => error matches ExportError::ManifestKeyTooShort { len } && len == l,
        ManifestFault::Keybag(f) => reports_fault(error, f),
    }
}

/// A data entry that must be present.
pub open spec fn data_field(entries: Seq<(String, PlistValue)>, name: Seq<char>) -> Result<Seq<u8>, ManifestFault> {
    match dict_lookup(entries, name) {
        Some(PlistValue::Data(data)) => Ok(data@),
        Some(_) => Err(ManifestFault::FieldNotData(name)),
        None => Err(ManifestFault::FieldMissing(name)),
    }
}

/// Whether `IsEncrypted` is present and true.
pub open spec fn marked_encrypted(entries: Seq<(String, PlistValue)>) -> bool {
    match dict_lookup(entries, "IsEncrypted"@) {
        Some(PlistValue::Boolean(b)) => b,
        _ => false,
    }
}

/// The text of an optional string entry.
pub open spec fn string_field(entries: Seq<(String, PlistValue)>, name: Seq<char>) -> Option<Seq<char>> {
    match dict_lookup(entries, name) {
        Some(PlistValue::String(text)) => Some(text@),
        _ => None,
    }
}

/// The encryption metadata of `Manifest.plist`: the backup must be marked
/// encrypted; `BackupKeyBag` and `ManifestKey` must be data; the manifest key's
/// first four bytes (little-endian) are its class and the rest its wrapped
/// key; the keybag must parse. The result is (version, keybag, class, wrapped
/// key, keybag records).
pub open spec fn manifest_metadata_spec(entries: Seq<(String, PlistValue)>) -> Result<
    (Option<Seq<char>>, Seq<u8>, u32, Seq<u8>, Seq<(Seq<u8>, Seq<u8>)>),
    ManifestFault,
> {
    if !marked_encrypted(entries) {
        Err(ManifestFault::NotEncrypted)
    } else {
        match data_field(entries, "BackupKeyBag"@) {
            Err(f) => Err(f),
            Ok(keybag) => match data_field(entries, "ManifestKey"@) {
                Err(f) => Err(f),
                Ok(manifest_key) => if manifest_key.len() < 5 {
                    Err(ManifestFault::ManifestKeyTooShort(manifest_key.len()))
                } else {
                    match tlv_records(keybag) {
                        Err(f) => Err(ManifestFault::Keybag(f)),
                        Ok(records) => Ok(
                            (
                                string_field(entries, "Version"@),
                                keybag,
                                le_u32(manifest_key) as u32,
                                manifest_key.skip(4),
                                records,
                            ),
                        ),
                    }
                },
            },
        }
    }
}

/// Each part of the metadata comes from its own entry of `Manifest.plist`:
/// the keybag is the data under `BackupKeyBag`; the manifest key class is the
/// first four bytes (little-endian) of the data under `ManifestKey`, and the
/// wrapped manifest key the rest of it; the version is the text under
/// `Version`, if any; the backup is marked encrypted; and the records are
/// those of the keybag.
pub proof fn law_manifest_metadata_comes_from_its_entries(entries: Seq<(String, PlistValue)>)
    ensures
        manifest_metadata_spec(entries) matches Ok(m) ==> {
            &&& dict_lookup(entries, "IsEncrypted"@) == Some(PlistValue::Boolean(true))
            &&& dict_lookup(entries, "BackupKeyBag"@) matches Some(PlistValue::Data(keybag)) && keybag@ == m.1
            &&& dict_lookup(entries, "ManifestKey"@) matches Some(PlistValue::Data(key)) && {
                &&& key@.len() >= 5
                &&& m.2 as int == key@[0] as int + key@[1] as int * 256 + key@[2] as int * 65536 + key@[3] as int
                    * 16777216
                &&& m.3 == key@.subrange(4, key@.len() as int)
            }
            &&& tlv_records(m.1) == Ok::<Seq<(Seq<u8>, Seq<u8>)>, TlvFault>(m.4)
            &&& m.0 == match dict_lookup(entries, "Version"@) {
                Some(PlistValue::String(text)) => Some(text@),
                _ => None,
            }
        },
{
    if manifest_metadata_spec(entries) is Ok {
        let key = data_field(entries, "ManifestKey"@)->Ok_0;
        assert(le_u32(key) == key[0] as int + key[1] as int * 256 + key[2] as int * 65536 + key[3] as int * 16777216);
        assert(le_u32(key) < 0x1_0000_0000);
    }
}

fn data_value(entries: &Vec<(String, PlistValue)>, name: &str) -> (data: Result<Vec<u8>, ExportError>)
    ensures
        match data_field(entries@, name@) {
            Ok(d) => data matches Ok(v) && v@ == d,
            Err(f) => data matches Err(e) && reports_manifest_fault(e, f),
        },
{
    match dict_get(entries, name) {
        Some(PlistValue::Data(data)) => Ok(data.clone()),
        Some(_) => Err(ExportError::ManifestFieldNotData { name: String::from_str(name) }),
        None => Err(ExportError::ManifestFieldMissing { name: String::from_str(name) }),
    }
}

/// Reads the encryption metadata out of the dictionary of `Manifest.plist`.
pub fn encrypted_backup_metadata_from_plist(entries: &Vec<(String, PlistValue)>) -> (metadata: Result<
    EncryptedBackupMetadata,
    ExportError,
>)
    ensures
        match manifest_metadata_spec(entries@) {
            Ok((version, keybag, class, wrapped, records)) => metadata matches Ok(m) && {
                &&& m.is_encrypted
                &&& m.backup_keybag@ == keybag
                &&& m.manifest_key_class == class
                &&& m.wrapped_manifest_key@ == wrapped
                &&& entries_view(m.keybag_entries@) == entries_of_records(records)
                &&& match version {
                    Some(v) => m.version matches Some(t) && t@ == v,
                    None => m.version is None,
                }
            },
            Err(f) => metadata matches Err(e) && reports_manifest_fault(e, f),
        },
        metadata matches Ok(m) ==> {
            &&& dict_lookup(entries@, "BackupKeyBag"@) matches Some(PlistValue::Data(keybag))
                && keybag@ == m.backup_keybag@
            &&& dict_lookup(entries@, "ManifestKey"@) matches Some(PlistValue::Data(key))
                && key@.len() >= 5 && m.wrapped_manifest_key@ == key@.subrange(4, key@.len() as int)
                && m.manifest_key_class as int == key@[0] as int + key@[1] as int * 256 + key@[2] as int * 65536
                + key@[3] as int * 16777216
        },
{
    let is_encrypted = match dict_get(entries, "IsEncrypted") {
        Some(PlistValue::Boolean(b)) => *b,
        _ => false,
    };
    if !is_encrypted {
        return Err(ExportError::NotEncrypted);
    }
    let backup_keybag = data_value(entries, "BackupKeyBag")?;
    let manifest_key = data_value(entries, "ManifestKey")?;
    if manifest_key.len() < 5 {
        return Err(ExportError::ManifestKeyTooShort { len: manifest_key.len() });
    }
    let manifest_key_class: u32 = manifest_key[0] as u32 + manifest_key[1] as u32 * 256
        + manifest_key[2] as u32 * 65536 + manifest_key[3] as u32 * 16777216;
    let wrapped_manifest_key = slice_to_vec(slice_subrange(manifest_key.as_slice(), 4, manifest_key.len()));
    assert(wrapped_manifest_key@ =~= manifest_key@.skip(4));
    let keybag_entries = parse_keybag_tlv(backup_keybag.as_slice())?;
    let version = match dict_get(entries, "Version") {
        Some(PlistValue::String(text)) => Some(text.clone()),
        _ => None,
    };
    Ok(EncryptedBackupMetadata {
        version,
        is_encrypted,
        backup_keybag,
        manifest_key_class,
        wrapped_manifest_key,
        keybag_entries,
    })
}

/// Reads the encryption metadata from the bytes of `Manifest.plist`.
pub fn read_encrypted_backup_metadata(manifest_plist: &[u8]) -> (metadata: Result<
    EncryptedBackupMetadata,
    ExportError,
>)
    ensures
        match plist_dictionary_spec(manifest_plist@) {
            None => metadata matches Err(ExportError::PlistUnreadable),
            Some(None) => metadata matches Err(ExportError::PlistNotDictionary),
            Some(Some(entries)) => match manifest_metadata_spec(entries) {
                Ok((version, keybag, class, wrapped, records)) => metadata matches Ok(m) && {
                    &&& m.is_encrypted
                    &&& m.backup_keybag@ == keybag
                    &&& m.manifest_key_class == class
                    &&& m.wrapped_manifest_key@ == wrapped
                    &&& entries_view(m.keybag_entries@) == entries_of_records(records)
                    &&& match version {
                        Some(v) => m.version matches Some(t) && t@ == v,
                        None => m.version is None,
                    }
                },
                Err(f) => metadata matches Err(e) && reports_manifest_fault(e, f),
            },
        },
{
    let entries = read_plist_dictionary(manifest_plist)?;
    encrypted_backup_metadata_from_plist(&entries)
}

} // verus!
