//! The backup folder: choosing the newest backup, what its property lists
//! say about it, and where a stored file lies.

use vstd::prelude::*;
use vstd::string::*;
use crate::error::ExportError;
use crate::manifest::string_field;
use crate::plist_value::{dict_get, dict_lookup, PlistValue};

verus! {

/// What `Info.plist` and `Manifest.plist` say about a backup.
#[derive(Debug, Clone, PartialEq, Eq)]
pub struct BackupInfo {
    pub path: String,
    pub device_name: Option<String>,
    pub product_version: Option<String>,
    pub encrypted: Option<bool>,
}

/// An optional boolean entry.
pub open spec fn bool_field(entries: Seq<(String, PlistValue)>, name: Seq<char>) -> Option<bool> {
    match dict_lookup(entries, name) {
        Some(PlistValue::Boolean(b)) => Some(b),
        _ => None,
    }
}

fn string_value(entries: &Vec<(String, PlistValue)>, name: &str) -> (text: Option<String>)
    ensures
        match string_field(entries@, name@) {
            Some(t) => text matches Some(s) && s@ == t,
            None => text is None,
        },
{
    match dict_get(entries, name) {
        Some(PlistValue::String(text)) => Some(text.clone()),
        _ => None,
    }
}

fn bool_value(entries: &Vec<(String, PlistValue)>, name: &str) -> (flag: Option<bool>)
    ensures
        flag == bool_field(entries@, name@),
{
    match dict_get(entries, name) {
        Some(PlistValue::Boolean(b)) => Some(*b),
        _ => None,
    }
}

/// The description of the backup at `path`: device name and iOS version from
/// `Info.plist`, the encryption flag from `Manifest.plist`.
pub fn backup_info_from_plists(
    path: String,
    info: &Vec<(String, PlistValue)>,
    manifest: &Vec<(String, PlistValue)>,
) -> (backup: BackupInfo)
    ensures
        backup.path@ == path@,
        match string_field(info@, "Device Name"@) {
            Some(t) => backup.device_name matches Some(s) && s@ == t,
            None => backup.device_name is None,
        },
        match string_field(info@, "Product Version"@) {
            Some(t) => backup.product_version matches Some(s) && s@ == t,
            None => backup.product_version is None,
        },
        backup.encrypted == bool_field(manifest@, "IsEncrypted"@),
{
    BackupInfo {
        path,
        device_name: string_value(info, "Device Name"),
        product_version: string_value(info, "Product Version"),
        encrypted: bool_value(manifest, "IsEncrypted"),
    }
}

/// Whether entry `i` is the newest: no entry is newer, and none after it is
/// as new (of equally new entries the last is taken).
pub open spec fn is_newest(modified: Seq<i128>, i: int) -> bool {
    &&& 0 <= i < modified.len()
    &&& forall|j: int| 0 <= j < modified.len() ==> modified[j] <= modified[i]
    &&& forall|j: int| i < j < modified.len() ==> modified[j] < modified[i]
}

/// Picks the newest of the candidate backups by modification time (in
/// nanoseconds from the Unix epoch); an error when there is none.
pub fn newest_backup_index(modified: &[i128]) -> (newest: Result<usize, ExportError>)
    ensures
        modified@.len() == 0 ==> newest matches Err(ExportError::NoBackupFound),
        modified@.len() > 0 ==> (newest matches Ok(i) && is_newest(modified@, i as int)),
{
    if modified.len() == 0 {
        return Err(ExportError::NoBackupFound);
    }
    let mut best: usize = 0;
    let mut i: usize = 1;
    while i < modified.len()
        invariant
            1 <= i <= modified@.len(),
            best < i,
            forall|j: int| 0 <= j < i ==> modified@[j] <= modified@[best as int],
            forall|j: int| best < j < i ==> modified@[j] < modified@[best as int],
        decreases modified@.len() - i,
    {
        if modified[i] >= modified[best] {
            best = i;
        }
        i = i + 1;
    }
    Ok(best)
}

/// The folder of a stored file: the first two bytes of its ID; an error when
/// the ID is shorter than two bytes.
pub fn backup_file_folder(file_id: &str) -> (folder: Result<String, ExportError>)
    requires
        file_id.spec_bytes().len() >= 2 ==> vstd::utf8::is_char_boundary(file_id.spec_bytes(), 2),
    ensures
        file_id.spec_bytes().len() < 2 ==> (folder matches Err(ExportError::InvalidFileId { id }) && id@ == file_id@),
        file_id.spec_bytes().len() >= 2 ==> (folder matches Ok(f) && vstd::utf8::encode_utf8(f@)
            == file_id.spec_bytes().subrange(0, 2)),
{
    if file_id.as_bytes().len() < 2 {
        return Err(ExportError::InvalidFileId { id: file_id.to_owned() });
    }
    let (head, _) = file_id.split_at(2);
    let folder = head.to_owned();
    proof {
        vstd::utf8::encode_utf8_decode_utf8(head@);
    }
    Ok(folder)
}

} // verus!
