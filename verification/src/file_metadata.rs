//! The per-file encryption metadata that `Manifest.db` stores as a keyed
//! archive (an `NSKeyedArchiver` property list).

use vstd::prelude::*;
use vstd::slice::{slice_subrange, slice_to_vec};
use crate::error::ExportError;
use crate::plist_value::{as_dictionary, as_u64, dict_get, dict_lookup, value_u64, PlistValue};
use crate::primitives::{parse_plist, plist_decode};

verus! {

/// How one backup file is encrypted.
#[derive(Debug, Clone, PartialEq, Eq)]
pub struct FileEncryptionMetadata {
    pub protection_class: u32,
    pub wrapped_key: Vec<u8>,
    pub logical_size: Option<u64>,
    pub size_before_copy: Option<u64>,
    pub content_compression_method: Option<u64>,
    pub content_encoding_method: Option<u64>,
}

/// Where an archive reference points out of the `$objects` array.
pub enum ResolveFault {
    UidOutOfRange,
    CfUidOutOfRange,
}

/// The object that a value refers to: a UID, or a dictionary with a `CF$UID`
/// integer, picks an entry of `objects`; any other value stands for itself.
pub open spec fn resolve_spec(objects: Seq<PlistValue>, value: PlistValue) -> Result<PlistValue, ResolveFault> {
    match value {
        PlistValue::Uid(uid) => if uid < objects.len() {
            Ok(objects[uid as int])
        } else {
            Err(ResolveFault::UidOutOfRange)
        },
        PlistValue::Dictionary(entries) => match dict_lookup(entries@, "CF$UID"@) {
            Some(reference) => match as_u64(reference) {
                Some(index) => if index < objects.len() {
                    Ok(objects[index as int])
                } else {
                    Err(ResolveFault::CfUidOutOfRange)
                },
                None => Ok(value),
            },
            None => Ok(value),
        },
        _ => Ok(value),
    }
}

/// The error that reports a resolve fault.
pub open spec fn reports_resolve_fault(error: ExportError, fault: ResolveFault) -> bool {
    match fault {
        ResolveFault::UidOutOfRange => error matches ExportError::ArchiveUidOutOfRange,
        ResolveFault::CfUidOutOfRange => error matches ExportError::ArchiveCfUidOutOfRange,
    }
}

/// Follows a reference into the `$objects` array.
pub fn resolve_archive_value<'a>(objects: &'a [PlistValue], value: &'a PlistValue) -> (resolved: Result<
    &'a PlistValue,
    ExportError,
>)
    ensures
        match resolve_spec(objects@, *value) {
            Ok(v) => resolved matches Ok(r) && *r == v,
            Err(f) => resolved matches Err(e) && reports_resolve_fault(e, f),
        },
{
    match value {
        PlistValue::Uid(uid) => {
            if *uid < objects.len() as u64 {
                Ok(&objects[*uid as usize])
            } else {
                Err(ExportError::ArchiveUidOutOfRange)
            }
        },
        PlistValue::Dictionary(entries) => {
            match dict_get(entries, "CF$UID") {
                Some(reference) => match value_u64(reference) {
                    Some(index) => {
                        if index < objects.len() as u64 {
                            Ok(&objects[index as usize])
                        } else {
                            Err(ExportError::ArchiveCfUidOutOfRange)
                        }
                    },
                    None => Ok(value),
                },
                None => Ok(value),
            }
        },
        _ => Ok(value),
    }
}

/// The bytes held by a value: data itself, or, in a dictionary, what its
/// `NS.data` entry and else its `data` entry resolve to; each dictionary that
/// is entered uses up one unit of `depth`.
pub open spec fn extract_data_spec(objects: Seq<PlistValue>, value: PlistValue, depth: nat) -> Option<Seq<u8>>
    decreases depth, 0nat,
{
    match value {
        PlistValue::Data(data) => Some(data@),
        PlistValue::Dictionary(entries) => if depth == 0 {
            None
        } else {
            match extract_data_under(objects, entries@, "NS.data"@, (depth - 1) as nat) {
                Some(data) => Some(data),
                None => extract_data_under(objects, entries@, "data"@, (depth - 1) as nat),
            }
        },
        _ => None,
    }
}

/// The bytes that the entry under `key` resolves to.
pub open spec fn extract_data_under(
    objects: Seq<PlistValue>,
    entries: Seq<(String, PlistValue)>,
    key: Seq<char>,
    depth: nat,
) -> Option<Seq<u8>>
    decreases depth, 1nat,
{
    match dict_lookup(entries, key) {
        Some(inner) => match resolve_spec(objects, inner) {
            Ok(resolved) => extract_data_spec(objects, resolved, depth),
            Err(_) => None,
        },
        None => None,
    }
}

/// The bytes held by a value, found as `extract_data_spec` describes.
pub fn extract_data<'a>(objects: &'a [PlistValue], value: &'a PlistValue, depth: usize) -> (data: Option<&'a [u8]>)
    ensures
        match extract_data_spec(objects@, *value, depth as nat) {
            Some(d) => data matches Some(x) && x@ == d,
            None => data is None,
        },
    decreases depth, 0nat,
{
    match value {
        PlistValue::Data(data) => Some(data.as_slice()),
        PlistValue::Dictionary(entries) => {
            if depth == 0 {
                return None;
            }
            match extract_data_under_key(objects, entries, "NS.data", depth - 1) {
                Some(data) => Some(data),
                None => extract_data_under_key(objects, entries, "data", depth - 1),
            }
        },
        _ => None,
    }
}

fn extract_data_under_key<'a>(
    objects: &'a [PlistValue],
    entries: &'a Vec<(String, PlistValue)>,
    key: &str,
    depth: usize,
) -> (data: Option<&'a [u8]>)
    ensures
        match extract_data_under(objects@, entries@, key@, depth as nat) {
            Some(d) => data matches Some(x) && x@ == d,
            None => data is None,
        },
    decreases depth, 1nat,
{
    match dict_get(entries, key) {
        Some(inner) => match resolve_archive_value(objects, inner) {
            Ok(resolved) => extract_data(objects, resolved, depth),
            Err(_) => None,
        },
        None => None,
    }
}

/// The number that four bytes give read little-endian.
pub open spec fn le_u32(b: Seq<u8>) -> nat {
    b[0] as nat + b[1] as nat * 256 + b[2] as nat * 65536 + b[3] as nat * 16777216
}

/// Why an archive holds no usable file encryption metadata.
pub enum MetadataFault {
    NotPlist,
    ArchiveNotDictionary,
    NoObjects,
    KeysMissing,
    ProtectionClassInvalid,
    Resolve(ResolveFault),
    NoKeyData,
    KeyTooShort(nat),
    ClassMismatch(u32, nat),
}

/// The error that reports a metadata fault.
pub open spec fn reports_metadata_fault(error: ExportError, fault: MetadataFault) -> bool {
    match fault {
        MetadataFault::NotPlist => error matches ExportError::MetadataNotPlist,
        MetadataFault::ArchiveNotDictionary => error matches ExportError::MetadataArchiveNotDictionary,
        MetadataFault::NoObjects => error matches ExportError::MetadataNoObjects,
        MetadataFault::KeysMissing => error matches ExportError::MetadataKeysMissing,
        MetadataFault::ProtectionClassInvalid => error matches ExportError::ProtectionClassInvalid,
        MetadataFault::Resolve(f) => reports_resolve_fault(error, f),
        MetadataFault::NoKeyData => error matches ExportError::EncryptionKeyNoData,
        MetadataFault::KeyTooShort(n) => error matches ExportError::EncryptionKeyTooShort { len } && len == n,
        MetadataFault::ClassMismatch(c, p) => error matches ExportError::ProtectionClassMismatch {
            class,
            prefix,
        } && class == c && prefix == p,
    }
}

/// The `$objects` array of a keyed archive.
pub open spec fn archive_objects(archive: PlistValue) -> Result<Seq<PlistValue>, MetadataFault> {
    match as_dictionary(archive) {
        None => Err(MetadataFault::ArchiveNotDictionary),
        Some(entries) => match dict_lookup(entries, "$objects"@) {
            Some(PlistValue::Array(items)) => Ok(items@),
            _ => Err(MetadataFault::NoObjects),
        },
    }
}

/// Whether a dictionary has both an `EncryptionKey` and a `ProtectionClass` entry.
pub open spec fn has_metadata_keys(entries: Seq<(String, PlistValue)>) -> bool {
    dict_lookup(entries, "EncryptionKey"@) is Some && dict_lookup(entries, "ProtectionClass"@) is Some
}

/// The first object that is a dictionary with both metadata keys.
pub open spec fn find_metadata_dict(objects: Seq<PlistValue>) -> Option<Seq<(String, PlistValue)>>
    decreases objects.len(),
{
    if objects.len() == 0 {
        None
    } else {
        match as_dictionary(objects[0]) {
            Some(entries) => if has_metadata_keys(entries) {
                Some(entries)
            } else {
                find_metadata_dict(objects.drop_first())
            },
            None => find_metadata_dict(objects.drop_first()),
        }
    }
}

/// An optional integer entry.
pub open spec fn u64_field(entries: Seq<(String, PlistValue)>, key: Seq<char>) -> Option<u64> {
    match dict_lookup(entries, key) {
        Some(v) => as_u64(v),
        None => None,
    }
}

/// The depth to which data is looked for inside nested dictionaries: no bound
/// short of the machine's.
pub open spec fn extract_depth() -> nat {
    usize::MAX as nat
}

/// The file encryption metadata of a keyed archive: the object with both keys
/// gives the protection class, which the first four bytes of the encryption
/// key (little-endian) must repeat; the rest of the key is the wrapped key.
pub open spec fn archive_metadata_spec(archive: PlistValue) -> Result<
    (u32, Seq<u8>, Option<u64>, Option<u64>, Option<u64>, Option<u64>),
    MetadataFault,
> {
    match archive_objects(archive) {
        Err(f) => Err(f),
        Ok(objects) => match find_metadata_dict(objects) {
            None => Err(MetadataFault::KeysMissing),
            Some(entries) => match u64_field(entries, "ProtectionClass"@) {
                None => Err(MetadataFault::ProtectionClassInvalid),
                Some(class) => if class > u32::MAX {
                    Err(MetadataFault::ProtectionClassInvalid)
                } else {
                    match resolve_spec(objects, dict_lookup(entries, "EncryptionKey"@)->Some_0) {
                        Err(f) => Err(MetadataFault::Resolve(f)),
                        Ok(key_value) => match extract_data_spec(objects, key_value, extract_depth()) {
                            None => Err(MetadataFault::NoKeyData),
                            Some(key) => if key.len() < 5 {
                                Err(MetadataFault::KeyTooShort(key.len()))
                            } else if le_u32(key) != class {
                                Err(MetadataFault::ClassMismatch(class as u32, le_u32(key)))
                            } else {
                                Ok(
                                    (
                                        class as u32,
                                        key.skip(4),
                                        u64_field(entries, "Size"@),
                                        u64_field(entries, "SizeBeforeCopy"@),
                                        u64_field(entries, "ContentCompressionMethod"@),
                                        u64_field(entries, "ContentEncodingMethod"@),
                                    ),
                                )
                            },
                        },
                    }
                },
            },
        },
    }
}

impl View for FileEncryptionMetadata {
    type V = (u32, Seq<u8>, Option<u64>, Option<u64>, Option<u64>, Option<u64>);

    open spec fn view(&self) -> (u32, Seq<u8>, Option<u64>, Option<u64>, Option<u64>, Option<u64>) {
        (
            self.protection_class,
            self.wrapped_key@,
            self.logical_size,
            self.size_before_copy,
            self.content_compression_method,
            self.content_encoding_method,
        )
    }
}

/// The integer of an entry of a dictionary, when it holds a non-negative one.
pub open spec fn entry_integer(entries: Seq<(String, PlistValue)>, key: Seq<char>) -> Option<u64> {
    match dict_lookup(entries, key) {
        Some(PlistValue::Integer(n)) => n,
        _ => None,
    }
}

/// Each field of the metadata comes from its own key of the archive object
/// that holds both `EncryptionKey` and `ProtectionClass`: the protection class
/// from `ProtectionClass`, the logical size from `Size`, the size before copy
/// from `SizeBeforeCopy`, the compression method from
/// `ContentCompressionMethod` and the encoding method from
/// `ContentEncodingMethod`; an absent key gives no value.
pub proof fn law_metadata_fields_come_from_their_keys(archive: PlistValue)
    ensures
        archive_metadata_spec(archive) matches Ok(m) ==> {
            let entries = find_metadata_dict(archive_objects(archive)->Ok_0)->Some_0;
            &&& has_metadata_keys(entries)
            &&& entry_integer(entries, "ProtectionClass"@) == Some(m.0 as u64)
            &&& m.2 == entry_integer(entries, "Size"@)
            &&& m.3 == entry_integer(entries, "SizeBeforeCopy"@)
            &&& m.4 == entry_integer(entries, "ContentCompressionMethod"@)
            &&& m.5 == entry_integer(entries, "ContentEncodingMethod"@)
        },
{
    if archive_metadata_spec(archive) is Ok {
        lemma_found_dict_has_keys(archive_objects(archive)->Ok_0);
    }
}

proof fn lemma_found_dict_has_keys(objects: Seq<PlistValue>)
    ensures
        find_metadata_dict(objects) matches Some(entries) ==> has_metadata_keys(entries),
    decreases objects.len(),
{
    if objects.len() > 0 {
        lemma_found_dict_has_keys(objects.drop_first());
    }
}

fn find_metadata_object(objects: &Vec<PlistValue>) -> (found: Option<&Vec<(String, PlistValue)>>)
    ensures
        match find_metadata_dict(objects@) {
            Some(entries) => found matches Some(f) && f@ == entries,
            None => found is None,
        },
{
    let ghost all = objects@;
    let mut i: usize = 0;
    assert(all.skip(0) =~= all);
    while i < objects.len()
        invariant
            i <= objects@.len(),
            all == objects@,
            find_metadata_dict(all) == find_metadata_dict(all.skip(i as int)),
        decreases objects@.len() - i,
    {
        assert(all.skip(i as int)[0] == objects@[i as int]);
        assert(all.skip(i as int).drop_first() =~= all.skip(i + 1));
        if let PlistValue::Dictionary(entries) = &objects[i] {
            if dict_get(entries, "EncryptionKey").is_some() && dict_get(entries, "ProtectionClass").is_some() {
                return Some(entries);
            }
        }
        i = i + 1;
    }
    assert(all.skip(i as int) =~= seq![]);
    None
}

fn u64_entry(entries: &Vec<(String, PlistValue)>, key: &str) -> (number: Option<u64>)
    ensures
        number == u64_field(entries@, key@),
{
    match dict_get(entries, key) {
        Some(v) => value_u64(v),
        None => None,
    }
}

/// Reads the file encryption metadata out of a parsed keyed archive.
pub fn file_encryption_metadata_from_archive(archive: &PlistValue) -> (metadata: Result<
    FileEncryptionMetadata,
    ExportError,
>)
    ensures
        match archive_metadata_spec(*archive) {
            Ok(m) => metadata matches Ok(v) && v@ == m,
            Err(f) => metadata matches Err(e) && reports_metadata_fault(e, f),
        },
        metadata matches Ok(v) ==> {
            let entries = find_metadata_dict(archive_objects(*archive)->Ok_0)->Some_0;
            &&& v.logical_size == entry_integer(entries, "Size"@)
            &&& v.size_before_copy == entry_integer(entries, "SizeBeforeCopy"@)
            &&& v.content_compression_method == entry_integer(entries, "ContentCompressionMethod"@)
            &&& v.content_encoding_method == entry_integer(entries, "ContentEncodingMethod"@)
        },
{
    let archive_entries = match archive {
        PlistValue::Dictionary(entries) => entries,
        _ => {
            return Err(ExportError::MetadataArchiveNotDictionary);
        },
    };
    let objects = match dict_get(archive_entries, "$objects") {
        Some(PlistValue::Array(items)) => items,
        _ => {
            return Err(ExportError::MetadataNoObjects);
        },
    };
    let entries = match find_metadata_object(objects) {
        Some(entries) => entries,
        None => {
            return Err(ExportError::MetadataKeysMissing);
        },
    };
    let protection_class: u32 = match u64_entry(entries, "ProtectionClass") {
        Some(class) => {
            if class > u32::MAX as u64 {
                return Err(ExportError::ProtectionClassInvalid);
            }
            class as u32
        },
        None => {
            return Err(ExportError::ProtectionClassInvalid);
        },
    };
    proof {
        lemma_found_dict_has_keys(objects@);
    }
    let encryption_ref = match dict_get(entries, "EncryptionKey") {
        Some(r) => r,
        None => {
            return Err(ExportError::MetadataKeysMissing);
        },
    };
    let encryption_value = resolve_archive_value(objects.as_slice(), encryption_ref)?;
    let key_data = match extract_data(objects.as_slice(), encryption_value, usize::MAX) {
        Some(data) => data,
        None => {
            return Err(ExportError::EncryptionKeyNoData);
        },
    };
    if key_data.len() < 5 {
        return Err(ExportError::EncryptionKeyTooShort { len: key_data.len() });
    }
    let prefix: u32 = key_data[0] as u32 + key_data[1] as u32 * 256 + key_data[2] as u32 * 65536
        + key_data[3] as u32 * 16777216;
    if prefix != protection_class {
        return Err(ExportError::ProtectionClassMismatch { class: protection_class, prefix });
    }
    let wrapped_key = slice_to_vec(slice_subrange(key_data, 4, key_data.len()));
    assert(wrapped_key@ =~= key_data@.skip(4));
    Ok(FileEncryptionMetadata {
        protection_class,
        wrapped_key,
        logical_size: u64_entry(entries, "Size"),
        size_before_copy: u64_entry(entries, "SizeBeforeCopy"),
        content_compression_method: u64_entry(entries, "ContentCompressionMethod"),
        content_encoding_method: u64_entry(entries, "ContentEncodingMethod"),
    })
}

/// Parses the metadata blob of a `Manifest.db` record.
pub fn parse_file_encryption_metadata(blob: &[u8]) -> (metadata: Result<FileEncryptionMetadata, ExportError>)
    ensures
        match plist_decode(blob@) {
            None => metadata matches Err(ExportError::MetadataNotPlist),
            Some(archive) => match archive_metadata_spec(archive) {
                Ok(m) => metadata matches Ok(v) && v@ == m,
                Err(f) => metadata matches Err(e) && reports_metadata_fault(e, f),
            },
        },
{
    match parse_plist(blob) {
        None => Err(ExportError::MetadataNotPlist),
        Some(archive) => file_encryption_metadata_from_archive(&archive),
    }
}

} // verus!
