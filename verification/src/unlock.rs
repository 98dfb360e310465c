//! The key hierarchy of an encrypted backup: the password gives the passcode
//! key, which unwraps the class keys, which unwrap the manifest and file keys.

use vstd::prelude::*;
use vstd::string::*;
use crate::error::ExportError;
use std::collections::HashMap;
use crate::key_wrap::{aes_key_unwrap, rfc3394_unwrap, wrapped_len_ok};
use crate::manifest::{is_sqlite_header, sqlite_header, EncryptedBackupMetadata};
use crate::primitives::{aes256_decrypt, aes256_decrypt_block};
use crate::file_metadata::FileEncryptionMetadata;
use crate::keybag::{
    entries_view, required_tag, required_u32, same_text, parse_u32_value, tag_value, u32_value,
    KeybagEntry,
};
use crate::primitives::{
    derive_pbkdf2_sha1, derive_pbkdf2_sha256, pbkdf2_hmac_sha1, pbkdf2_hmac_sha256, seal_secret,
    secret_bytes, secret_view, SecretKey,
};

verus! {

/// A missing or malformed keybag entry.
pub enum KeybagFault {
    TagMissing(Seq<char>),
    TagNotU32(Seq<char>),
}

/// The value of a keybag entry that must be present.
pub open spec fn required_tag_spec(entries: Seq<(Seq<char>, Seq<u8>)>, tag: Seq<char>) -> Result<Seq<u8>, KeybagFault> {
    match tag_value(entries, tag) {
        Some(v) => Ok(v),
        None => Err(KeybagFault::TagMissing(tag)),
    }
}

/// The four-byte number of a keybag entry that must be present.
pub open spec fn required_u32_spec(entries: Seq<(Seq<char>, Seq<u8>)>, tag: Seq<char>) -> Result<u32, KeybagFault> {
    match tag_value(entries, tag) {
        Some(v) => match u32_value(v) {
            Some(n) => Ok(n),
            None => Err(KeybagFault::TagNotU32(tag)),
        },
        None => Err(KeybagFault::TagMissing(tag)),
    }
}

/// The passcode key: PBKDF2-HMAC-SHA256 of the password with salt `DPSL` in
/// `DPIC` rounds, then PBKDF2-HMAC-SHA1 of that with salt `SALT` in `ITER`
/// rounds, 32 bytes each; or the first entry among `SALT`, `ITER`, `DPSL`,
/// `DPIC` that is missing or malformed.
pub open spec fn passcode_key_spec(entries: Seq<(Seq<char>, Seq<u8>)>, password: Seq<u8>) -> Result<Seq<u8>, KeybagFault> {
    match required_tag_spec(entries, "SALT"@) {
        Err(f) => Err(f),
        Ok(salt) => match required_u32_spec(entries, "ITER"@) {
            Err(f) => Err(f),
            Ok(iter) => match required_tag_spec(entries, "DPSL"@) {
                Err(f) => Err(f),
                Ok(dpsl) => match required_u32_spec(entries, "DPIC"@) {
                    Err(f) => Err(f),
                    Ok(dpic) => Ok(
                        pbkdf2_hmac_sha1(pbkdf2_hmac_sha256(password, dpsl, dpic, 32), salt, iter, 32),
                    ),
                },
            },
        },
    }
}

/// The passcode key is derived from the password's bytes exactly as given:
/// PBKDF2-HMAC-SHA256 of the password with the `DPSL` salt in `DPIC` rounds,
/// then PBKDF2-HMAC-SHA1 of that with the `SALT` salt in `ITER` rounds, each
/// 32 bytes long. It is derived exactly when all four entries are present and
/// `ITER` and `DPIC` are four-byte numbers.
pub proof fn law_passcode_key_uses_password_as_given(entries: Seq<(Seq<char>, Seq<u8>)>, password: Seq<u8>)
    ensures
        passcode_key_spec(entries, password) is Ok <==> {
            &&& tag_value(entries, "SALT"@) is Some
            &&& tag_value(entries, "DPSL"@) is Some
            &&& tag_value(entries, "ITER"@) matches Some(i) && u32_value(i) is Some
            &&& tag_value(entries, "DPIC"@) matches Some(d) && u32_value(d) is Some
        },
        passcode_key_spec(entries, password) matches Ok(key) ==> key == pbkdf2_hmac_sha1(
            pbkdf2_hmac_sha256(
                password,
                tag_value(entries, "DPSL"@)->Some_0,
                u32_value(tag_value(entries, "DPIC"@)->Some_0)->Some_0,
                32,
            ),
            tag_value(entries, "SALT"@)->Some_0,
            u32_value(tag_value(entries, "ITER"@)->Some_0)->Some_0,
            32,
        ),
{
}

/// The error that reports a keybag fault.
pub open spec fn reports_keybag_fault(error: ExportError, fault: KeybagFault) -> bool {
    match (fault, error) {
        (KeybagFault::TagMissing(t), ExportError::KeybagTagMissing { tag }) => tag@ == t,
        (KeybagFault::TagNotU32(t), ExportError::KeybagTagNotU32 { tag }) => tag@ == t,
        _ => false,
    }
}

fn zeroed_secret(len: usize) -> (secret: SecretKey)
    ensures
        secret_view(secret).len() == len,
{
    seal_secret(vec![0u8; len])
}

/// Derives the passcode key from the password and the keybag's parameters.
pub fn derive_passcode_key(entries: &[KeybagEntry], password: &[u8]) -> (key: Result<SecretKey, ExportError>)
    ensures
        match passcode_key_spec(entries_view(entries@), password@) {
            Ok(k) => key matches Ok(s) && secret_view(s) == k,
            Err(f) => key matches Err(e) && reports_keybag_fault(e, f),
        },
        key matches Ok(s) ==> secret_view(s).len() == 32,
        key matches Ok(s) ==> secret_view(s) == pbkdf2_hmac_sha1(
            pbkdf2_hmac_sha256(
                password@,
                tag_value(entries_view(entries@), "DPSL"@)->Some_0,
                u32_value(tag_value(entries_view(entries@), "DPIC"@)->Some_0)->Some_0,
                32,
            ),
            tag_value(entries_view(entries@), "SALT"@)->Some_0,
            u32_value(tag_value(entries_view(entries@), "ITER"@)->Some_0)->Some_0,
            32,
        ),
{
    let salt = required_tag(entries, "SALT")?;
    let iter = required_u32(entries, "ITER")?;
    let dpsl = required_tag(entries, "DPSL")?;
    let dpic = required_u32(entries, "DPIC")?;

    let mut intermediate = zeroed_secret(32);
    derive_pbkdf2_sha256(password, dpsl, dpic, &mut intermediate);
    let mut passcode_key = zeroed_secret(32);
    derive_pbkdf2_sha1(secret_bytes(&intermediate), salt, iter, &mut passcode_key);
    Ok(passcode_key)
}

/// One class key record of the keybag: its class, how it is wrapped, and the
/// wrapped key.
#[derive(Debug, Clone, PartialEq, Eq)]
pub struct ClassKeyRecord {
    pub class: u32,
    pub wrap: u32,
    pub wrapped_key: Vec<u8>,
}

impl View for ClassKeyRecord {
    type V = (u32, u32, Seq<u8>);

    open spec fn view(&self) -> (u32, u32, Seq<u8>) {
        (self.class, self.wrap, self.wrapped_key@)
    }
}

/// What the scan over the keybag holds after some entries: the class, wrap and
/// wrapped key seen since the last `UUID`, and the records completed so far.
pub struct ClassScan {
    pub class: Option<u32>,
    pub wrap: Option<u32>,
    pub key: Option<Seq<u8>>,
    pub records: Seq<(u32, u32, Seq<u8>)>,
}

/// The records, with the pending one added when all three parts are known.
pub open spec fn flush_scan(s: ClassScan) -> Seq<(u32, u32, Seq<u8>)> {
    match (s.class, s.wrap, s.key) {
        (Some(c), Some(w), Some(k)) => s.records.push((c, w, k)),
        _ => s.records,
    }
}

/// The scan after one more entry: `UUID` starts a new record, `CLAS` and `WRAP`
/// set the class and wrap (to nothing when not a four-byte number), `WPKY`
/// sets the wrapped key; other tags change nothing.
pub open spec fn scan_step(s: ClassScan, entry: (Seq<char>, Seq<u8>)) -> ClassScan {
    if entry.0 == "UUID"@ {
        ClassScan { class: None, wrap: None, key: None, records: flush_scan(s) }
    } else if entry.0 == "CLAS"@ {
        ClassScan { class: u32_value(entry.1), ..s }
    } else if entry.0 == "WRAP"@ {
        ClassScan { wrap: u32_value(entry.1), ..s }
    } else if entry.0 == "WPKY"@ {
        ClassScan { key: Some(entry.1), ..s }
    } else {
        s
    }
}

/// The scan over all of `entries`.
pub open spec fn class_scan(entries: Seq<(Seq<char>, Seq<u8>)>) -> ClassScan
    decreases entries.len(),
{
    if entries.len() == 0 {
        ClassScan { class: None, wrap: None, key: None, records: seq![] }
    } else {
        scan_step(class_scan(entries.drop_last()), entries.last())
    }
}

/// The class key records of a keybag, or nothing when it holds none.
pub open spec fn class_key_records(entries: Seq<(Seq<char>, Seq<u8>)>) -> Option<Seq<(u32, u32, Seq<u8>)>> {
    let records = flush_scan(class_scan(entries));
    if records.len() == 0 {
        None
    } else {
        Some(records)
    }
}

pub open spec fn records_view(records: Seq<ClassKeyRecord>) -> Seq<(u32, u32, Seq<u8>)> {
    records.map_values(|r: ClassKeyRecord| r@)
}

/// Collects the class key records of the keybag.
pub fn parse_class_keys(entries: &[KeybagEntry]) -> (records: Result<Vec<ClassKeyRecord>, ExportError>)
    ensures
        match class_key_records(entries_view(entries@)) {
            Some(r) => records matches Ok(v) && records_view(v@) == r,
            None => records matches Err(ExportError::NoClassKeys),
        },
{
    let ghost all = entries_view(entries@);
    let mut records: Vec<ClassKeyRecord> = Vec::new();
    let mut class: Option<u32> = None;
    let mut wrap: Option<u32> = None;
    let mut wrapped_key: Option<Vec<u8>> = None;
    let mut i: usize = 0;
    assert(all.take(0) =~= seq![]);
    while i < entries.len()
        invariant
            i <= entries@.len(),
            all == entries_view(entries@),
            ({
                let s = class_scan(all.take(i as int));
                &&& s.class == class
                &&& s.wrap == wrap
                &&& s.key == (match wrapped_key {
                    Some(k) => Some(k@),
                    None => None::<Seq<u8>>,
                })
                &&& s.records == records_view(records@)
            }),
        decreases entries@.len() - i,
    {
        proof {
            assert(all.take(i + 1).drop_last() =~= all.take(i as int));
            assert(all.take(i + 1).last() == entries@[i as int]@);
        }
        let entry = &entries[i];
        if same_text(entry.tag.as_str(), "UUID") {
            if class.is_some() && wrap.is_some() && wrapped_key.is_some() {
                let ghost before = records_view(records@);
                let record = ClassKeyRecord {
                    class: class.unwrap(),
                    wrap: wrap.unwrap(),
                    wrapped_key: wrapped_key.unwrap(),
                };
                records.push(record);
                assert(records_view(records@) =~= before.push(record@));
            }
            class = None;
            wrap = None;
            wrapped_key = None;
        } else if same_text(entry.tag.as_str(), "CLAS") {
            class = parse_u32_value(entry.value.as_slice());
        } else if same_text(entry.tag.as_str(), "WRAP") {
            wrap = parse_u32_value(entry.value.as_slice());
        } else if same_text(entry.tag.as_str(), "WPKY") {
            wrapped_key = Some(entry.value.clone());
        }
        i = i + 1;
    }
    assert(all.take(i as int) =~= all);
    if class.is_some() && wrap.is_some() && wrapped_key.is_some() {
        let ghost before = records_view(records@);
        let record = ClassKeyRecord {
            class: class.unwrap(),
            wrap: wrap.unwrap(),
            wrapped_key: wrapped_key.unwrap(),
        };
        records.push(record);
        assert(records_view(records@) =~= before.push(record@));
    }
    if records.len() == 0 {
        return Err(ExportError::NoClassKeys);
    }
    Ok(records)
}

/// What unwrapping gives when it may fail for any reason: the key, or nothing.
pub open spec fn key_unwrap_spec(kek: Seq<u8>, wrapped: Seq<u8>) -> Option<Seq<u8>> {
    if kek.len() == 32 && wrapped_len_ok(wrapped.len()) {
        rfc3394_unwrap(kek, wrapped)
    } else {
        None
    }
}

/// Unwraps, with every failure reported as nothing.
fn try_unwrap(kek: &[u8], wrapped: &[u8]) -> (key: Option<Vec<u8>>)
    ensures
        match key_unwrap_spec(kek@, wrapped@) {
            Some(k) => key matches Some(v) && v@ == k,
            None => key is None,
        },
{
    match aes_key_unwrap(kek, wrapped) {
        Ok(key) => Some(key),
        Err(_) => None,
    }
}

/// Why unlocking failed, as opposed to the password being wrong.
pub enum UnlockFault {
    Keybag(KeybagFault),
    NoClassKeys,
    ClassMissing(u32),
    ClassNotPasscode(u32, u32),
    ClassKeyLength(u32, nat),
    ManifestClassKeyLength(nat),
    ManifestClassLocked(u32),
    ManifestKeyLength(nat),
}

/// The error that reports an unlock fault.
pub open spec fn reports_unlock_fault(error: ExportError, fault: UnlockFault) -> bool {
    match fault {
        UnlockFault::Keybag(f) => reports_keybag_fault(error, f),
        UnlockFault::NoClassKeys => error matches ExportError::NoClassKeys,
        UnlockFault::ClassMissing(c) => error matches ExportError::ClassKeyMissing { class } && class == c,
        UnlockFault::ClassNotPasscode(c, w) => error matches ExportError::ClassNotPasscodeProtected {
            class,
            wrap,
        } && class == c && wrap == w,
        UnlockFault::ClassKeyLength(c, l) => error matches ExportError::ClassKeyLength { class, len }
            && class == c && len == l,
        UnlockFault::ManifestClassKeyLength(l) => error matches ExportError::ManifestClassKeyLength { len }
            && len == l,
        UnlockFault::ManifestClassLocked(c) => error matches ExportError::ManifestClassLocked { class }
            && class == c,
        UnlockFault::ManifestKeyLength(l) => error matches ExportError::ManifestKeyLength { len } && len == l,
    }
}

/// The first class key record of the given class.
pub open spec fn record_of_class(records: Seq<(u32, u32, Seq<u8>)>, class: u32) -> Option<(u32, u32, Seq<u8>)>
    decreases records.len(),
{
    if records.len() == 0 {
        None
    } else if records[0].0 == class {
        Some(records[0])
    } else {
        record_of_class(records.drop_first(), class)
    }
}

/// Whether a wrap value says that the key is protected by the passcode.
pub open spec fn passcode_wrapped(wrap: u32) -> bool {
    wrap & 2u32 != 0
}

/// Unlocking the manifest key alone: the key of the record of the manifest's
/// class is unwrapped with the passcode key, and the manifest key with that.
/// `Ok(None)` stands for a wrong password: an unwrapping that fails.
pub open spec fn manifest_unlock_spec(
    entries: Seq<(Seq<char>, Seq<u8>)>,
    class: u32,
    wrapped_manifest_key: Seq<u8>,
    password: Seq<u8>,
) -> Result<Option<Seq<u8>>, UnlockFault> {
    match passcode_key_spec(entries, password) {
        Err(f) => Err(UnlockFault::Keybag(f)),
        Ok(pk) => match class_key_records(entries) {
            None => Err(UnlockFault::NoClassKeys),
            Some(records) => match record_of_class(records, class) {
                None => Err(UnlockFault::ClassMissing(class)),
                Some(record) => if !passcode_wrapped(record.1) {
                    Err(UnlockFault::ClassNotPasscode(record.0, record.1))
                } else {
                    match key_unwrap_spec(pk, record.2) {
                        None => Ok(None),
                        Some(ck) => if ck.len() != 32 {
                            Err(UnlockFault::ManifestClassKeyLength(ck.len()))
                        } else {
                            match key_unwrap_spec(ck, wrapped_manifest_key) {
                                None => Ok(None),
                                Some(mk) => if mk.len() != 32 {
                                    Err(UnlockFault::ManifestKeyLength(mk.len()))
                                } else {
                                    Ok(Some(mk))
                                },
                            }
                        },
                    }
                },
            },
        },
    }
}

fn find_class_record(records: &Vec<ClassKeyRecord>, class: u32) -> (found: Option<usize>)
    ensures
        match record_of_class(records_view(records@), class) {
            Some(r) => found matches Some(i) && i < records@.len() && records@[i as int]@ == r,
            None => found is None,
        },
{
    let ghost all = records_view(records@);
    let mut i: usize = 0;
    assert(all.skip(0) =~= all);
    while i < records.len()
        invariant
            i <= records@.len(),
            all == records_view(records@),
            record_of_class(all, class) == record_of_class(all.skip(i as int), class),
        decreases records@.len() - i,
    {
        assert(all.skip(i as int)[0] == records@[i as int]@);
        if records[i].class == class {
            return Some(i);
        }
        assert(all.skip(i as int).drop_first() =~= all.skip(i + 1));
        i = i + 1;
    }
    assert(all.skip(i as int) =~= seq![]);
    None
}

/// Unlocks the 32-byte manifest key with the backup password; `Ok(None)` when
/// the password is wrong.
pub fn unlock_manifest_key(metadata: &EncryptedBackupMetadata, password: &[u8]) -> (key: Result<
    Option<SecretKey>,
    ExportError,
>)
    ensures
        match manifest_unlock_spec(
            entries_view(metadata.keybag_entries@),
            metadata.manifest_key_class,
            metadata.wrapped_manifest_key@,
            password@,
        ) {
            Ok(None) => key matches Ok(None),
            Ok(Some(k)) => key matches Ok(Some(s)) && secret_view(s) == k,
            Err(f) => key matches Err(e) && reports_unlock_fault(e, f),
        },
        key matches Ok(Some(s)) ==> secret_view(s).len() == 32,
{
    let passcode_key = derive_passcode_key(metadata.keybag_entries.as_slice(), password)?;
    let class_keys = parse_class_keys(metadata.keybag_entries.as_slice())?;
    let index = match find_class_record(&class_keys, metadata.manifest_key_class) {
        Some(i) => i,
        None => {
            return Err(ExportError::ClassKeyMissing { class: metadata.manifest_key_class });
        },
    };
    let record = &class_keys[index];
    if record.wrap & 2 == 0 {
        return Err(ExportError::ClassNotPasscodeProtected { class: record.class, wrap: record.wrap });
    }
    let class_key = match try_unwrap(secret_bytes(&passcode_key), record.wrapped_key.as_slice()) {
        Some(k) => seal_secret(k),
        None => {
            return Ok(None);
        },
    };
    let class_bytes = secret_bytes(&class_key);
    if class_bytes.len() != 32 {
        return Err(ExportError::ManifestClassKeyLength { len: class_bytes.len() });
    }
    let manifest_key = match try_unwrap(class_bytes, metadata.wrapped_manifest_key.as_slice()) {
        Some(k) => seal_secret(k),
        None => {
            return Ok(None);
        },
    };
    let manifest_len = secret_bytes(&manifest_key).len();
    if manifest_len != 32 {
        return Err(ExportError::ManifestKeyLength { len: manifest_len });
    }
    Ok(Some(manifest_key))
}

/// Unlocking one more class key record into the keys unlocked so far: records
/// not protected by the passcode are skipped; a failed unwrapping means a
/// wrong password.
pub open spec fn class_unlock_step(pk: Seq<u8>, keys: Map<u32, Seq<u8>>, record: (u32, u32, Seq<u8>)) -> Result<
    Option<Map<u32, Seq<u8>>>,
    UnlockFault,
> {
    if !passcode_wrapped(record.1) {
        Ok(Some(keys))
    } else {
        match key_unwrap_spec(pk, record.2) {
            None => Ok(None),
            Some(k) => if k.len() != 32 {
                Err(UnlockFault::ClassKeyLength(record.0, k.len()))
            } else {
                Ok(Some(keys.insert(record.0, k)))
            },
        }
    }
}

/// Unlocking the class keys of the records in order; a later record of the
/// same class replaces an earlier one.
pub open spec fn unlock_classes(pk: Seq<u8>, records: Seq<(u32, u32, Seq<u8>)>) -> Result<
    Option<Map<u32, Seq<u8>>>,
    UnlockFault,
>
    decreases records.len(),
{
    if records.len() == 0 {
        Ok(Some(Map::empty()))
    } else {
        match unlock_classes(pk, records.drop_last()) {
            Ok(Some(keys)) => class_unlock_step(pk, keys, records.last()),
            Ok(None) => Ok(None),
            Err(f) => Err(f),
        }
    }
}

/// Unlocking the whole backup: all class keys that the password protects, and
/// the manifest key under its class key.
pub open spec fn backup_unlock_spec(
    entries: Seq<(Seq<char>, Seq<u8>)>,
    class: u32,
    wrapped_manifest_key: Seq<u8>,
    password: Seq<u8>,
) -> Result<Option<(Seq<u8>, Map<u32, Seq<u8>>)>, UnlockFault> {
    match passcode_key_spec(entries, password) {
        Err(f) => Err(UnlockFault::Keybag(f)),
        Ok(pk) => match class_key_records(entries) {
            None => Err(UnlockFault::NoClassKeys),
            Some(records) => match unlock_classes(pk, records) {
                Err(f) => Err(f),
                Ok(None) => Ok(None),
                Ok(Some(keys)) => if !keys.contains_key(class) {
                    Err(UnlockFault::ManifestClassLocked(class))
                } else {
                    match key_unwrap_spec(keys[class], wrapped_manifest_key) {
                        None => Ok(None),
                        Some(mk) => if mk.len() != 32 {
                            Err(UnlockFault::ManifestKeyLength(mk.len()))
                        } else {
                            Ok(Some((mk, keys)))
                        },
                    }
                },
            },
        },
    }
}

proof fn lemma_unlock_stops(pk: Seq<u8>, records: Seq<(u32, u32, Seq<u8>)>, k: int)
    requires
        0 <= k <= records.len(),
        !(unlock_classes(pk, records.take(k)) matches Ok(Some(_))),
    ensures
        unlock_classes(pk, records) == unlock_classes(pk, records.take(k)),
    decreases records.len(),
{
    if k == records.len() {
        assert(records.take(k) =~= records);
    } else {
        assert(records.drop_last().take(k) =~= records.take(k));
        lemma_unlock_stops(pk, records.drop_last(), k);
    }
}

proof fn lemma_unlocked_keys_are_32_bytes(pk: Seq<u8>, records: Seq<(u32, u32, Seq<u8>)>)
    ensures
        unlock_classes(pk, records) matches Ok(Some(keys)) ==> forall|c: u32| #[trigger] keys.contains_key(c)
            ==> keys[c].len() == 32,
    decreases records.len(),
{
    if records.len() > 0 {
        lemma_unlocked_keys_are_32_bytes(pk, records.drop_last());
    }
}

proof fn lemma_backup_keys_are_32_bytes(
    entries: Seq<(Seq<char>, Seq<u8>)>,
    class: u32,
    wrapped_manifest_key: Seq<u8>,
    password: Seq<u8>,
)
    ensures
        backup_unlock_spec(entries, class, wrapped_manifest_key, password) matches Ok(Some(keys)) ==> keys.0.len()
            == 32 && forall|c: u32| #[trigger] keys.1.contains_key(c) ==> keys.1[c].len() == 32,
{
    if let Ok(pk) = passcode_key_spec(entries, password) {
        if let Some(records) = class_key_records(entries) {
            lemma_unlocked_keys_are_32_bytes(pk, records);
        }
    }
}

/// The keys of an unlocked backup.
pub struct UnlockedBackup {
    manifest_key: SecretKey,
    class_keys: HashMap<u32, SecretKey>,
}

impl View for UnlockedBackup {
    /// The manifest key and the unlocked class keys by class.
    type V = (Seq<u8>, Map<u32, Seq<u8>>);

    closed spec fn view(&self) -> (Seq<u8>, Map<u32, Seq<u8>>) {
        (secret_view(self.manifest_key), self.class_keys@.map_values(|k: SecretKey| secret_view(k)))
    }
}

/// Unlocks all class keys that the backup password protects and the manifest
/// key; `Ok(None)` when the password is wrong.
pub fn unlock_backup(metadata: &EncryptedBackupMetadata, password: &[u8]) -> (unlocked: Result<
    Option<UnlockedBackup>,
    ExportError,
>)
    ensures
        match backup_unlock_spec(
            entries_view(metadata.keybag_entries@),
            metadata.manifest_key_class,
            metadata.wrapped_manifest_key@,
            password@,
        ) {
            Ok(None) => unlocked matches Ok(None),
            Ok(Some(keys)) => unlocked matches Ok(Some(u)) && u@ == keys,
            Err(f) => unlocked matches Err(e) && reports_unlock_fault(e, f),
        },
        unlocked matches Ok(Some(u)) ==> u@.0.len() == 32 && forall|c: u32| #[trigger] u@.1.contains_key(c)
            ==> u@.1[c].len() == 32,
{
    proof {
        lemma_backup_keys_are_32_bytes(
            entries_view(metadata.keybag_entries@),
            metadata.manifest_key_class,
            metadata.wrapped_manifest_key@,
            password@,
        );
    }
    broadcast use vstd::std_specs::hash::group_hash_axioms;

    let passcode_key = derive_passcode_key(metadata.keybag_entries.as_slice(), password)?;
    let records = parse_class_keys(metadata.keybag_entries.as_slice())?;
    let ghost pk = secret_view(passcode_key);
    let ghost all = records_view(records@);
    let mut class_keys: HashMap<u32, SecretKey> = HashMap::new();
    let mut i: usize = 0;
    assert(all.take(0) =~= seq![]);
    assert(class_keys@.map_values(|k: SecretKey| secret_view(k)) =~= Map::empty());
    while i < records.len()
        invariant
            i <= records@.len(),
            all == records_view(records@),
            pk == secret_view(passcode_key),
            passcode_key_spec(entries_view(metadata.keybag_entries@), password@) == Ok::<Seq<u8>, KeybagFault>(pk),
            class_key_records(entries_view(metadata.keybag_entries@)) == Some(all),
            unlock_classes(pk, all.take(i as int)) == Ok::<Option<Map<u32, Seq<u8>>>, UnlockFault>(
                Some(class_keys@.map_values(|k: SecretKey| secret_view(k))),
            ),
        decreases records@.len() - i,
    {
        proof {
            assert(all.take(i + 1).drop_last() =~= all.take(i as int));
            assert(all.take(i + 1).last() == records@[i as int]@);
        }
        let record = &records[i];
        if record.wrap & 2 != 0 {
            let key = match try_unwrap(secret_bytes(&passcode_key), record.wrapped_key.as_slice()) {
                Some(k) => k,
                None => {
                    proof {
                        lemma_unlock_stops(pk, all, i + 1);
                    }
                    return Ok(None);
                },
            };
            if key.len() != 32 {
                proof {
                    lemma_unlock_stops(pk, all, i + 1);
                }
                return Err(ExportError::ClassKeyLength { class: record.class, len: key.len() });
            }
            let ghost before = class_keys@;
            let sealed = seal_secret(key);
            class_keys.insert(record.class, sealed);
            proof {
                assert(class_keys@.map_values(|k: SecretKey| secret_view(k)) =~= before.map_values(
                    |k: SecretKey| secret_view(k),
                ).insert(record.class, secret_view(sealed)));
            }
        }
        i = i + 1;
    }
    assert(all.take(i as int) =~= all);
    let ghost keys = class_keys@.map_values(|k: SecretKey| secret_view(k));
    let manifest_class_key = match class_keys.get(&metadata.manifest_key_class) {
        Some(k) => k,
        None => {
            return Err(ExportError::ManifestClassLocked { class: metadata.manifest_key_class });
        },
    };
    assert(keys[metadata.manifest_key_class] == secret_view(*manifest_class_key));
    let manifest_key = match try_unwrap(secret_bytes(manifest_class_key), metadata.wrapped_manifest_key.as_slice()) {
        Some(k) => k,
        None => {
            return Ok(None);
        },
    };
    if manifest_key.len() != 32 {
        return Err(ExportError::ManifestKeyLength { len: manifest_key.len() });
    }
    Ok(Some(UnlockedBackup { manifest_key: seal_secret(manifest_key), class_keys }))
}

/// Whether no two class key records name the same class.
pub open spec fn classes_distinct(records: Seq<(u32, u32, Seq<u8>)>) -> bool {
    forall|i: int, j: int| 0 <= i < j < records.len() ==> (#[trigger] records[i]).0 != (#[trigger] records[j]).0
}

proof fn lemma_unlocked_key_has_record(pk: Seq<u8>, records: Seq<(u32, u32, Seq<u8>)>, keys: Map<u32, Seq<u8>>, class: u32)
    requires
        unlock_classes(pk, records) == Ok::<Option<Map<u32, Seq<u8>>>, UnlockFault>(Some(keys)),
        keys.contains_key(class),
    ensures
        exists|i: int| #![trigger records[i]] 0 <= i < records.len() && records[i].0 == class
            && passcode_wrapped(records[i].1) && key_unwrap_spec(pk, records[i].2) == Some(keys[class])
            && keys[class].len() == 32,
    decreases records.len(),
{
    let prev = unlock_classes(pk, records.drop_last());
    let last = records.last();
    if records.len() == 0 {
        assert(keys == Map::<u32, Seq<u8>>::empty());
    } else {
        let m = prev->Ok_0->Some_0;
        if passcode_wrapped(last.1) && last.0 == class {
            let i = records.len() - 1;
            assert(records[i] == last);
        } else {
            assert(keys == m || keys == m.insert(last.0, key_unwrap_spec(pk, last.2)->Some_0));
            assert(m.contains_key(class));
            assert(keys[class] == m[class]);
            lemma_unlocked_key_has_record(pk, records.drop_last(), m, class);
            let i = choose|i: int| #![trigger records.drop_last()[i]] 0 <= i < records.drop_last().len()
                && records.drop_last()[i].0 == class && passcode_wrapped(records.drop_last()[i].1)
                && key_unwrap_spec(pk, records.drop_last()[i].2) == Some(m[class]) && m[class].len() == 32;
            assert(records[i] == records.drop_last()[i]);
        }
    }
}

proof fn lemma_record_of_distinct_class(records: Seq<(u32, u32, Seq<u8>)>, i: int)
    requires
        classes_distinct(records),
        0 <= i < records.len(),
    ensures
        record_of_class(records, records[i].0) == Some(records[i]),
    decreases records.len(),
{
    if i > 0 {
        assert(records[0].0 != records[i].0);
        let rest = records.drop_first();
        assert(classes_distinct(rest)) by {
            assert forall|a: int, b: int| 0 <= a < b < rest.len() implies (#[trigger] rest[a]).0 != (#[trigger] rest[b]).0 by {
                assert(rest[a] == records[a + 1] && rest[b] == records[b + 1]);
            }
        }
        assert(rest[i - 1] == records[i]);
        lemma_record_of_distinct_class(rest, i - 1);
    }
}

/// Unlocking the whole backup and unlocking the manifest key alone agree:
/// whenever the whole backup unlocks, the manifest key alone unlocks to the
/// same key, provided no class appears in two class key records.
pub proof fn law_backup_unlock_agrees_with_manifest_unlock(
    entries: Seq<(Seq<char>, Seq<u8>)>,
    class: u32,
    wrapped_manifest_key: Seq<u8>,
    password: Seq<u8>,
)
    requires
        class_key_records(entries) matches Some(records) ==> classes_distinct(records),
        backup_unlock_spec(entries, class, wrapped_manifest_key, password) matches Ok(Some(_)),
    ensures
        manifest_unlock_spec(entries, class, wrapped_manifest_key, password) == Ok::<Option<Seq<u8>>, UnlockFault>(
            Some(backup_unlock_spec(entries, class, wrapped_manifest_key, password)->Ok_0->Some_0.0),
        ),
{
    let pk = passcode_key_spec(entries, password)->Ok_0;
    let records = class_key_records(entries)->Some_0;
    let keys = unlock_classes(pk, records)->Ok_0->Some_0;
    lemma_unlocked_key_has_record(pk, records, keys, class);
    let i = choose|i: int| #![trigger records[i]] 0 <= i < records.len() && records[i].0 == class
        && passcode_wrapped(records[i].1) && key_unwrap_spec(pk, records[i].2) == Some(keys[class])
        && keys[class].len() == 32;
    lemma_record_of_distinct_class(records, i);
}

/// The last class key record of class `class` that the passcode protects.
pub open spec fn last_passcode_record(records: Seq<(u32, u32, Seq<u8>)>, class: u32) -> Option<
    (u32, u32, Seq<u8>),
>
    decreases records.len(),
{
    if records.len() == 0 {
        None
    } else if records.last().0 == class && passcode_wrapped(records.last().1) {
        Some(records.last())
    } else {
        last_passcode_record(records.drop_last(), class)
    }
}

proof fn lemma_unlocked_keys_from_last_records(pk: Seq<u8>, records: Seq<(u32, u32, Seq<u8>)>)
    ensures
        unlock_classes(pk, records) matches Ok(Some(keys)) ==> forall|c: u32|
            (#[trigger] keys.contains_key(c) <==> last_passcode_record(records, c) is Some) && (last_passcode_record(
                records,
                c,
            ) matches Some(r) ==> key_unwrap_spec(pk, r.2) == Some(keys[c])),
    decreases records.len(),
{
    if records.len() > 0 {
        let prefix = records.drop_last();
        let last = records.last();
        lemma_unlocked_keys_from_last_records(pk, prefix);
        if unlock_classes(pk, records) matches Ok(Some(_)) {
            let keys = unlock_classes(pk, records)->Ok_0->Some_0;
            let m = unlock_classes(pk, prefix)->Ok_0->Some_0;
            assert forall|c: u32|
                (#[trigger] keys.contains_key(c) <==> last_passcode_record(records, c) is Some) && (
                last_passcode_record(records, c) matches Some(r) ==> key_unwrap_spec(pk, r.2) == Some(keys[c])) by {
                assert(m.contains_key(c) <==> last_passcode_record(prefix, c) is Some);
                if !passcode_wrapped(last.1) {
                    assert(keys == m);
                } else {
                    let k = key_unwrap_spec(pk, last.2)->Some_0;
                    assert(keys == m.insert(last.0, k));
                }
            }
        }
    }
}

/// The keys of an unlocked backup come from the keybag's class key records:
/// a class has a key exactly when some record of that class is protected by
/// the passcode, and its key is the one unwrapped under the passcode key from
/// the last such record. So `UnlockedBackup::unlock_file_key` serves exactly
/// those classes. The manifest key is unwrapped with the key of its class.
pub proof fn law_backup_keys_come_from_last_passcode_records(
    entries: Seq<(Seq<char>, Seq<u8>)>,
    class: u32,
    wrapped_manifest_key: Seq<u8>,
    password: Seq<u8>,
)
    requires
        backup_unlock_spec(entries, class, wrapped_manifest_key, password) matches Ok(Some(_)),
    ensures
        ({
            let pk = passcode_key_spec(entries, password)->Ok_0;
            let records = class_key_records(entries)->Some_0;
            let unlocked = backup_unlock_spec(entries, class, wrapped_manifest_key, password)->Ok_0->Some_0;
            &&& forall|c: u32| #[trigger] unlocked.1.contains_key(c) <==> last_passcode_record(records, c) is Some
            &&& forall|c: u32| #[trigger] last_passcode_record(records, c) matches Some(r) ==> key_unwrap_spec(
                pk,
                r.2,
            ) == Some(unlocked.1[c]) && unlocked.1[c].len() == 32
            &&& last_passcode_record(records, class) is Some
            &&& key_unwrap_spec(unlocked.1[class], wrapped_manifest_key) == Some(unlocked.0)
            &&& unlocked.0.len() == 32
        }),
{
    let pk = passcode_key_spec(entries, password)->Ok_0;
    let records = class_key_records(entries)->Some_0;
    lemma_unlocked_keys_from_last_records(pk, records);
    lemma_unlocked_keys_are_32_bytes(pk, records);
    let keys = unlock_classes(pk, records)->Ok_0->Some_0;
    let unlocked = backup_unlock_spec(entries, class, wrapped_manifest_key, password)->Ok_0->Some_0;
    assert(unlocked.1 == keys);
    assert(keys.contains_key(class));
    assert forall|c: u32| #[trigger] last_passcode_record(records, c) is Some implies key_unwrap_spec(
        pk,
        last_passcode_record(records, c)->Some_0.2,
    ) == Some(unlocked.1[c]) && unlocked.1[c].len() == 32 by {
        assert(keys.contains_key(c));
    }
    assert forall|c: u32| #[trigger] unlocked.1.contains_key(c) <==> last_passcode_record(records, c) is Some by {
        assert(keys.contains_key(c) <==> last_passcode_record(records, c) is Some);
    }
}

impl UnlockedBackup {
    /// The 32-byte key of `Manifest.db`.
    pub fn manifest_key(&self) -> (key: &[u8])
        ensures
            key@ == self@.0,
    {
        secret_bytes(&self.manifest_key)
    }

    /// Unwraps the key of one file with the class key of its protection class.
    pub fn unlock_file_key(&self, metadata: &FileEncryptionMetadata) -> (key: Result<SecretKey, ExportError>)
        ensures
            !self@.1.contains_key(metadata.protection_class) ==> (key matches Err(
                ExportError::ClassNotUnlocked { class },
            ) && class == metadata.protection_class),
            self@.1.contains_key(metadata.protection_class) ==> {
                let kek = self@.1[metadata.protection_class];
                let wrapped = metadata.wrapped_key@;
                if kek.len() != 32 {
                    key matches Err(ExportError::FileKeyUnwrap { cause }) && *cause matches ExportError::KekLength
                } else if !wrapped_len_ok(wrapped.len()) {
                    key matches Err(ExportError::FileKeyUnwrap { cause })
                        && *cause matches ExportError::WrappedKeyLength { len } && len == wrapped.len()
                } else {
                    match rfc3394_unwrap(kek, wrapped) {
                        None => key matches Err(ExportError::FileKeyUnwrap { cause })
                            && *cause matches ExportError::KeyWrapIntegrity,
                        Some(file_key) => if file_key.len() != 32 {
                            key matches Err(ExportError::FileKeyLength { len }) && len == file_key.len()
                        } else {
                            key matches Ok(s) && secret_view(s) == file_key
                        },
                    }
                }
            },
    {
        broadcast use vstd::std_specs::hash::group_hash_axioms;

        let class_key = match self.class_keys.get(&metadata.protection_class) {
            Some(k) => k,
            None => {
                return Err(ExportError::ClassNotUnlocked { class: metadata.protection_class });
            },
        };
        assert(self@.1[metadata.protection_class] == secret_view(*class_key));
        let file_key = match aes_key_unwrap(secret_bytes(class_key), metadata.wrapped_key.as_slice()) {
            Ok(k) => k,
            Err(e) => {
                return Err(ExportError::FileKeyUnwrap { cause: Box::new(e) });
            },
        };
        if file_key.len() != 32 {
            return Err(ExportError::FileKeyLength { len: file_key.len() });
        }
        Ok(seal_secret(file_key))
    }
}

/// Whether `key` decrypts the first block of `Manifest.db` to the SQLite
/// header; an error when `key` is no AES-256 key.
pub fn manifest_key_decrypts_header(key: &[u8], header: &[u8; 16]) -> (opens: Result<bool, ExportError>)
    ensures
        key@.len() != 32 ==> (opens matches Err(ExportError::AesKeyLength { len }) && len == key@.len()),
        key@.len() == 32 ==> opens == Ok::<bool, ExportError>(aes256_decrypt(key@, header@) == sqlite_header()),
{
    if key.len() != 32 {
        return Err(ExportError::AesKeyLength { len: key.len() });
    }
    let plain = aes256_decrypt_block(key, header);
    Ok(is_sqlite_header(plain.as_slice()))
}

/// Whether the password opens the backup: it unlocks the manifest key, and
/// that key decrypts the first block of `Manifest.db` to the SQLite header.
pub fn verify_backup_password(
    metadata: &EncryptedBackupMetadata,
    password: &[u8],
    manifest_header: &[u8; 16],
) -> (verified: Result<bool, ExportError>)
    ensures
        match manifest_unlock_spec(
            entries_view(metadata.keybag_entries@),
            metadata.manifest_key_class,
            metadata.wrapped_manifest_key@,
            password@,
        ) {
            Err(f) => verified matches Err(e) && reports_unlock_fault(e, f),
            Ok(None) => verified == Ok::<bool, ExportError>(false),
            Ok(Some(mk)) => verified == Ok::<bool, ExportError>(
                aes256_decrypt(mk, manifest_header@) == sqlite_header(),
            ),
        },
{
    match unlock_manifest_key(metadata, password)? {
        None => Ok(false),
        Some(key) => manifest_key_decrypts_header(secret_bytes(&key), manifest_header),
    }
}

} // verus!
