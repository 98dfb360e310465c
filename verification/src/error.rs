use vstd::prelude::*;
use vstd::string::*;
use crate::text::{decimal_digits, push_decimal};
use crate::primitives::{debug_quoted, debug_string};

verus! {

/// Which encrypted file a decryption error is about.
#[derive(Debug, Clone, Copy, PartialEq, Eq)]
pub enum EncryptedFile {
    /// The encrypted `Manifest.db`.
    ManifestDb,
    /// A stored file of the backup.
    BackupFile,
    /// The stored call history database, `CallHistory.storedata`.
    CallHistory,
}

/// Why reading or unlocking a backup failed.
#[derive(Debug)]
pub enum ExportError {
    /// Fewer than eight bytes remain where a keybag record header should start.
    KeybagHeaderTruncated { offset: usize },
    /// The end of a keybag record's value lies beyond `usize::MAX`.
    KeybagLengthOverflow,
    /// A keybag record announces more value bytes than remain.
    KeybagValueTruncated { tag: String, expected: usize, available: usize },
    /// The keybag holds no entry with this tag.
    KeybagTagMissing { tag: String },
    /// The keybag entry with this tag is not a four-byte number.
    KeybagTagNotU32 { tag: String },
    /// A key-encryption key is not 32 bytes long.
    KekLength,
    /// Wrapped key data is shorter than 24 bytes or not whole 64-bit blocks.
    WrappedKeyLength { len: usize },
    /// Unwrapping did not end with the expected integrity value.
    KeyWrapIntegrity,
    /// The keybag holds no complete class key record.
    NoClassKeys,
    /// The keybag holds no class key for this class.
    ClassKeyMissing { class: u32 },
    /// The class key is not protected by the backup password.
    ClassNotPasscodeProtected { class: u32, wrap: u32 },
    /// An unwrapped class key is not 32 bytes long.
    ClassKeyLength { class: u32, len: usize },
    /// The unwrapped key of the manifest's class is not 32 bytes long.
    ManifestClassKeyLength { len: usize },
    /// The class that protects the manifest key was not unlocked.
    ManifestClassLocked { class: u32 },
    /// The unwrapped manifest key is not 32 bytes long.
    ManifestKeyLength { len: usize },
    /// The class that protects a file was not unlocked.
    ClassNotUnlocked { class: u32 },
    /// A file key could not be unwrapped, for the reason inside.
    FileKeyUnwrap { cause: Box<ExportError> },
    /// An unwrapped file key is not 32 bytes long.
    FileKeyLength { len: usize },
    /// An AES-256 key is not 32 bytes long.
    AesKeyLength { len: usize },
    /// A ciphertext is not a positive number of 16-byte blocks.
    InvalidBlockLength { file: EncryptedFile, size: u64 },
    /// A ciphertext held no complete block.
    NoCompleteBlock { file: EncryptedFile },
    /// A decrypted database does not start with the SQLite header.
    DecryptedNotSqlite { file: EncryptedFile },
    /// A UID of a keyed archive lies outside its `$objects` array.
    ArchiveUidOutOfRange,
    /// A `CF$UID` of a keyed archive lies outside its `$objects` array.
    ArchiveCfUidOutOfRange,
    /// File metadata is no readable property list.
    MetadataNotPlist,
    /// The file metadata archive is not a dictionary.
    MetadataArchiveNotDictionary,
    /// The file metadata archive has no `$objects` array.
    MetadataNoObjects,
    /// No object of the archive has both `EncryptionKey` and `ProtectionClass`.
    MetadataKeysMissing,
    /// `ProtectionClass` is not an integer that fits in 32 bits.
    ProtectionClassInvalid,
    /// `EncryptionKey` holds no data.
    EncryptionKeyNoData,
    /// `EncryptionKey` is shorter than five bytes.
    EncryptionKeyTooShort { len: usize },
    /// The class in front of `EncryptionKey` differs from `ProtectionClass`.
    ProtectionClassMismatch { class: u32, prefix: u32 },
    /// A property list could not be read.
    PlistUnreadable,
    /// A property list's top level is not a dictionary.
    PlistNotDictionary,
    /// `Manifest.plist` does not mark the backup as encrypted.
    NotEncrypted,
    /// `Manifest.plist` lacks this entry.
    ManifestFieldMissing { name: String },
    /// This entry of `Manifest.plist` is not data.
    ManifestFieldNotData { name: String },
    /// `ManifestKey` is shorter than five bytes.
    ManifestKeyTooShort { len: usize },
    /// No backup with a `Manifest.plist` was found.
    NoBackupFound,
    /// A stored file's ID is shorter than two bytes.
    InvalidFileId { id: String },
    /// The call history's metadata gives no logical size.
    LogicalSizeMissing,
    /// The logical size exceeds the encrypted file.
    LogicalSizeTooLarge { logical: u64, encrypted: u64 },
}

/// The text that describes an error.
pub open spec fn error_text(error: ExportError) -> Seq<char> {
    match error {
        ExportError::KeybagHeaderTruncated { offset } => "Unvollständiger Keybag-TLV-Kopf bei Byte "@ + decimal_digits(offset as nat),
        ExportError::KeybagLengthOverflow => "Keybag-TLV-Länge läuft über"@,
        ExportError::KeybagValueTruncated { tag, expected, available } => "Keybag-TLV "@ + debug_quoted(tag@) + " erwartet "@ + decimal_digits(expected as nat) + " Bytes, es sind aber nur "@ + decimal_digits(available as nat) + " vorhanden"@,
        ExportError::KeybagTagMissing { tag } => "Keybag-Tag "@ + tag@ + " fehlt"@,
        ExportError::KeybagTagNotU32 { tag } => "Keybag-Tag "@ + tag@ + " ist kein u32"@,
        ExportError::KekLength => "AES-Key-Encryption-Key muss 32 Bytes lang sein"@,
        ExportError::WrappedKeyLength { len } => "RFC3394-Datenlänge ist ungültig: "@ + decimal_digits(len as nat) + " Bytes"@,
        ExportError::KeyWrapIntegrity => "RFC3394-Integritätsprüfung fehlgeschlagen"@,
        ExportError::NoClassKeys => "Keine vollständigen Klassenschlüssel im BackupKeyBag gefunden"@,
        ExportError::ClassKeyMissing { class } => "Keine Schlüsselklasse "@ + decimal_digits(class as nat) + " im BackupKeyBag gefunden"@,
        ExportError::ClassNotPasscodeProtected { class, wrap } => "Schlüsselklasse "@ + decimal_digits(class as nat) + " ist nicht mit dem Backup-Passwort geschützt (WRAP="@ + decimal_digits(wrap as nat) + ")"@,
        ExportError::ClassKeyLength { class, len } => "Entsperrter Klassenschlüssel "@ + decimal_digits(class as nat) + " hat "@ + decimal_digits(len as nat) + " statt 32 Bytes"@,
        ExportError::ManifestClassKeyLength { len } => "Entsperrter Klassenschlüssel hat "@ + decimal_digits(len as nat) + " statt 32 Bytes"@,
        ExportError::ManifestClassLocked { class } => "Manifest-Schlüsselklasse "@ + decimal_digits(class as nat) + " wurde nicht entsperrt"@,
        ExportError::ManifestKeyLength { len } => "Entsperrter Manifest-Schlüssel hat "@ + decimal_digits(len as nat) + " statt 32 Bytes"@,
        ExportError::ClassNotUnlocked { class } => "Schlüsselklasse "@ + decimal_digits(class as nat) + " wurde nicht entsperrt"@,
        ExportError::FileKeyUnwrap { cause } => "Dateischlüssel konnte nicht entsperrt werden"@,
        ExportError::FileKeyLength { len } => "Entsperrter Dateischlüssel hat "@ + decimal_digits(len as nat) + " statt 32 Bytes"@,
        ExportError::AesKeyLength { len } => "AES-256-Schlüssel muss 32 Bytes lang sein, hat aber "@ + decimal_digits(len as nat) + " Bytes"@,
        ExportError::InvalidBlockLength { file, size } => (match file {
            EncryptedFile::ManifestDb => "Manifest.db"@,
            _ => "Verschlüsselte Backup-Datei"@,
        }) + " hat keine gültige AES-Blocklänge: "@ + decimal_digits(size as nat) + " Bytes"@,
        ExportError::NoCompleteBlock { file } => (match file {
            EncryptedFile::ManifestDb => "Manifest.db"@,
            _ => "Backup-Datei"@,
        }) + " enthält keinen vollständigen Block"@,
        ExportError::DecryptedNotSqlite { file } => "Entschlüsselte "@ + (match file {
            EncryptedFile::ManifestDb => "Manifest.db"@,
            EncryptedFile::BackupFile => "Backup-Datei"@,
            EncryptedFile::CallHistory => "CallHistory.storedata"@,
        }) + " besitzt keinen gültigen SQLite-Kopf"@,
        ExportError::ArchiveUidOutOfRange => "NSKeyedArchive-UID liegt außerhalb des $objects-Arrays"@,
        ExportError::ArchiveCfUidOutOfRange => "CF$UID liegt außerhalb des $objects-Arrays"@,
        ExportError::MetadataNotPlist => "Dateimetadaten sind keine lesbare binäre Property-List"@,
        ExportError::MetadataArchiveNotDictionary => "Dateimetadaten-Archiv ist kein Dictionary"@,
        ExportError::MetadataNoObjects => "NSKeyedArchive enthält kein $objects-Array"@,
        ExportError::MetadataKeysMissing => "EncryptionKey und ProtectionClass wurden im Dateimetadaten-Archiv nicht gefunden"@,
        ExportError::ProtectionClassInvalid => "ProtectionClass ist keine gültige Ganzzahl"@,
        ExportError::EncryptionKeyNoData => "EncryptionKey enthält keine NSData-Nutzdaten"@,
        ExportError::EncryptionKeyTooShort { len } => "EncryptionKey ist zu kurz: "@ + decimal_digits(len as nat) + " Bytes"@,
        ExportError::ProtectionClassMismatch { class, prefix } => "ProtectionClass "@ + decimal_digits(class as nat) + " stimmt nicht mit dem EncryptionKey-Präfix "@ + decimal_digits(prefix as nat) + " überein"@,
        ExportError::PlistUnreadable => "Property-List kann nicht gelesen werden"@,
        ExportError::PlistNotDictionary => "Property-List ist kein Dictionary"@,
        ExportError::NotEncrypted => "Das Backup ist laut Manifest.plist nicht verschlüsselt"@,
        ExportError::ManifestFieldMissing { name } => name@ + " fehlt in Manifest.plist"@,
        ExportError::ManifestFieldNotData { name } => name@ + " hat in Manifest.plist nicht den Datentyp Data"@,
        ExportError::ManifestKeyTooShort { len } => "ManifestKey ist zu kurz: "@ + decimal_digits(len as nat) + " Bytes"@,
        ExportError::NoBackupFound => "Kein iPhone-Backup mit Manifest.plist gefunden"@,
        ExportError::InvalidFileId { id } => "Ungültige Backup-Datei-ID: "@ + id@,
        ExportError::LogicalSizeMissing => "Logische Dateigröße fehlt; sichere Entschlüsselung ist nicht möglich"@,
        ExportError::LogicalSizeTooLarge { logical, encrypted } => "Logische Dateigröße "@ + decimal_digits(logical as nat) + " ist größer als die verschlüsselte Datei "@ + decimal_digits(encrypted as nat),
    }
}

impl ExportError {
    /// The text that describes this error.
    pub fn message(&self) -> (text: String)
        ensures
            text@ == error_text(*self),
    {
        let text = match self {
            ExportError::KeybagHeaderTruncated { offset } => {
                let mut text = String::from_str("Unvollständiger Keybag-TLV-Kopf bei Byte ");
                push_decimal(&mut text, *offset as u64);
                text
            },
            ExportError::KeybagLengthOverflow => {
                let mut text = String::from_str("Keybag-TLV-Länge läuft über");
                text
            },
            ExportError::KeybagValueTruncated { tag, expected, available } => {
                let mut text = String::from_str("Keybag-TLV ");
                let quoted = debug_string(tag.as_str());
                text.append(quoted.as_str());
                text.append(" erwartet ");
                push_decimal(&mut text, *expected as u64);
                text.append(" Bytes, es sind aber nur ");
                push_decimal(&mut text, *available as u64);
                text.append(" vorhanden");
                text
            },
            ExportError::KeybagTagMissing { tag } => {
                let mut text = String::from_str("Keybag-Tag ");
                text.append(tag.as_str());
                text.append(" fehlt");
                text
            },
            ExportError::KeybagTagNotU32 { tag } => {
                let mut text = String::from_str("Keybag-Tag ");
                text.append(tag.as_str());
                text.append(" ist kein u32");
                text
            },
            ExportError::KekLength => {
                let mut text = String::from_str("AES-Key-Encryption-Key muss 32 Bytes lang sein");
                text
            },
            ExportError::WrappedKeyLength { len } => {
                let mut text = String::from_str("RFC3394-Datenlänge ist ungültig: ");
                push_decimal(&mut text, *len as u64);
                text.append(" Bytes");
                text
            },
            ExportError::KeyWrapIntegrity => {
                let mut text = String::from_str("RFC3394-Integritätsprüfung fehlgeschlagen");
                text
            },
            ExportError::NoClassKeys => {
                let mut text = String::from_str("Keine vollständigen Klassenschlüssel im BackupKeyBag gefunden");
                text
            },
            ExportError::ClassKeyMissing { class } => {
                let mut text = String::from_str("Keine Schlüsselklasse ");
                push_decimal(&mut text, *class as u64);
                text.append(" im BackupKeyBag gefunden");
                text
            },
            ExportError::ClassNotPasscodeProtected { class, wrap } => {
                let mut text = String::from_str("Schlüsselklasse ");
                push_decimal(&mut text, *class as u64);
                text.append(" ist nicht mit dem Backup-Passwort geschützt (WRAP=");
                push_decimal(&mut text, *wrap as u64);
                text.append(")");
                text
            },
            ExportError::ClassKeyLength { class, len } => {
                let mut text = String::from_str("Entsperrter Klassenschlüssel ");
                push_decimal(&mut text, *class as u64);
                text.append(" hat ");
                push_decimal(&mut text, *len as u64);
                text.append(" statt 32 Bytes");
                text
            },
            ExportError::ManifestClassKeyLength { len } => {
                let mut text = String::from_str("Entsperrter Klassenschlüssel hat ");
                push_decimal(&mut text, *len as u64);
                text.append(" statt 32 Bytes");
                text
            },
            ExportError::ManifestClassLocked { class } => {
                let mut text = String::from_str("Manifest-Schlüsselklasse ");
                push_decimal(&mut text, *class as u64);
                text.append(" wurde nicht entsperrt");
                text
            },
            ExportError::ManifestKeyLength { len } => {
                let mut text = String::from_str("Entsperrter Manifest-Schlüssel hat ");
                push_decimal(&mut text, *len as u64);
                text.append(" statt 32 Bytes");
                text
            },
            ExportError::ClassNotUnlocked { class } => {
                let mut text = String::from_str("Schlüsselklasse ");
                push_decimal(&mut text, *class as u64);
                text.append(" wurde nicht entsperrt");
                text
            },
            ExportError::FileKeyUnwrap { .. } => {
                let mut text = String::from_str("Dateischlüssel konnte nicht entsperrt werden");
                text
            },
            ExportError::FileKeyLength { len } => {
                let mut text = String::from_str("Entsperrter Dateischlüssel hat ");
                push_decimal(&mut text, *len as u64);
                text.append(" statt 32 Bytes");
                text
            },
            ExportError::AesKeyLength { len } => {
                let mut text = String::from_str("AES-256-Schlüssel muss 32 Bytes lang sein, hat aber ");
                push_decimal(&mut text, *len as u64);
                text.append(" Bytes");
                text
            },
            ExportError::InvalidBlockLength { file, size } => {
                let mut text = match file {
                    EncryptedFile::ManifestDb => String::from_str("Manifest.db"),
                    _ => String::from_str("Verschlüsselte Backup-Datei"),
                };
                text.append(" hat keine gültige AES-Blocklänge: ");
                push_decimal(&mut text, *size as u64);
                text.append(" Bytes");
                text
            },
            ExportError::NoCompleteBlock { file } => {
                let mut text = match file {
                    EncryptedFile::ManifestDb => String::from_str("Manifest.db"),
                    _ => String::from_str("Backup-Datei"),
                };
                text.append(" enthält keinen vollständigen Block");
                text
            },
            ExportError::DecryptedNotSqlite { file } => {
                let mut text = String::from_str("Entschlüsselte ");
                match file {
                    EncryptedFile::ManifestDb => text.append("Manifest.db"),
                    EncryptedFile::BackupFile => text.append("Backup-Datei"),
                    EncryptedFile::CallHistory => text.append("CallHistory.storedata"),
                }
                text.append(" besitzt keinen gültigen SQLite-Kopf");
                text
            },
            ExportError::ArchiveUidOutOfRange => {
                let mut text = String::from_str("NSKeyedArchive-UID liegt außerhalb des $objects-Arrays");
                text
            },
            ExportError::ArchiveCfUidOutOfRange => {
                let mut text = String::from_str("CF$UID liegt außerhalb des $objects-Arrays");
                text
            },
            ExportError::MetadataNotPlist => {
                let mut text = String::from_str("Dateimetadaten sind keine lesbare binäre Property-List");
                text
            },
            ExportError::MetadataArchiveNotDictionary => {
                let mut text = String::from_str("Dateimetadaten-Archiv ist kein Dictionary");
                text
            },
            ExportError::MetadataNoObjects => {
                let mut text = String::from_str("NSKeyedArchive enthält kein $objects-Array");
                text
            },
            ExportError::MetadataKeysMissing => {
                let mut text = String::from_str("EncryptionKey und ProtectionClass wurden im Dateimetadaten-Archiv nicht gefunden");
                text
            },
            ExportError::ProtectionClassInvalid => {
                let mut text = String::from_str("ProtectionClass ist keine gültige Ganzzahl");
                text
            },
            ExportError::EncryptionKeyNoData => {
                let mut text = String::from_str("EncryptionKey enthält keine NSData-Nutzdaten");
                text
            },
            ExportError::EncryptionKeyTooShort { len } => {
                let mut text = String::from_str("EncryptionKey ist zu kurz: ");
                push_decimal(&mut text, *len as u64);
                text.append(" Bytes");
                text
            },
            ExportError::ProtectionClassMismatch { class, prefix } => {
                let mut text = String::from_str("ProtectionClass ");
                push_decimal(&mut text, *class as u64);
                text.append(" stimmt nicht mit dem EncryptionKey-Präfix ");
                push_decimal(&mut text, *prefix as u64);
                text.append(" überein");
                text
            },
            ExportError::PlistUnreadable => {
                let mut text = String::from_str("Property-List kann nicht gelesen werden");
                text
            },
            ExportError::PlistNotDictionary => {
                let mut text = String::from_str("Property-List ist kein Dictionary");
                text
            },
            ExportError::NotEncrypted => {
                let mut text = String::from_str("Das Backup ist laut Manifest.plist nicht verschlüsselt");
                text
            },
            ExportError::ManifestFieldMissing { name } => {
                let mut text = String::new();
                text.append(name.as_str());
                text.append(" fehlt in Manifest.plist");
                text
            },
            ExportError::ManifestFieldNotData { name } => {
                let mut text = String::new();
                text.append(name.as_str());
                text.append(" hat in Manifest.plist nicht den Datentyp Data");
                text
            },
            ExportError::ManifestKeyTooShort { len } => {
                let mut text = String::from_str("ManifestKey ist zu kurz: ");
                push_decimal(&mut text, *len as u64);
                text.append(" Bytes");
                text
            },
            ExportError::NoBackupFound => {
                let mut text = String::from_str("Kein iPhone-Backup mit Manifest.plist gefunden");
                text
            },
            ExportError::InvalidFileId { id } => {
                let mut text = String::from_str("Ungültige Backup-Datei-ID: ");
                text.append(id.as_str());
                text
            },
            ExportError::LogicalSizeMissing => {
                let mut text = String::from_str("Logische Dateigröße fehlt; sichere Entschlüsselung ist nicht möglich");
                text
            },
            ExportError::LogicalSizeTooLarge { logical, encrypted } => {
                let mut text = String::from_str("Logische Dateigröße ");
                push_decimal(&mut text, *logical as u64);
                text.append(" ist größer als die verschlüsselte Datei ");
                push_decimal(&mut text, *encrypted as u64);
                text
            },
        };
        assert(text@ =~= error_text(*self));
        text
    }
}

} // verus!
