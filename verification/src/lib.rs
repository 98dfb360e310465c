//! Reading iPhone Finder backups: the keybag format, the key hierarchy that
//! protects encrypted backups, block decryption of the stored files, and the
//! decisions that turn the backup's databases into a call export.

pub mod primitives;
pub mod plist_value;
pub mod text;
pub mod error;
pub mod keybag;
pub mod key_wrap;
pub mod manifest;
pub mod file_metadata;
pub mod unlock;
pub mod cbc;
pub mod backup;
pub mod tables;
pub mod calls;
