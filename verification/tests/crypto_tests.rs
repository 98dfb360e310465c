use iphone_call_export::cbc::{
    check_block_length, check_logical_size, payload_info, pkcs7_unpadded_len, PaddedCbcDecoder,
    TruncatingCbcDecoder,
};
use iphone_call_export::error::{EncryptedFile, ExportError};
use iphone_call_export::key_wrap::aes_key_unwrap;
use iphone_call_export::keybag::KeybagEntry;
use iphone_call_export::manifest::{manifest_status, EncryptedBackupMetadata};
use iphone_call_export::unlock::{
    derive_passcode_key, manifest_key_decrypts_header, unlock_backup, unlock_manifest_key,
    verify_backup_password,
};

#[test]
fn removes_valid_pkcs7_padding_only() {
    let mut padded = [0_u8; 16];
    padded[12..].fill(4);
    assert_eq!(pkcs7_unpadded_len(&padded), 12);
    padded[14] = 3;
    assert_eq!(pkcs7_unpadded_len(&padded), 16);
}

#[test]
fn removes_only_valid_pkcs7_padding() {
    let mut block = [0_u8; 16];
    block[12..].fill(4);
    assert_eq!(pkcs7_unpadded_len(&block), 12);
    block[14] = 3;
    assert_eq!(pkcs7_unpadded_len(&block), 16);
}

#[test]
fn pkcs7_full_block_of_padding() {
    assert_eq!(pkcs7_unpadded_len(&[16_u8; 16]), 0);
    assert_eq!(pkcs7_unpadded_len(&[17_u8; 16]), 16);
    assert_eq!(pkcs7_unpadded_len(&[0_u8; 16]), 16);
    let mut one = [9_u8; 16];
    one[15] = 1;
    assert_eq!(pkcs7_unpadded_len(&one), 15);
}

#[test]
fn rfc3394_rejects_invalid_integrity_value() {
    let kek = [0_u8; 32];
    let wrapped = [0_u8; 40];
    assert!(aes_key_unwrap(&kek, &wrapped).is_err());
}

fn hex(text: &str) -> Vec<u8> {
    (0..text.len()).step_by(2).map(|i| u8::from_str_radix(&text[i..i + 2], 16).unwrap()).collect()
}

// RFC 3394, section 4.6: 256 bits of key data wrapped with a 256-bit KEK.
#[test]
fn rfc3394_unwraps_published_vector() {
    let kek = hex("000102030405060708090A0B0C0D0E0F101112131415161718191A1B1C1D1E1F");
    let wrapped = hex("28C9F404C4B810F4CBCCB35CFB87F8263F5786E2D80ED326CBC7F0E71A99F43BFB988B9B7A02DD21");
    let key = aes_key_unwrap(&kek, &wrapped).ok().expect("unwrap");
    assert_eq!(key, hex("00112233445566778899AABBCCDDEEFF000102030405060708090A0B0C0D0E0F"));
}

// RFC 3394, section 4.3: 128 bits of key data wrapped with a 256-bit KEK.
#[test]
fn rfc3394_unwraps_short_vector() {
    let kek = hex("000102030405060708090A0B0C0D0E0F101112131415161718191A1B1C1D1E1F");
    let wrapped = hex("64E8C3F9CE0F5BA263E9777905818A2A93C8191E7D6E8AE7");
    let key = aes_key_unwrap(&kek, &wrapped).ok().expect("unwrap");
    assert_eq!(key, hex("00112233445566778899AABBCCDDEEFF"));
}

#[test]
fn rfc3394_length_errors() {
    assert!(matches!(aes_key_unwrap(&[0_u8; 16], &[0_u8; 24]), Err(ExportError::KekLength)));
    assert!(matches!(
        aes_key_unwrap(&[0_u8; 32], &[0_u8; 16]),
        Err(ExportError::WrappedKeyLength { len: 16 })
    ));
    assert!(matches!(
        aes_key_unwrap(&[0_u8; 32], &[0_u8; 30]),
        Err(ExportError::WrappedKeyLength { len: 30 })
    ));
}

#[test]
fn rejects_logical_size_larger_than_ciphertext() {
    let error = check_logical_size(17, 16).err().expect("must reject");
    assert!(error.message().contains("größer"));
    assert!(check_logical_size(16, 16).is_ok());
}

#[test]
fn block_length_checks() {
    assert!(matches!(check_block_length(EncryptedFile::ManifestDb, 0), Err(ExportError::InvalidBlockLength { file: EncryptedFile::ManifestDb, size: 0 })));
    assert!(matches!(check_block_length(EncryptedFile::BackupFile, 17), Err(ExportError::InvalidBlockLength { file: EncryptedFile::BackupFile, size: 17 })));
    assert!(check_block_length(EncryptedFile::BackupFile, 32).is_ok());
    assert_eq!(
        ExportError::InvalidBlockLength { file: EncryptedFile::ManifestDb, size: 17 }.message(),
        "Manifest.db hat keine gültige AES-Blocklänge: 17 Bytes"
    );
    assert_eq!(
        ExportError::InvalidBlockLength { file: EncryptedFile::CallHistory, size: 0 }.message(),
        "Verschlüsselte Backup-Datei hat keine gültige AES-Blocklänge: 0 Bytes"
    );
    assert_eq!(
        ExportError::NoCompleteBlock { file: EncryptedFile::BackupFile }.message(),
        "Backup-Datei enthält keinen vollständigen Block"
    );
    assert_eq!(
        ExportError::DecryptedNotSqlite { file: EncryptedFile::CallHistory }.message(),
        "Entschlüsselte CallHistory.storedata besitzt keinen gültigen SQLite-Kopf"
    );
}

#[test]
fn detects_plain_sqlite_header() {
    let bytes = b"SQLite format 3\0payload";
    let status = manifest_status(bytes.len() as u64, &bytes[..16]);
    assert!(status.is_plain_sqlite);
    assert_eq!(status.size_bytes, 23);
}

#[test]
fn detects_non_sqlite_header() {
    let bytes = [0x91_u8; 32];
    let status = manifest_status(bytes.len() as u64, &bytes[..16]);
    assert!(!status.is_plain_sqlite);
    assert_eq!(status.size_bytes, 32);
}

#[test]
fn short_manifest_is_not_sqlite() {
    let status = manifest_status(5, b"SQLit");
    assert!(!status.is_plain_sqlite);
}

#[test]
fn payload_info_recognises_sqlite() {
    let info = payload_info(100, *b"SQLite format 3\0");
    assert!(info.is_sqlite);
    assert_eq!(info.size_bytes, 100);
    let other = payload_info(16, [0_u8; 16]);
    assert!(!other.is_sqlite);
}

// NIST SP 800-38A, F.2.6: CBC-AES256 decryption (first two blocks).
#[test]
fn cbc_decoders_follow_the_standard_vector() {
    let key = hex("603deb1015ca71be2b73aef0857d77811f352c073b6108d72d9810a30914dff4");
    let c1: [u8; 16] = hex("f58c4c04d6e5f1ba779eabfb5f7bfbd6").try_into().unwrap();
    let c2: [u8; 16] = hex("9cfc4e967edb808d679f777bc6702c7d").try_into().unwrap();
    let iv: [u8; 16] = hex("000102030405060708090a0b0c0d0e0f").try_into().unwrap();
    let p1 = hex("6bc1bee22e409f96e93d7e117393172a");
    let p2 = hex("ae2d8a571e03ac9c9eb76fac45af8e51");
    // The decoders use a zero IV, so the vector's IV goes in as a first block
    // whose own plaintext is ignored.
    let mut padded = PaddedCbcDecoder::new(&key).ok().expect("decoder");
    assert!(padded.push(iv).is_none());
    padded.push(c1);
    assert_eq!(padded.push(c2).expect("first block").to_vec(), p1);
    let tail = padded.finish(EncryptedFile::BackupFile).ok().expect("tail");
    assert_eq!(tail, p2);

    let mut truncating = TruncatingCbcDecoder::new(&key, 16 + 16 + 5).ok().expect("decoder");
    assert!(truncating.needs_block());
    truncating.push(iv);
    assert_eq!(truncating.push(c1), p1);
    assert_eq!(truncating.push(c2), p2[..5].to_vec());
    assert!(!truncating.needs_block());
    assert_eq!(truncating.written(), 37);
}

#[test]
fn padded_decoder_strips_valid_padding() {
    let key: Vec<u8> = (0..32).collect();
    let c1: [u8; 16] = hex("e5985e3fd1487c5f8bf0a275fd375ba2").try_into().unwrap();
    let c2: [u8; 16] = hex("4dbd55310872d0f7a3245c73f5092abf").try_into().unwrap();
    let mut decoder = PaddedCbcDecoder::new(&key).ok().expect("decoder");
    let mut out = Vec::new();
    for block in [c1, c2] {
        if let Some(ready) = decoder.push(block) {
            out.extend_from_slice(&ready);
        }
    }
    out.extend(decoder.finish(EncryptedFile::BackupFile).ok().expect("tail"));
    assert_eq!(out, b"call history db!hello world".to_vec());

    let mut truncating = TruncatingCbcDecoder::new(&key, 20).ok().expect("decoder");
    let mut out = Vec::new();
    for block in [c1, c2] {
        if truncating.needs_block() {
            out.extend(truncating.push(block));
        }
    }
    assert_eq!(out, b"call history db!hell".to_vec());
}

#[test]
fn decoders_reject_bad_keys_and_empty_input() {
    assert!(matches!(PaddedCbcDecoder::new(&[0_u8; 31]), Err(ExportError::AesKeyLength { len: 31 })));
    assert!(matches!(TruncatingCbcDecoder::new(&[0_u8; 33], 1), Err(ExportError::AesKeyLength { len: 33 })));
    let decoder = PaddedCbcDecoder::new(&[0_u8; 32]).ok().expect("decoder");
    assert!(matches!(decoder.finish(EncryptedFile::ManifestDb), Err(ExportError::NoCompleteBlock { file: EncryptedFile::ManifestDb })));
}

fn keybag(entries: Vec<(&str, Vec<u8>)>) -> Vec<KeybagEntry> {
    entries.into_iter().map(|(tag, value)| KeybagEntry { tag: tag.into(), value }).collect()
}

fn metadata(entries: Vec<KeybagEntry>) -> EncryptedBackupMetadata {
    EncryptedBackupMetadata {
        version: None,
        is_encrypted: true,
        backup_keybag: Vec::new(),
        manifest_key_class: 3,
        wrapped_manifest_key: vec![0; 40],
        keybag_entries: entries,
    }
}

#[test]
fn passcode_key_needs_all_parameters() {
    let entries = keybag(vec![("SALT", vec![1; 20]), ("ITER", vec![0, 0, 0, 1]), ("DPSL", vec![2; 20])]);
    match derive_passcode_key(&entries, b"secret") {
        Err(ExportError::KeybagTagMissing { tag }) => assert_eq!(tag, "DPIC"),
        _ => panic!("expected DPIC to be missing"),
    }
    let entries = keybag(vec![("SALT", vec![1; 20]), ("ITER", vec![0, 1])]);
    match derive_passcode_key(&entries, b"secret") {
        Err(ExportError::KeybagTagNotU32 { tag }) => assert_eq!(tag, "ITER"),
        _ => panic!("expected ITER to be malformed"),
    }
}

fn small_keybag(wrap: u32) -> Vec<KeybagEntry> {
    keybag(vec![
        ("SALT", vec![1; 20]),
        ("ITER", vec![0, 0, 0, 1]),
        ("DPSL", vec![2; 20]),
        ("DPIC", vec![0, 0, 0, 1]),
        ("UUID", vec![0; 16]),
        ("CLAS", vec![0, 0, 0, 3]),
        ("WRAP", wrap.to_be_bytes().to_vec()),
        ("WPKY", vec![0; 40]),
    ])
}

#[test]
fn wrong_password_unlocks_nothing() {
    let meta = metadata(small_keybag(2));
    assert!(matches!(unlock_manifest_key(&meta, b"secret"), Ok(None)));
    assert!(matches!(unlock_backup(&meta, b"secret"), Ok(None)));
    assert!(matches!(verify_backup_password(&meta, b"secret", &[0_u8; 16]), Ok(false)));
}

#[test]
fn class_without_passcode_protection_is_an_error() {
    let meta = metadata(small_keybag(1));
    match unlock_manifest_key(&meta, b"secret") {
        Err(ExportError::ClassNotPasscodeProtected { class, wrap }) => {
            assert_eq!(class, 3);
            assert_eq!(wrap, 1);
        }
        _ => panic!("expected an unprotected class"),
    }
    assert!(matches!(unlock_backup(&meta, b"secret"), Err(ExportError::ManifestClassLocked { class: 3 })));
}

#[test]
fn missing_manifest_class_is_an_error() {
    let mut meta = metadata(small_keybag(2));
    meta.manifest_key_class = 9;
    assert!(matches!(unlock_manifest_key(&meta, b"secret"), Err(ExportError::ClassKeyMissing { class: 9 })));
}

#[test]
fn header_check_needs_an_aes_key() {
    assert!(matches!(
        manifest_key_decrypts_header(&[0_u8; 10], &[0_u8; 16]),
        Err(ExportError::AesKeyLength { len: 10 })
    ));
    assert!(matches!(manifest_key_decrypts_header(&[0_u8; 32], &[0_u8; 16]), Ok(false)));
}
