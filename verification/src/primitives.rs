//! The outside primitives this library builds on: AES, PBKDF2, property-list
//! parsing, zeroizing key buffers and a few std calls. The contracts of these
//! items are taken as given; their bodies only make the outside call.

use vstd::prelude::*;
use aes::cipher::generic_array::GenericArray;
use aes::cipher::{BlockDecrypt, KeyInit};
use aes::Aes256;
use zeroize::Zeroizing;
use crate::plist_value::PlistValue;

verus! {

/// The AES-256 inverse cipher applied to one 16-byte block under a 32-byte key.
pub uninterp spec fn aes256_decrypt(key: Seq<u8>, block: Seq<u8>) -> Seq<u8>;

/// Decrypts one block with `aes::Aes256` (`new_from_slice`, then
/// `BlockDecrypt::decrypt_block`). The contract claims that the result is the
/// AES-256 inverse cipher of `block` under `key`, a function of the two alone;
/// `new_from_slice` accepts every 32-byte key, so the call does not fail.
#[verifier::external_body]
pub(crate) fn aes256_decrypt_block(key: &[u8], block: &[u8; 16]) -> (plain: [u8; 16])
    requires
        key@.len() == 32,
    ensures
        plain@ == aes256_decrypt(key@, block@),
{
    let cipher = Aes256::new_from_slice(key).expect("a 32-byte AES-256 key");
    let mut data = GenericArray::clone_from_slice(block);
    cipher.decrypt_block(&mut data);
    data.into()
}

/// What `String::from_utf8_lossy` makes of a byte string.
pub uninterp spec fn utf8_lossy(bytes: Seq<u8>) -> Seq<char>;

/// `String::from_utf8_lossy`, made owned. The contract claims that the text is
/// a function of the bytes alone and, as std documents, that valid UTF-8 is
/// decoded unchanged; how invalid sequences are replaced is left unsaid.
#[verifier::external_body]
pub(crate) fn decode_utf8_lossy(bytes: &[u8]) -> (text: String)
    ensures
        text@ == utf8_lossy(bytes@),
        vstd::utf8::valid_utf8(bytes@) ==> text@ == vstd::utf8::decode_utf8(bytes@),
{
    String::from_utf8_lossy(bytes).into_owned()
}

/// Key material held in a `zeroize::Zeroizing<Vec<u8>>`, which overwrites the
/// bytes with zeroes when it is dropped. `Zeroizing`'s parameter is bound by
/// the outside trait `Zeroize`, so the type is not named in contracts: the
/// buffer sits in this opaque struct, whose bytes `secret_view` names.
#[verifier::external_body]
pub struct SecretKey {
    buffer: Zeroizing<Vec<u8>>,
}

/// The bytes that a secret key holds.
pub uninterp spec fn secret_view(secret: SecretKey) -> Seq<u8>;

/// `Zeroizing::new`: the buffer then holds exactly the bytes it was given.
#[verifier::external_body]
pub(crate) fn seal_secret(bytes: Vec<u8>) -> (secret: SecretKey)
    ensures
        secret_view(secret) == bytes@,
{
    SecretKey { buffer: Zeroizing::new(bytes) }
}

/// The bytes of the key, through `Zeroizing`'s `Deref` to the vector inside.
#[verifier::external_body]
pub(crate) fn secret_bytes(secret: &SecretKey) -> (bytes: &[u8])
    ensures
        bytes@ == secret_view(*secret),
{
    secret.buffer.as_slice()
}

impl SecretKey {
    /// The key's bytes.
    pub fn bytes(&self) -> (bytes: &[u8])
        ensures
            bytes@ == secret_view(*self),
    {
        secret_bytes(self)
    }
}

/// PBKDF2 with HMAC-SHA256: the key of `len` bytes derived from `password`
/// and `salt` in `rounds` rounds.
pub uninterp spec fn pbkdf2_hmac_sha256(password: Seq<u8>, salt: Seq<u8>, rounds: u32, len: nat) -> Seq<u8>;

/// PBKDF2 with HMAC-SHA1, as above.
pub uninterp spec fn pbkdf2_hmac_sha1(password: Seq<u8>, salt: Seq<u8>, rounds: u32, len: nat) -> Seq<u8>;

/// `pbkdf2::pbkdf2_hmac::<sha2::Sha256>` writing into the zeroizing buffer.
/// The crate overwrites the whole buffer with the derived key and does not
/// fail (HMAC takes keys of any length); the contract claims that the buffer
/// then holds the PBKDF2-HMAC-SHA256 key of its own length, a function of
/// password, salt, rounds and that length, and keeps that length.
#[verifier::external_body]
pub(crate) fn derive_pbkdf2_sha256(password: &[u8], salt: &[u8], rounds: u32, out: &mut SecretKey)
    ensures
        secret_view(*final(out)) == pbkdf2_hmac_sha256(password@, salt@, rounds, secret_view(*old(out)).len()),
        secret_view(*final(out)).len() == secret_view(*old(out)).len(),
{
    pbkdf2::pbkdf2_hmac::<sha2::Sha256>(password, salt, rounds, out.buffer.as_mut_slice());
}

/// `pbkdf2::pbkdf2_hmac::<sha1::Sha1>` writing into the zeroizing buffer, with
/// the same claims as the SHA-256 variant.
#[verifier::external_body]
pub(crate) fn derive_pbkdf2_sha1(password: &[u8], salt: &[u8], rounds: u32, out: &mut SecretKey)
    ensures
        secret_view(*final(out)) == pbkdf2_hmac_sha1(password@, salt@, rounds, secret_view(*old(out)).len()),
        secret_view(*final(out)).len() == secret_view(*old(out)).len(),
{
    pbkdf2::pbkdf2_hmac::<sha1::Sha1>(password, salt, rounds, out.buffer.as_mut_slice());
}

/// `plist::Value`, a parsed property list.
#[verifier::external_type_specification]
#[verifier::external_body]
pub struct ExPlistValue(plist::Value);

/// Copies a parsed property list into the library's own value type, variant by
/// variant; integers become their `as_unsigned` value, UIDs their number, and
/// dates and reals `Other`.
#[verifier::external_body]
fn convert_plist(value: &plist::Value) -> PlistValue {
    match value {
        plist::Value::Array(items) => PlistValue::Array(items.iter().map(convert_plist).collect()),
        plist::Value::Dictionary(dict) => PlistValue::Dictionary(
            dict.iter().map(|(k, v)| (k.clone(), convert_plist(v))).collect(),
        ),
        plist::Value::Boolean(b) => PlistValue::Boolean(*b),
        plist::Value::Data(data) => PlistValue::Data(data.clone()),
        plist::Value::Integer(n) => PlistValue::Integer(n.as_unsigned()),
        plist::Value::String(text) => PlistValue::String(text.clone()),
        plist::Value::Uid(uid) => PlistValue::Uid(uid.get()),
        _ => PlistValue::Other,
    }
}

/// What `plist::Value::from_reader` reads from a byte string, in any of the
/// property-list encodings: a value, or nothing when the bytes are no property list.
pub uninterp spec fn plist_decode(bytes: Seq<u8>) -> Option<PlistValue>;

/// Parses a property list held in memory with `plist::Value::from_reader` over
/// a `std::io::Cursor`. The contract claims only that the outcome is a function
/// of the bytes.
#[verifier::external_body]
pub(crate) fn parse_plist(bytes: &[u8]) -> (parsed: Option<PlistValue>)
    ensures
        parsed == plist_decode(bytes@),
{
    match plist::Value::from_reader(std::io::Cursor::new(bytes)) {
        Ok(value) => Some(convert_plist(&value)),
        Err(_) => None,
    }
}

/// What the `Debug` formatting of a string writes: the text between double
/// quotes, with quotes, backslashes and other characters escaped.
pub uninterp spec fn debug_quoted(text: Seq<char>) -> Seq<char>;

/// `format!("{:?}", text)`, the `Debug` formatting of a `str`. The contract
/// claims only that the result is a function of the text; which characters
/// are escaped, and how, is left unsaid.
#[verifier::external_body]
pub(crate) fn debug_string(text: &str) -> (quoted: String)
    ensures
        quoted@ == debug_quoted(text@),
{
    format!("{:?}", text)
}

/// `String::push`: the text gains one character at its end.
#[verifier::external_body]
pub(crate) fn push_char(text: &mut String, c: char)
    ensures
        final(text)@ == old(text)@.push(c),
{
    text.push(c);
}

} // verus!
