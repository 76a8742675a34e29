//! Trusted primitives under the codec: password key derivation (Argon2id),
//! authenticated encryption (AES-256-GCM), base64 text encoding, and the
//! random salt and nonce.
//!
//! Each outside call stands behind one wrapper whose contract names or
//! states what the call returns; everything around the calls is verified.

use aes_gcm::aead::{Aead, KeyInit};
use argon2::password_hash::{PasswordHasher, SaltString};
use base64::Engine;
use vstd::prelude::*;
use vstd::string::StrSliceExecFns;

verus! {

/// A character the PHC salt format admits: letters, digits, '/', '+',
/// '.' and '-'.
pub open spec fn salt_char_ok(c: char) -> bool {
    (97 <= c as u32 && c as u32 <= 122) || (65 <= c as u32 && c as u32 <= 90) || (48 <= c as u32
        && c as u32 <= 57) || c == '/' || c == '+' || c == '.' || c == '-'
}

/// Whether argon2's structured salt format (SaltString::from_b64) accepts
/// the text: 4 to 64 characters, all from the PHC salt character class.
/// The class is ASCII, so the source's byte count agrees with the
/// character count.
pub open spec fn salt_parses(s: Seq<char>) -> bool {
    4 <= s.len() <= 64 && forall|i: int| 0 <= i < s.len() ==> salt_char_ok(#[trigger] s[i])
}

/// The key argon2 derives from a password and a salt text, or `None` where
/// derivation fails; a function of the two arguments alone, since the
/// hashing parameters are process-wide constants.
pub uninterp spec fn kdf_hash(password: Seq<u8>, salt: Seq<char>) -> Option<Seq<u8>>;

/// The AES-256-GCM sealing of a plaintext under a key and nonce
/// (ciphertext with the authentication tag appended).
pub uninterp spec fn aead_seal(key: Seq<u8>, nonce: Seq<u8>, plaintext: Seq<u8>) -> Seq<u8>;

/// The AES-256-GCM opening of a ciphertext under a key and nonce: the
/// plaintext where the authentication tag verifies, `None` otherwise.
pub uninterp spec fn aead_open(key: Seq<u8>, nonce: Seq<u8>, ciphertext: Seq<u8>) -> Option<
    Seq<u8>,
>;

/// What base64's standard-alphabet decoding makes of a text, or `None`
/// where the text is not valid base64.
pub uninterp spec fn b64_parse(s: Seq<char>) -> Option<Seq<u8>>;

/// Relies on argon2's SaltString::generate: a fresh random salt, encoded as
/// 22 characters of the B64 alphabet, so it contains no '$', parses back,
/// and (decoding to the recommended 16 salt bytes) is accepted by argon2's
/// password hashing for every password below the 2^32-byte input limit.
#[verifier::external_body]
pub(crate) fn gen_salt() -> (r: String)
    ensures
        r@.len() == 22,
        forall|i: int| 0 <= i < r@.len() ==> r@[i] != '$',
        salt_parses(r@),
        forall|pw: Seq<u8>| pw.len() < 0x1_0000_0000 ==> (#[trigger] kdf_hash(pw, r@)) is Some,
{
    SaltString::generate(&mut rand::rngs::OsRng).as_str().to_owned()
}

/// Whether the structured salt format accepts the text.
pub(crate) fn check_salt(s: &str) -> (r: bool)
    ensures
        r == salt_parses(s@),
{
    let n = s.unicode_len();
    if n < 4 || n > 64 {
        return false;
    }
    let mut i: usize = 0;
    while i < n
        invariant
            n == s@.len(),
            i <= n,
            forall|j: int| 0 <= j < i ==> salt_char_ok(#[trigger] s@[j]),
        decreases n - i,
    {
        let c = s.get_char(i);
        let u = c as u32;
        let ok = (97 <= u && u <= 122) || (65 <= u && u <= 90) || (48 <= u && u <= 57) || c == '/'
            || c == '+' || c == '.' || c == '-';
        if !ok {
            assert(!salt_char_ok(s@[i as int]));
            return false;
        }
        i += 1;
    }
    true
}

/// Relies on argon2's hash_password with the fixed hardened profile:
/// Argon2id, version 0x13, 19 MiB memory, 3 iterations, parallelism 1,
/// 32-byte output. SaltString::from_b64 converts the salt text back to the
/// structured salt it came from. The derived key is a function of the
/// password bytes and the salt text alone, and is 32 bytes long whenever
/// derivation succeeds.
#[verifier::external_body]
pub(crate) fn derive_key(password: &[u8], salt: &str) -> (r: Option<Vec<u8>>)
    ensures
        match kdf_hash(password@, salt@) {
            Some(h) => r matches Some(v) && v@ == h && v@.len() == 32,
            None => r is None,
        },
{
    let salt_string = SaltString::from_b64(salt).ok()?;
    let params = argon2::Params::new(19 * 1024, 3, 1, Some(32)).ok()?;
    let hasher = argon2::Argon2::new(argon2::Algorithm::Argon2id, argon2::Version::V0x13, params);
    let hash = hasher.hash_password(password, &salt_string).ok()?;
    Some(hash.hash?.as_bytes().to_vec())
}

/// Relies on rand's OsRng, the operating system's randomness source, to
/// fill the 96-bit nonce; nothing is promised of the bytes but their count.
#[verifier::external_body]
pub(crate) fn gen_nonce() -> (r: Vec<u8>)
    ensures
        r@.len() == 12,
{
    let mut nonce = [0u8; 12];
    rand::Rng::fill(&mut rand::rngs::OsRng, &mut nonce[..]);
    nonce.to_vec()
}

/// Relies on aes_gcm's Aes256Gcm::encrypt: sealing appends the 16-byte tag,
/// the result is a function of key, nonce and plaintext alone, it opens
/// back to the plaintext under the same key and nonce, and it fails only
/// for plaintexts beyond the AES-GCM length limit of 2^36 bytes.
#[verifier::external_body]
pub(crate) fn aead_encrypt(key: &[u8], nonce: &[u8], plaintext: &[u8]) -> (r: Option<Vec<u8>>)
    requires
        key@.len() == 32,
        nonce@.len() == 12,
    ensures
        plaintext@.len() < 0x10_0000_0000 ==> r is Some,
        r matches Some(c) ==> c@ == aead_seal(key@, nonce@, plaintext@) && c@.len() == plaintext@.len()
            + 16 && aead_open(key@, nonce@, c@) == Some(plaintext@),
{
    let cipher = match aes_gcm::Aes256Gcm::new_from_slice(key) {
        Ok(c) => c,
        Err(_) => return None,
    };
    match cipher.encrypt(aes_gcm::Nonce::from_slice(nonce), plaintext) {
        Ok(c) => Some(c),
        Err(_) => None,
    }
}

/// Relies on aes_gcm's Aes256Gcm::decrypt: opening verifies the
/// authentication tag and is a function of key, nonce and ciphertext alone;
/// it returns no plaintext when verification fails.
#[verifier::external_body]
pub(crate) fn aead_decrypt(key: &[u8], nonce: &[u8], ciphertext: &[u8]) -> (r: Option<Vec<u8>>)
    requires
        key@.len() == 32,
        nonce@.len() == 12,
    ensures
        match aead_open(key@, nonce@, ciphertext@) {
            Some(p) => r matches Some(v) && v@ == p,
            None => r is None,
        },
{
    let cipher = match aes_gcm::Aes256Gcm::new_from_slice(key) {
        Ok(c) => c,
        Err(_) => return None,
    };
    match cipher.decrypt(aes_gcm::Nonce::from_slice(nonce), ciphertext) {
        Ok(p) => Some(p),
        Err(_) => None,
    }
}

/// Relies on base64's STANDARD engine: the encoding uses only characters of
/// the standard alphabet and '=' padding, so never '$', and it decodes back
/// to the input bytes.
#[verifier::external_body]
pub(crate) fn b64_encode(bytes: &[u8]) -> (r: String)
    ensures
        forall|i: int| 0 <= i < r@.len() ==> r@[i] != '$',
        b64_parse(r@) == Some(bytes@),
{
    base64::engine::general_purpose::STANDARD.encode(bytes)
}

/// Relies on base64's STANDARD engine: whether a text decodes, and to what,
/// is a function of the text alone.
#[verifier::external_body]
pub(crate) fn b64_decode(s: &str) -> (r: Option<Vec<u8>>)
    ensures
        match b64_parse(s@) {
            Some(b) => r matches Some(v) && v@ == b,
            None => r is None,
        },
{
    match base64::engine::general_purpose::STANDARD.decode(s) {
        Ok(v) => Some(v),
        Err(_) => None,
    }
}

/// Relies on std's String::from_utf8: it accepts exactly valid UTF-8,
/// decodes it to the characters of vstd's UTF-8 model, and hands the buffer
/// back unchanged when it refuses.
#[verifier::external_body]
pub(crate) fn bytes_to_string(bytes: Vec<u8>) -> (r: Result<String, Vec<u8>>)
    ensures
        match r {
            Ok(s) => vstd::utf8::valid_utf8(bytes@) && s@ == vstd::utf8::decode_utf8(bytes@),
            Err(v) => !vstd::utf8::valid_utf8(bytes@) && v@ == bytes@,
        },
{
    match String::from_utf8(bytes) {
        Ok(s) => Ok(s),
        Err(e) => Err(e.into_bytes()),
    }
}

/// Relies on std's String::push appending one character.
#[verifier::external_body]
pub(crate) fn push_char(s: &mut String, c: char)
    ensures
        final(s)@ == old(s)@.push(c),
{
    s.push(c);
}

} // verus!
