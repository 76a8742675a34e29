//! The authenticated encryption codec: a password and a plaintext become a
//! storable `salt$nonce$ciphertext` text, and back.
//!
//! Every encryption draws a fresh random salt and nonce, derives a 32-byte
//! key from the password with Argon2id, seals the UTF-8 plaintext bytes with
//! AES-256-GCM, and base64-encodes nonce and ciphertext. Decryption is its
//! exact inverse; a wrong password and a corrupted envelope are deliberately
//! indistinguishable, both failing authentication.

use crate::crypto::{
    aead_decrypt, aead_encrypt, aead_open, b64_decode, b64_encode, b64_parse, bytes_to_string,
    check_salt, derive_key, gen_nonce, gen_salt, kdf_hash, push_char, salt_parses,
};
use crate::envelope::{
    dollar_free, lemma_split_no_dollar, lemma_split_prefix, split_dollar, split_parts,
};
use vstd::prelude::*;
use vstd::string::StringExecFns;
use vstd::string::StringSliceAdditionalSpecFns;

verus! {

/// How an encryption or decryption call fails.
#[derive(Clone, Copy, Debug, PartialEq, Eq, Structural)]
pub enum CryptoError {
    /// The envelope text is not `salt$nonce$ciphertext` with well-formed
    /// fields: a local integrity problem, never password-related.
    MalformedEnvelope,
    /// Authentication failed: the password is wrong or the data corrupted,
    /// deliberately indistinguishable.
    DecryptionFailed,
    /// The decrypted bytes are not valid UTF-8 text.
    EncodingError,
    /// Key derivation failed during encryption; only possible for inputs
    /// beyond the hashing limits, and treated as fatal. Decryption never
    /// returns it: a salt the wire format accepts but derivation rejects is
    /// a malformed envelope.
    KdfParameterError,
}

/// What decrypting an envelope text with a password yields: the exact case
/// analysis of the wire format, key derivation, authenticated opening, and
/// text decoding.
pub open spec fn decrypt_spec(env: Seq<char>, password: Seq<u8>) -> Result<
    Seq<char>,
    CryptoError,
> {
    let parts = split_parts(env);
    if parts.len() != 3 {
        Err(CryptoError::MalformedEnvelope)
    } else {
        match (b64_parse(parts[1]), b64_parse(parts[2])) {
            (Some(nonce), Some(ct)) => {
                if !salt_parses(parts[0]) || nonce.len() != 12 {
                    Err(CryptoError::MalformedEnvelope)
                } else {
                    match kdf_hash(password, parts[0]) {
                        None => Err(CryptoError::MalformedEnvelope),
                        Some(key) => match aead_open(key, nonce, ct) {
                            None => Err(CryptoError::DecryptionFailed),
                            Some(pt) => if vstd::utf8::valid_utf8(pt) {
                                Ok(vstd::utf8::decode_utf8(pt))
                            } else {
                                Err(CryptoError::EncodingError)
                            },
                        },
                    }
                }
            },
            _ => Err(CryptoError::MalformedEnvelope),
        }
    }
}

/// Overwrite a sensitive buffer with zeros, keeping its length.
pub fn zeroize(buf: &mut Vec<u8>)
    ensures
        final(buf)@.len() == old(buf)@.len(),
        forall|i: int| 0 <= i < final(buf)@.len() ==> final(buf)@[i] == 0u8,
{
    let n = buf.len();
    let mut i: usize = 0;
    while i < n
        invariant
            n == buf@.len(),
            i <= n,
            forall|j: int| 0 <= j < i ==> buf@[j] == 0u8,
        decreases n - i,
    {
        buf.set(i, 0);
        i += 1;
    }
}

/// Encrypt a plaintext under a password: a fresh random salt and nonce, an
/// Argon2id-derived key, AES-256-GCM sealing, and the
/// `salt$nonce$ciphertext` text. Decrypting the result with the same
/// password gives back the plaintext exactly; key-bearing buffers are
/// zeroed before returning.
pub fn encrypt_content(content: &str, password: &str) -> (r: Result<String, CryptoError>)
    ensures
        r matches Ok(env) ==> decrypt_spec(env@, password.spec_bytes()) == Ok::<
            Seq<char>,
            CryptoError,
        >(content@),
        r matches Ok(env) ==> ({
            let parts = split_parts(env@);
            &&& parts.len() == 3
            &&& parts[0].len() == 22
            &&& (b64_parse(parts[1]) matches Some(n) && n.len() == 12)
            &&& (b64_parse(parts[2]) matches Some(c) && c.len() == content.spec_bytes().len()
                + 16)
        }),
        r matches Err(e) ==> e == CryptoError::KdfParameterError,
        password.spec_bytes().len() < 0x1_0000_0000 && content.spec_bytes().len()
            < 0x10_0000_0000 ==> r is Ok,
{
    let salt = gen_salt();
    let mut key = match derive_key(password.as_bytes(), salt.as_str()) {
        Some(k) => k,
        None => {
            return Err(CryptoError::KdfParameterError);
        },
    };
    let ghost key0 = key@;
    let mut nonce = gen_nonce();
    let ghost nonce0 = nonce@;
    let ct = match aead_encrypt(key.as_slice(), nonce.as_slice(), content.as_bytes()) {
        Some(c) => c,
        None => {
            zeroize(&mut key);
            return Err(CryptoError::KdfParameterError);
        },
    };
    zeroize(&mut key);
    let nonce_b64 = b64_encode(nonce.as_slice());
    let ct_b64 = b64_encode(ct.as_slice());
    zeroize(&mut nonce);
    let mut env = salt;
    let ghost salt0 = env@;
    push_char(&mut env, '$');
    env.append(nonce_b64.as_str());
    push_char(&mut env, '$');
    env.append(ct_b64.as_str());
    proof {
        broadcast use vstd::utf8::encode_utf8_valid_utf8;
        broadcast use vstd::utf8::encode_utf8_decode_utf8;

        let rest = nonce_b64@ + seq!['$'] + ct_b64@;
        assert(env@ =~= salt0 + seq!['$'] + rest);
        assert(dollar_free(salt0));
        assert(dollar_free(nonce_b64@));
        assert(dollar_free(ct_b64@));
        lemma_split_prefix(salt0, rest);
        lemma_split_prefix(nonce_b64@, ct_b64@);
        lemma_split_no_dollar(ct_b64@);
        let parts = split_parts(env@);
        assert(parts =~~= seq![salt0, nonce_b64@, ct_b64@]);
        assert(parts.len() == 3);
        assert(b64_parse(parts[1]) == Some(nonce0));
        assert(b64_parse(parts[2]) == Some(ct@));
        assert(salt_parses(parts[0]));
        assert(parts[0].len() == 22);
        assert(ct@.len() == content.spec_bytes().len() + 16);
        assert(nonce0.len() == 12);
        assert(kdf_hash(password.spec_bytes(), parts[0]) == Some(key0));
        assert(aead_open(key0, nonce0, ct@) == Some(content.spec_bytes()));
        assert(vstd::utf8::valid_utf8(content.spec_bytes()));
        assert(vstd::utf8::decode_utf8(content.spec_bytes()) == content@);
        assert(decrypt_spec(env@, password.spec_bytes()) == Ok::<Seq<char>, CryptoError>(
            content@,
        ));
    }
    Ok(env)
}

/// Decrypt an envelope produced by `encrypt_content`, yielding the original
/// plaintext exactly when the password matches and the envelope is intact.
pub fn decrypt_content(encrypted: &str, password: &str) -> (r: Result<String, CryptoError>)
    ensures
        match r {
            Ok(s) => decrypt_spec(encrypted@, password.spec_bytes()) == Ok::<Seq<char>, CryptoError>(
                s@,
            ),
            Err(e) => decrypt_spec(encrypted@, password.spec_bytes()) == Err::<Seq<char>, CryptoError>(
                e,
            ),
        },
{
    let parts = split_dollar(encrypted);
    if parts.len() != 3 {
        return Err(CryptoError::MalformedEnvelope);
    }
    let nonce = match b64_decode(parts[1].as_str()) {
        Some(v) => v,
        None => {
            return Err(CryptoError::MalformedEnvelope);
        },
    };
    let ct = match b64_decode(parts[2].as_str()) {
        Some(v) => v,
        None => {
            return Err(CryptoError::MalformedEnvelope);
        },
    };
    if !check_salt(parts[0].as_str()) {
        return Err(CryptoError::MalformedEnvelope);
    }
    if nonce.len() != 12 {
        return Err(CryptoError::MalformedEnvelope);
    }
    let mut key = match derive_key(password.as_bytes(), parts[0].as_str()) {
        Some(k) => k,
        None => {
            return Err(CryptoError::MalformedEnvelope);
        },
    };
    let pt = match aead_decrypt(key.as_slice(), nonce.as_slice(), ct.as_slice()) {
        Some(p) => p,
        None => {
            zeroize(&mut key);
            return Err(CryptoError::DecryptionFailed);
        },
    };
    zeroize(&mut key);
    match bytes_to_string(pt) {
        Ok(s) => Ok(s),
        Err(mut leftover) => {
            zeroize(&mut leftover);
            Err(CryptoError::EncodingError)
        },
    }
}

} // verus!
