use base64::engine::general_purpose::STANDARD;
use base64::Engine;
use notelock::encryption::{decrypt_content, encrypt_content, CryptoError};

#[test]
fn test_encrypt_decrypt() {
    let content = "Hello, this is a secret note!";
    let password = "my_secure_password";

    let encrypted = encrypt_content(content, password).unwrap();
    let decrypted = decrypt_content(&encrypted, password).unwrap();

    assert_eq!(content, decrypted);
}

#[test]
fn test_wrong_password() {
    let content = "Secret content";
    let password = "correct_password";
    let wrong_password = "wrong_password";

    let encrypted = encrypt_content(content, password).unwrap();
    let result = decrypt_content(&encrypted, wrong_password);

    assert!(result.is_err());
}

#[test]
fn round_trip_empty_string() {
    let encrypted = encrypt_content("", "pw").unwrap();
    assert_eq!(decrypt_content(&encrypted, "pw").unwrap(), "");
}

#[test]
fn round_trip_dollars_and_unicode() {
    let content = "a$b$$c — naïve café $ 一二三";
    let encrypted = encrypt_content(content, "pässwörd$1").unwrap();
    assert_eq!(decrypt_content(&encrypted, "pässwörd$1").unwrap(), content);
}

#[test]
fn round_trip_multi_kb() {
    let content = "The quick brown fox jumps over the lazy dog. ".repeat(200);
    let encrypted = encrypt_content(&content, "long-text-password").unwrap();
    assert_eq!(decrypt_content(&encrypted, "long-text-password").unwrap(), content);
}

#[test]
fn end_to_end_scenario() {
    let content = "Hello, this is a secret note!";
    let password = "my_secure_password";

    let encrypted = encrypt_content(content, password).unwrap();
    let parts: Vec<&str> = encrypted.split('$').collect();
    assert_eq!(parts.len(), 3);
    assert!(!parts[0].is_empty());
    assert_eq!(STANDARD.decode(parts[1]).unwrap().len(), 12);
    assert!(STANDARD.decode(parts[2]).unwrap().len() >= 16);

    assert_eq!(decrypt_content(&encrypted, password).unwrap(), content);
    assert_eq!(
        decrypt_content(&encrypted, "wrong_password"),
        Err(CryptoError::DecryptionFailed)
    );
}

#[test]
fn fresh_salt_and_nonce_each_time() {
    let a = encrypt_content("same", "pw").unwrap();
    let b = encrypt_content("same", "pw").unwrap();
    let pa: Vec<&str> = a.split('$').collect();
    let pb: Vec<&str> = b.split('$').collect();
    assert_ne!(pa[0], pb[0]);
    assert_ne!(pa[1], pb[1]);
}

#[test]
fn malformed_wrong_field_counts() {
    for bad in ["", "abc", "a$b", "a$b$c$d", "$$$", "one$two$three$four$five"] {
        assert_eq!(
            decrypt_content(bad, "pw"),
            Err(CryptoError::MalformedEnvelope),
            "input {:?}",
            bad
        );
    }
}

#[test]
fn malformed_bad_base64_fields() {
    let encrypted = encrypt_content("content", "pw").unwrap();
    let parts: Vec<&str> = encrypted.split('$').collect();

    let bad_nonce = format!("{}${}${}", parts[0], "!!!not-base64!!!", parts[2]);
    assert_eq!(decrypt_content(&bad_nonce, "pw"), Err(CryptoError::MalformedEnvelope));

    let bad_ct = format!("{}${}${}", parts[0], parts[1], "%%%");
    assert_eq!(decrypt_content(&bad_ct, "pw"), Err(CryptoError::MalformedEnvelope));

    let bad_salt = format!("{}${}${}", "x", parts[1], parts[2]);
    assert_eq!(decrypt_content(&bad_salt, "pw"), Err(CryptoError::MalformedEnvelope));

    let short_nonce = format!("{}${}${}", parts[0], STANDARD.encode([1u8, 2, 3]), parts[2]);
    assert_eq!(decrypt_content(&short_nonce, "pw"), Err(CryptoError::MalformedEnvelope));
}

fn tamper_nonce_range(from: usize, to: usize) {
    let encrypted = encrypt_content("", "pw").unwrap();
    let parts: Vec<&str> = encrypted.split('$').collect();
    let nonce = STANDARD.decode(parts[1]).unwrap();
    for i in from..to {
        let mut t = nonce.clone();
        t[i] ^= 0x01;
        let forged = format!("{}${}${}", parts[0], STANDARD.encode(&t), parts[2]);
        assert_eq!(
            decrypt_content(&forged, "pw"),
            Err(CryptoError::DecryptionFailed),
            "nonce byte {}",
            i
        );
    }
}

fn tamper_ciphertext_range(from: usize, to: usize) {
    let encrypted = encrypt_content("", "pw").unwrap();
    let parts: Vec<&str> = encrypted.split('$').collect();
    let ct = STANDARD.decode(parts[2]).unwrap();
    assert_eq!(ct.len(), 16);
    for i in from..to {
        let mut t = ct.clone();
        t[i] ^= 0x80;
        let forged = format!("{}${}${}", parts[0], parts[1], STANDARD.encode(&t));
        assert_eq!(
            decrypt_content(&forged, "pw"),
            Err(CryptoError::DecryptionFailed),
            "ciphertext byte {}",
            i
        );
    }
}

#[test]
fn parseable_salt_that_fails_derivation_is_malformed() {
    let encrypted = encrypt_content("x", "pw").unwrap();
    let parts: Vec<&str> = encrypted.split('$').collect();
    // Eight dots pass the structured salt format's character class, but the
    // strict B64 decode inside key derivation rejects them: a malformed
    // envelope, not a key-derivation failure.
    let forged = format!("{}${}${}", "........", parts[1], parts[2]);
    assert_eq!(decrypt_content(&forged, "pw"), Err(CryptoError::MalformedEnvelope));
}

#[test]
fn tamper_nonce_detected_low_bytes() {
    tamper_nonce_range(0, 6);
}

#[test]
fn tamper_nonce_detected_high_bytes() {
    tamper_nonce_range(6, 12);
}

#[test]
fn tamper_ciphertext_detected_low_bytes() {
    tamper_ciphertext_range(0, 8);
}

#[test]
fn tamper_ciphertext_detected_high_bytes() {
    tamper_ciphertext_range(8, 16);
}

#[test]
fn tamper_ciphertext_of_longer_note_detected() {
    let encrypted = encrypt_content("a longer secret note body", "pw").unwrap();
    let parts: Vec<&str> = encrypted.split('$').collect();
    let ct = STANDARD.decode(parts[2]).unwrap();
    for i in [0, ct.len() / 2, ct.len() - 1] {
        let mut t = ct.clone();
        t[i] ^= 0x40;
        let forged = format!("{}${}${}", parts[0], parts[1], STANDARD.encode(&t));
        assert_eq!(
            decrypt_content(&forged, "pw"),
            Err(CryptoError::DecryptionFailed),
            "ciphertext byte {}",
            i
        );
    }
}
