//! Decrypting with a different password fails, over many distinct password
//! pairs; split into batches so each stays well inside its time budget.

use notelock::encryption::{decrypt_content, encrypt_content, CryptoError};

fn scrambled(mut x: u64, len: usize) -> String {
    let alphabet: Vec<char> = "abcdefghijklmnopqrstuvwxyzABCDEFGHIJKLMNOPQRSTUVWXYZ0123456789"
        .chars()
        .collect();
    let mut s = String::new();
    for _ in 0..len {
        x = x.wrapping_mul(6364136223846793005).wrapping_add(1442695040888963407);
        s.push(alphabet[(x >> 33) as usize % alphabet.len()]);
    }
    s
}

fn pair(i: u64) -> (String, String) {
    let a = format!("{}-{}", scrambled(2 * i + 1, 10), i);
    let b = format!("{}+{}", scrambled(2 * i + 2, 10), i);
    assert_ne!(a, b);
    (a, b)
}

fn batch(from: u64, to: u64) {
    for i in from..to {
        let (pw, other) = pair(i);
        let encrypted = encrypt_content("statistical check", &pw).unwrap();
        assert_eq!(
            decrypt_content(&encrypted, &other),
            Err(CryptoError::DecryptionFailed),
            "pair {}",
            i
        );
    }
}

#[test]
fn wrong_password_rejected_batch_a() {
    batch(0, 4);
}

#[test]
fn wrong_password_rejected_batch_b() {
    batch(4, 8);
}

#[test]
fn wrong_password_rejected_batch_c() {
    batch(8, 12);
}

#[test]
fn wrong_password_rejected_batch_d() {
    batch(12, 16);
}

#[test]
fn wrong_password_rejected_batch_e() {
    batch(16, 20);
}

#[test]
fn wrong_password_rejected_batch_f() {
    batch(20, 24);
}

#[test]
fn wrong_password_rejected_batch_g() {
    batch(24, 28);
}

#[test]
fn wrong_password_rejected_batch_h() {
    batch(28, 32);
}

#[test]
fn wrong_password_rejected_batch_i() {
    batch(32, 36);
}

#[test]
fn wrong_password_rejected_batch_j() {
    batch(36, 40);
}

#[test]
fn wrong_password_rejected_batch_k() {
    batch(40, 44);
}

#[test]
fn wrong_password_rejected_batch_l() {
    batch(44, 48);
}

#[test]
fn wrong_password_rejected_batch_m() {
    batch(48, 52);
}

#[test]
fn wrong_password_rejected_batch_n() {
    batch(52, 56);
}

#[test]
fn wrong_password_rejected_batch_o() {
    batch(56, 60);
}

#[test]
fn wrong_password_rejected_batch_p() {
    batch(60, 64);
}

#[test]
fn wrong_password_rejected_batch_q() {
    batch(64, 68);
}

#[test]
fn wrong_password_rejected_batch_r() {
    batch(68, 72);
}

#[test]
fn wrong_password_rejected_batch_s() {
    batch(72, 76);
}

#[test]
fn wrong_password_rejected_batch_t() {
    batch(76, 80);
}

#[test]
fn wrong_password_rejected_batch_u() {
    batch(80, 84);
}

#[test]
fn wrong_password_rejected_batch_v() {
    batch(84, 88);
}

#[test]
fn wrong_password_rejected_batch_w() {
    batch(88, 92);
}

#[test]
fn wrong_password_rejected_batch_x() {
    batch(92, 96);
}

#[test]
fn wrong_password_rejected_batch_y() {
    batch(96, 100);
}
