use base64::Engine;
use mqtt_auth::password::{PasswordCipher, PasswordScheme};

const KEY_HEX: &str = "000102030405060708090a0b0c0d0e0f101112131415161718191a1b1c1d1e1f";

#[test]
fn encrypt_then_decrypt_round_trips() {
    let cipher = PasswordCipher::from_hex(KEY_HEX).ok().unwrap();
    for p in ["p", "", "pässwörd with spaces", "\"quoted\""] {
        let payload = cipher.encrypt_password(p).ok().unwrap();
        assert_ne!(payload, p);
        let bytes = base64::engine::general_purpose::STANDARD.decode(&payload).unwrap();
        assert_eq!(bytes.len(), 12 + p.len() + 16);
        assert_eq!(cipher.decrypt_password(&payload).ok().unwrap(), p);
    }
}

#[test]
fn tampered_payload_fails() {
    let cipher = PasswordCipher::from_hex(KEY_HEX).ok().unwrap();
    let payload = cipher.encrypt_password("secret").ok().unwrap();
    let mut bytes = base64::engine::general_purpose::STANDARD.decode(&payload).unwrap();
    let last = bytes.len() - 1;
    bytes[last] ^= 1;
    let tampered = base64::engine::general_purpose::STANDARD.encode(&bytes);
    assert!(cipher.decrypt_password(&tampered).is_err());
    assert!(cipher.decrypt_password("not base64 !").is_err());
    let short = base64::engine::general_purpose::STANDARD.encode([1u8, 2, 3]);
    assert!(cipher.decrypt_password(&short).is_err());
}

#[test]
fn other_key_fails() {
    let cipher = PasswordCipher::from_hex(KEY_HEX).ok().unwrap();
    let other = PasswordCipher::from_hex(
        "ff0102030405060708090a0b0c0d0e0f101112131415161718191a1b1c1d1e1f",
    )
    .ok()
    .unwrap();
    let payload = cipher.encrypt_password("secret").ok().unwrap();
    assert!(other.decrypt_password(&payload).is_err());
}

#[test]
fn key_must_be_32_hex_bytes() {
    assert!(PasswordCipher::from_hex("0011").is_err());
    assert!(PasswordCipher::from_hex("zz").is_err());
    assert!(PasswordCipher::from_hex(KEY_HEX).is_ok());
}

#[test]
fn argon2_hash_and_verify() {
    let scheme = PasswordScheme::Argon2;
    let hash = scheme.hash_password("p").ok().unwrap();
    assert!(hash.starts_with("$argon2"));
    assert!(scheme.verify_password("p", &hash));
    assert!(!scheme.verify_password("wrong", &hash));
    assert!(!scheme.verify_password("p", "not a hash"));
}

#[test]
fn encrypted_scheme_verifies() {
    let scheme = PasswordScheme::Encrypted(PasswordCipher::from_hex(KEY_HEX).ok().unwrap());
    let secret = scheme.hash_password("p").ok().unwrap();
    assert!(scheme.verify_password("p", &secret));
    assert!(!scheme.verify_password("q", &secret));
    assert!(!scheme.verify_password("p", "garbage"));
}

#[test]
fn fresh_nonce_per_encryption() {
    let cipher = PasswordCipher::from_hex(KEY_HEX).ok().unwrap();
    let a = cipher.encrypt_password("same").ok().unwrap();
    let b = cipher.encrypt_password("same").ok().unwrap();
    assert_ne!(a, b);
    assert_eq!(cipher.decrypt_password(&a).ok().unwrap(), "same");
    assert_eq!(cipher.decrypt_password(&b).ok().unwrap(), "same");
}

#[test]
fn upper_case_key_hex_is_the_same_key() {
    let lower = PasswordCipher::from_hex(KEY_HEX).ok().unwrap();
    let upper = PasswordCipher::from_hex(&KEY_HEX.to_uppercase()).ok().unwrap();
    let payload = lower.encrypt_password("x").ok().unwrap();
    assert_eq!(upper.decrypt_password(&payload).ok().unwrap(), "x");
}

#[test]
fn encryption_under_a_given_nonce() {
    let cipher = PasswordCipher::from_hex(KEY_HEX).ok().unwrap();
    let nonce = [7u8; 12];
    let a = cipher.encrypt_with_nonce("pw", &nonce).ok().unwrap();
    assert_eq!(a, cipher.encrypt_with_nonce("pw", &nonce).ok().unwrap());
    let bytes = base64::engine::general_purpose::STANDARD.decode(&a).unwrap();
    assert_eq!(&bytes[..12], &nonce[..]);
    assert_eq!(bytes.len(), 12 + 2 + 16);
    assert_eq!(cipher.decrypt_password(&a).ok().unwrap(), "pw");
}
