//! Password schemes: a salted memory-hard hash that can only be checked, or
//! authenticated encryption that can be reversed for provisioning flows.

use vstd::prelude::*;
use vstd::slice::{slice_subrange, slice_to_vec};
use vstd::utf8::encode_utf8;
use crate::hex::{decode_hex, hex_decoded};
use crate::text::constant_time_eq;
use aes_gcm::aead::{Aead, KeyInit};
use aes_gcm::aead::generic_array::GenericArray;
use argon2::{PasswordHasher, PasswordVerifier};

verus! {

/// Length in bytes of an AES-256 key.
pub const KEY_LEN: usize = 32;

/// Length in bytes of the nonce that starts every encrypted payload.
pub const NONCE_LEN: usize = 12;

/// Length in bytes of the authentication tag that ends every ciphertext.
pub const TAG_LEN: usize = 16;

/// The longest plaintext, in bytes, that AES-GCM encrypts.
pub const PLAINTEXT_MAX: u64 = 0x10_0000_0000;

/// Whether Argon2 accepts `password` against the PHC hash string `phc`.
pub uninterp spec fn argon2_accepts(password: Seq<char>, phc: Seq<char>) -> bool;

/// AES-256-GCM ciphertext (with its tag) of the UTF-8 bytes of `plaintext`.
pub uninterp spec fn aes_gcm_sealed(key: Seq<u8>, nonce: Seq<u8>, plaintext: Seq<char>) -> Seq<u8>;

/// AES-256-GCM decryption of `ciphertext` read as UTF-8 text; `None` when the
/// tag does not authenticate or the bytes are not UTF-8.
pub uninterp spec fn aes_gcm_opened(key: Seq<u8>, nonce: Seq<u8>, ciphertext: Seq<u8>) -> Option<Seq<char>>;

/// Standard base64, with padding.
pub uninterp spec fn base64_of(bytes: Seq<u8>) -> Seq<char>;

/// Standard base64 decoding; `None` for malformed input.
pub uninterp spec fn base64_decoded(text: Seq<char>) -> Option<Seq<u8>>;

/// Relies on `PasswordHasher::hash_password` of argon2 with its default
/// parameters, under a salt of `Salt::RECOMMENDED_LENGTH` bytes that
/// `RngCore::try_fill_bytes` draws from the operating system and
/// `SaltString::encode_b64` encodes: a PHC hash string that `verify_password`
/// accepts for the same password, or `None` where the random source or
/// hashing fails.
#[verifier::external_body]
fn argon2_hash(password: &str) -> (r: Option<String>)
    ensures
        r matches Some(h) ==> argon2_accepts(password@, h@),
{
    let mut bytes = [0u8; argon2::password_hash::Salt::RECOMMENDED_LENGTH];
    let mut rng = argon2::password_hash::rand_core::OsRng;
    argon2::password_hash::rand_core::RngCore::try_fill_bytes(&mut rng, &mut bytes).ok()?;
    let salt = argon2::password_hash::SaltString::encode_b64(&bytes).ok()?;
    argon2::Argon2::default().hash_password(password.as_bytes(), &salt).ok().map(|h| h.to_string())
}

/// Relies on `PasswordHash::new` and `PasswordVerifier::verify_password` of
/// argon2: whether the password matches the hash string, which depends on the
/// two texts alone.
#[verifier::external_body]
fn argon2_verify(password: &str, phc: &str) -> (r: bool)
    ensures
        r == argon2_accepts(password@, phc@),
{
    match argon2::PasswordHash::new(phc) {
        Ok(parsed) => argon2::Argon2::default().verify_password(password.as_bytes(), &parsed).is_ok(),
        Err(_) => false,
    }
}

/// Relies on `RngCore::try_fill_bytes` of rand's `OsRng`: twelve bytes from
/// the operating system's random source, or `None` where that source fails.
#[verifier::external_body]
fn random_nonce() -> (r: Option<Vec<u8>>)
    ensures
        r matches Some(n) ==> n@.len() == NONCE_LEN,
{
    let mut bytes = [0u8; NONCE_LEN];
    rand::RngCore::try_fill_bytes(&mut rand::rngs::OsRng, &mut bytes).ok()?;
    Some(bytes.to_vec())
}

/// Relies on `Aead::encrypt` of aes-gcm with `Aes256Gcm`: it refuses only a
/// plaintext over `P_MAX` bytes; the ciphertext is as long as the plaintext
/// followed by the tag; decryption under the same key and nonce gives the
/// plaintext back.
#[verifier::external_body]
fn aes_gcm_encrypt(key: &[u8], nonce: &[u8], plaintext: &str) -> (r: Option<Vec<u8>>)
    requires
        key@.len() == KEY_LEN,
        nonce@.len() == NONCE_LEN,
    ensures
        encode_utf8(plaintext@).len() <= PLAINTEXT_MAX ==> r is Some,
        r matches Some(c) ==> c@.len() == encode_utf8(plaintext@).len() + TAG_LEN,
        r matches Some(c) ==> c@ == aes_gcm_sealed(key@, nonce@, plaintext@)
            && aes_gcm_opened(key@, nonce@, c@) == Some(plaintext@),
{
    let cipher = aes_gcm::Aes256Gcm::new_from_slice(key).ok()?;
    cipher.encrypt(GenericArray::from_slice(nonce), plaintext.as_bytes()).ok()
}

/// Relies on `Aead::decrypt` of aes-gcm with `Aes256Gcm`, and on
/// `String::from_utf8` for the plaintext bytes.
#[verifier::external_body]
fn aes_gcm_decrypt(key: &[u8], nonce: &[u8], ciphertext: &[u8]) -> (r: Option<String>)
    requires
        key@.len() == KEY_LEN,
        nonce@.len() == NONCE_LEN,
    ensures
        (match r {
            Some(p) => Some(p@),
            None => None,
        }) == aes_gcm_opened(key@, nonce@, ciphertext@),
{
    let cipher = aes_gcm::Aes256Gcm::new_from_slice(key).ok()?;
    let plain = cipher.decrypt(GenericArray::from_slice(nonce), ciphertext).ok()?;
    String::from_utf8(plain).ok()
}

/// Relies on `Engine::encode` of base64 with the `STANDARD` engine, whose
/// output `decode` reads back.
#[verifier::external_body]
fn base64_encode(bytes: &[u8]) -> (r: String)
    ensures
        r@ == base64_of(bytes@),
        base64_decoded(r@) == Some(bytes@),
{
    base64::Engine::encode(&base64::engine::general_purpose::STANDARD, bytes)
}

/// Relies on `Engine::decode` of base64 with the `STANDARD` engine.
#[verifier::external_body]
fn base64_decode(text: &str) -> (r: Option<Vec<u8>>)
    ensures
        (match r {
            Some(v) => Some(v@),
            None => None,
        }) == base64_decoded(text@),
{
    base64::Engine::decode(&base64::engine::general_purpose::STANDARD, text).ok()
}

/// The stored form of `plaintext` encrypted with `key` under `nonce`: the
/// nonce followed by the ciphertext, in base64.
pub open spec fn encrypted_payload(key: Seq<u8>, nonce: Seq<u8>, plaintext: Seq<char>) -> Seq<char> {
    base64_of(nonce + aes_gcm_sealed(key, nonce, plaintext))
}

/// What decrypting `payload` with `key` gives: `None` when it is not base64,
/// too short to hold a nonce, or does not authenticate.
pub open spec fn decrypted(key: Seq<u8>, payload: Seq<char>) -> Option<Seq<char>> {
    match base64_decoded(payload) {
        Some(data) => if data.len() < NONCE_LEN {
            None
        } else {
            aes_gcm_opened(
                key,
                data.subrange(0, NONCE_LEN as int),
                data.subrange(NONCE_LEN as int, data.len() as int),
            )
        },
        None => None,
    }
}

/// A process-wide AES-256 key for reversible password storage.
pub struct PasswordCipher {
    key: Vec<u8>,
}

impl PasswordCipher {
    pub closed spec fn wf(&self) -> bool {
        self.key@.len() == KEY_LEN
    }

    pub closed spec fn key(&self) -> Seq<u8> {
        self.key@
    }

    /// A cipher from a key written as 64 hexadecimal digits.
    pub fn from_hex(key_hex: &str) -> (r: Result<PasswordCipher, String>)
        ensures
            r is Ok <==> (hex_decoded(key_hex@) matches Some(k) && k.len() == KEY_LEN),
            r matches Ok(c) ==> c.wf() && Some(c.key()) == hex_decoded(key_hex@),
    {
        match decode_hex(key_hex) {
            Some(key) => if key.len() == KEY_LEN {
                Ok(PasswordCipher { key })
            } else {
                Err(String::from_str("Encryption key must be 32 bytes (64 hex characters)"))
            },
            None => Err(String::from_str("Encryption key is not hexadecimal")),
        }
    }

    /// Encrypts under a fresh random nonce. Fails where the random source
    /// fails or the password is too long for AES-GCM.
    pub fn encrypt_password(&self, password: &str) -> (r: Result<String, String>)
        requires
            self.wf(),
        ensures
            r matches Ok(s) ==> decrypted(self.key(), s@) == Some(password@),
            r matches Ok(s) ==> base64_decoded(s@) matches Some(d) && d.len() == NONCE_LEN
                + encode_utf8(password@).len() + TAG_LEN,
            r matches Ok(s) ==> exists|n: Seq<u8>|
                n.len() == NONCE_LEN && s@ == #[trigger] encrypted_payload(self.key(), n, password@),
    {
        match random_nonce() {
            Some(nonce) => self.encrypt_with_nonce(password, nonce.as_slice()),
            None => Err(String::from_str("Random source failed")),
        }
    }

    /// Encrypts under the given nonce: the nonce followed by the ciphertext,
    /// in base64. Succeeds for every password within AES-GCM's length limit.
    pub fn encrypt_with_nonce(&self, password: &str, nonce: &[u8]) -> (r: Result<String, String>)
        requires
            self.wf(),
            nonce@.len() == NONCE_LEN,
        ensures
            encode_utf8(password@).len() <= PLAINTEXT_MAX ==> r is Ok,
            r matches Ok(s) ==> s@ == encrypted_payload(self.key(), nonce@, password@),
            r matches Ok(s) ==> decrypted(self.key(), s@) == Some(password@),
            r matches Ok(s) ==> base64_decoded(s@) matches Some(d) && d.len() == NONCE_LEN
                + encode_utf8(password@).len() + TAG_LEN,
    {
        match aes_gcm_encrypt(self.key.as_slice(), nonce, password) {
            Some(ct) => {
                let ghost n = nonce@;
                let mut ct = ct;
                let mut payload = slice_to_vec(nonce);
                payload.append(&mut ct);
                let r = base64_encode(payload.as_slice());
                assert(r@ == encrypted_payload(self.key(), n, password@));
                assert(payload@.subrange(0, NONCE_LEN as int) =~= n);
                assert(payload@.subrange(NONCE_LEN as int, payload@.len() as int) =~= aes_gcm_sealed(
                    self.key(),
                    n,
                    password@,
                ));
                Ok(r)
            },
            None => Err(String::from_str("Encryption failed")),
        }
    }

    /// Decrypts a payload that `encrypt_password` wrote. Fails, rather than
    /// returning other text, on a payload that is not base64, is too short to
    /// hold a nonce, or does not authenticate under this key.
    pub fn decrypt_password(&self, payload: &str) -> (r: Result<String, String>)
        requires
            self.wf(),
        ensures
            decrypt_outcome(self.key(), payload@, r),
    {
        let data = match base64_decode(payload) {
            Some(d) => d,
            None => {
                return Err(String::from_str("Invalid encrypted payload (not base64)"));
            },
        };
        if data.len() < NONCE_LEN {
            return Err(String::from_str("Invalid encrypted payload (too short)"));
        }
        let nonce = slice_to_vec(slice_subrange(data.as_slice(), 0, NONCE_LEN));
        let ct = slice_subrange(data.as_slice(), NONCE_LEN, data.len());
        match aes_gcm_decrypt(self.key.as_slice(), nonce.as_slice(), ct) {
            Some(p) => Ok(p),
            None => Err(String::from_str("Decryption failed")),
        }
    }
}

/// What decrypting `payload` returns: its plaintext where it decrypts, an
/// error otherwise.
pub open spec fn decrypt_outcome(key: Seq<u8>, payload: Seq<char>, r: Result<String, String>) -> bool {
    match r {
        Ok(p) => decrypted(key, payload) == Some(p@),
        Err(_) => decrypted(key, payload) is None,
    }
}

/// Decrypting what encryption wrote gives the plaintext back.
pub proof fn lemma_decrypt_encrypted(
    key: Seq<u8>,
    plaintext: Seq<char>,
    payload: Seq<char>,
    r: Result<String, String>,
)
    requires
        decrypted(key, payload) == Some(plaintext),
        decrypt_outcome(key, payload, r),
    ensures
        r matches Ok(p) && p@ == plaintext,
{
}

/// How stored password material is made and checked; one scheme is active
/// per deployment.
pub enum PasswordScheme {
    /// Argon2 PHC hashes: can only be checked.
    Argon2,
    /// AES-256-GCM payloads: can be decrypted again.
    Encrypted(PasswordCipher),
}

impl PasswordScheme {
    pub open spec fn wf(&self) -> bool {
        match self {
            PasswordScheme::Argon2 => true,
            PasswordScheme::Encrypted(c) => c.wf(),
        }
    }

    /// Whether `password` matches the stored material `secret`.
    pub open spec fn accepts(&self, password: Seq<char>, secret: Seq<char>) -> bool {
        match self {
            PasswordScheme::Argon2 => argon2_accepts(password, secret),
            PasswordScheme::Encrypted(c) => decrypted(c.key(), secret) == Some(password),
        }
    }

    /// Makes the stored material for `password`: an Argon2 hash under a
    /// fresh salt, or an encryption under a fresh nonce.
    pub fn hash_password(&self, password: &str) -> (r: Result<String, String>)
        requires
            self.wf(),
        ensures
            r matches Ok(s) ==> self.accepts(password@, s@),
            r matches Ok(s) ==> (self matches PasswordScheme::Encrypted(c) ==> exists|n: Seq<u8>|
                n.len() == NONCE_LEN && s@ == #[trigger] encrypted_payload(c.key(), n, password@)),
    {
        match self {
            PasswordScheme::Argon2 => match argon2_hash(password) {
                Some(h) => Ok(h),
                None => Err(String::from_str("Hash error")),
            },
            PasswordScheme::Encrypted(c) => c.encrypt_password(password),
        }
    }

    /// Checks `password` against stored material; an encrypted secret is
    /// compared in time that does not depend on where the texts differ.
    pub fn verify_password(&self, password: &str, secret: &str) -> (r: bool)
        requires
            self.wf(),
        ensures
            r == self.accepts(password@, secret@),
    {
        match self {
            PasswordScheme::Argon2 => argon2_verify(password, secret),
            PasswordScheme::Encrypted(c) => match c.decrypt_password(secret) {
                Ok(p) => constant_time_eq(p.as_str(), password),
                Err(_) => false,
            },
        }
    }
}

} // verus!
