//! Password-protected account records and sealed local storage.
//!
//! The account keeps the exported secret key sealed with AES-256-GCM under a
//! key derived from the password by Argon2; local history is sealed under a
//! key derived from the owner's fingerprint by PBKDF2-HMAC-SHA256.

use vstd::prelude::*;
use aes_gcm::aead::Aead;
use aes_gcm::KeyInit;
use argon2::PasswordHasher;
use argon2::PasswordVerifier;
use crate::keys::{random_bytes, CryptoError};
use crate::messages::{b64_decode, b64_encode, b64_of};
use vstd::utf8::{encode_utf8, valid_utf8};
use vstd::string::StringSliceAdditionalSpecFns;

verus! {

/// Smallest accepted password length, in bytes.
pub const MIN_PASSWORD_LEN: usize = 4;

/// Error text for a password shorter than [`MIN_PASSWORD_LEN`].
pub const SHORT_PASSWORD_TEXT: &'static str = "Password must be at least 4 characters";

/// Length of the salt of the key derivation, in bytes.
pub const KEY_SALT_LEN: usize = 16;

/// Length of an AES-GCM nonce, in bytes.
pub const NONCE_LEN: usize = 12;

/// Salt of the storage key derivation: fixed, since the secret is the fingerprint.
pub const STORAGE_SALT: &'static str = "CryptoChat_Storage_Salt_v1";

/// Iteration count of the storage key derivation.
pub const STORAGE_KDF_ROUNDS: u32 = 100_000;

/// Whether an Argon2 PHC string verifies a password.
pub uninterp spec fn argon2_verifies(password: Seq<u8>, phc: Seq<char>) -> bool;

/// The 32-byte key that Argon2 (default parameters) derives from a password and a salt.
pub uninterp spec fn argon2_key(password: Seq<u8>, salt: Seq<u8>) -> Seq<u8>;

/// AES-256-GCM ciphertext (with its tag) of a plaintext under a key and a nonce.
pub uninterp spec fn aes_gcm_sealed(key: Seq<u8>, nonce: Seq<u8>, plaintext: Seq<u8>) -> Seq<u8>;

/// The 32-byte key that PBKDF2-HMAC-SHA256 derives from a password, a salt and a round count.
pub uninterp spec fn pbkdf2_sha256_key(password: Seq<u8>, salt: Seq<u8>, rounds: u32) -> Seq<u8>;

/// Relies on argon2's `PasswordHasher::hash_password` with a fresh random
/// salt: the PHC string it returns verifies the password it was made from,
/// and it fails only for a password longer than 2^32 - 1 bytes.
#[verifier::external_body]
fn argon2_hash(password: &[u8]) -> (r: Option<String>)
    ensures
        r is Some ==> argon2_verifies(password@, r->0@),
        password@.len() <= 0xFFFF_FFFF ==> r is Some,
{
    let salt = argon2::password_hash::SaltString::generate(&mut rand::rngs::OsRng);
    argon2::Argon2::default().hash_password(password, &salt).ok().map(|h| h.to_string())
}

/// Relies on argon2's `PasswordHash::new` and `PasswordVerifier::verify_password`.
#[verifier::external_body]
fn argon2_check(password: &[u8], phc: &str) -> (r: bool)
    ensures
        r == argon2_verifies(password@, phc@),
{
    match argon2::PasswordHash::new(phc) {
        Ok(parsed) => argon2::Argon2::default().verify_password(password, &parsed).is_ok(),
        Err(_) => false,
    }
}

/// Relies on argon2's `Argon2::hash_password_into` (default parameters,
/// 32-byte output), which fails only for a salt shorter than 8 bytes or an
/// input longer than 2^32 - 1 bytes.
#[verifier::external_body]
fn argon2_derive(password: &[u8], salt: &[u8]) -> (r: Option<[u8; 32]>)
    ensures
        r is Some ==> r->0@ == argon2_key(password@, salt@),
        8 <= salt@.len() <= 0xFFFF_FFFF && password@.len() <= 0xFFFF_FFFF ==> r is Some,
{
    let mut key = [0u8; 32];
    argon2::Argon2::default().hash_password_into(password, salt, &mut key).ok().map(|_| key)
}

/// Relies on aes-gcm's `Aes256Gcm::encrypt`, which fails only for a
/// plaintext longer than 2^36 bytes.
#[verifier::external_body]
fn aes_seal(key: &[u8; 32], nonce: &[u8; 12], plaintext: &[u8]) -> (r: Option<Vec<u8>>)
    ensures
        r is Some ==> r->0@ == aes_gcm_sealed(key@, nonce@, plaintext@),
        plaintext@.len() <= 0x10_0000_0000 ==> r is Some,
{
    let cipher = aes_gcm::Aes256Gcm::new(key.into());
    cipher.encrypt(nonce.into(), plaintext).ok()
}

/// Relies on aes-gcm's `Aes256Gcm::decrypt`, which opens what `encrypt`
/// sealed under the same key and nonce, and opens nothing else: the tag is
/// checked, and the plaintext it gives back seals to the same ciphertext.
#[verifier::external_body]
fn aes_open(key: &[u8; 32], nonce: &[u8; 12], ciphertext: &[u8]) -> (r: Option<Vec<u8>>)
    ensures
        forall|p: Seq<u8>| #[trigger] aes_gcm_sealed(key@, nonce@, p) == ciphertext@ ==> (r is Some && r->0@ == p),
        r is Some ==> aes_gcm_sealed(key@, nonce@, r->0@) == ciphertext@,
{
    let cipher = aes_gcm::Aes256Gcm::new(key.into());
    cipher.decrypt(nonce.into(), ciphertext).ok()
}

/// Relies on pbkdf2's `pbkdf2_hmac::<Sha256>` with a 32-byte output.
#[verifier::external_body]
fn pbkdf2_sha256(password: &[u8], salt: &[u8], rounds: u32) -> (r: [u8; 32])
    ensures
        r@ == pbkdf2_sha256_key(password@, salt@, rounds),
{
    let mut key = [0u8; 32];
    pbkdf2::pbkdf2_hmac::<sha2::Sha256>(password, salt, rounds, &mut key);
    key
}

/// Relies on `String::from_utf8`, which succeeds exactly on valid UTF-8.
#[verifier::external_body]
fn utf8_text(bytes: Vec<u8>) -> (r: Option<String>)
    ensures
        r is Some <==> valid_utf8(bytes@),
        r is Some ==> encode_utf8(r->0@) == bytes@,
{
    String::from_utf8(bytes).ok()
}

fn array12(v: &Vec<u8>) -> (r: Option<[u8; 12]>)
    ensures
        r is Some <==> v@.len() == 12,
        r is Some ==> r->0@ == v@,
{
    if v.len() != 12 {
        return None;
    }
    let mut a = [0u8; 12];
    let mut i: usize = 0;
    while i < 12
        invariant
            0 <= i <= 12,
            v@.len() == 12,
            forall|j: int| 0 <= j < i ==> a[j] == v@[j],
        decreases 12 - i,
    {
        a[i] = v[i];
        i = i + 1;
    }
    assert(a@ =~= v@);
    Some(a)
}

/// An account record: the password hash, and the secret key sealed under a
/// key derived from the password.
#[derive(Debug)]
pub struct Account {
    pub username: String,
    /// Argon2 PHC string.
    pub password_hash: String,
    /// Sealed secret key, as base64.
    pub encrypted_secret_key: String,
    /// Public key (armored), kept in the clear for key exchange.
    pub public_key: String,
    pub fingerprint: String,
    /// Nonce of the sealing, as base64.
    pub encryption_nonce: String,
    /// Salt of the key derivation, as base64; independent of the hash's own salt.
    pub key_derivation_salt: String,
}

/// The account seals `secret_key` under `password`: its fields carry the
/// base64 of a salt, a nonce and the sealed key that these determine.
pub open spec fn seals_secret(account: &Account, password: Seq<u8>, secret_key: Seq<char>) -> bool {
    exists|salt: Seq<u8>, nonce: Seq<u8>| {
        &&& salt.len() == KEY_SALT_LEN
        &&& nonce.len() == NONCE_LEN
        &&& #[trigger] b64_of(salt) == account.key_derivation_salt@
        &&& #[trigger] b64_of(nonce) == account.encryption_nonce@
        &&& account.encrypted_secret_key@ == b64_of(aes_gcm_sealed(argon2_key(password, salt), nonce, encode_utf8(secret_key)))
    }
}

/// What [`create_account`] returns.
pub open spec fn created_account(
    username: Seq<char>,
    password: Seq<u8>,
    secret_key: Seq<char>,
    public_key: Seq<char>,
    fingerprint: Seq<char>,
    r: Result<Account, CryptoError>,
) -> bool {
    &&& password.len() < MIN_PASSWORD_LEN ==> r is Err && (r->Err_0 matches CryptoError::Internal(m) && m@ == SHORT_PASSWORD_TEXT@)
    &&& MIN_PASSWORD_LEN <= password.len() <= 0xFFFF_FFFF && encode_utf8(secret_key).len() <= 0x10_0000_0000 ==> r is Ok
    &&& r is Ok ==> {
        &&& password.len() >= MIN_PASSWORD_LEN
        &&& r->Ok_0.username@ == username
        &&& r->Ok_0.public_key@ == public_key
        &&& r->Ok_0.fingerprint@ == fingerprint
        &&& argon2_verifies(password, r->Ok_0.password_hash@)
        &&& seals_secret(&r->Ok_0, password, secret_key)
    }
    &&& r is Err ==> r->Err_0 is Internal
}

/// Creates an account: checks the password length, hashes the password,
/// and seals the secret key under a key derived from the password and a
/// fresh 16-byte salt, with a fresh 12-byte nonce. Writing the record is
/// left to the caller.
pub fn create_account(username: &str, password: &str, secret_key: &str, public_key: &str, fingerprint: &str) -> (r: Result<Account, CryptoError>)
    ensures
        created_account(username@, password.spec_bytes(), secret_key@, public_key@, fingerprint@, r),
{
    let pw = password.as_bytes();
    if pw.len() < MIN_PASSWORD_LEN {
        return Err(CryptoError::Internal(String::from_str(SHORT_PASSWORD_TEXT)));
    }
    let password_hash = match argon2_hash(pw) {
        Some(h) => h,
        None => { return Err(CryptoError::Internal(String::from_str("Hash failed"))); },
    };
    let salt = random_bytes(KEY_SALT_LEN);
    let key = match argon2_derive(pw, salt.as_slice()) {
        Some(k) => k,
        None => { return Err(CryptoError::Internal(String::from_str("Key derivation failed"))); },
    };
    let nonce_vec = random_bytes(NONCE_LEN);
    let nonce = match array12(&nonce_vec) {
        Some(n) => n,
        None => { return Err(CryptoError::Internal(String::from_str("nonce generation failed"))); },
    };
    let sealed = match aes_seal(&key, &nonce, secret_key.as_bytes()) {
        Some(c) => c,
        None => { return Err(CryptoError::Internal(String::from_str("Encryption failed"))); },
    };
    let account = Account {
        username: String::from_str(username),
        password_hash,
        encrypted_secret_key: b64_encode(sealed.as_slice()),
        public_key: String::from_str(public_key),
        fingerprint: String::from_str(fingerprint),
        encryption_nonce: b64_encode(nonce_vec.as_slice()),
        key_derivation_salt: b64_encode(salt.as_slice()),
    };
    proof {
        assert(b64_of(salt@) == account.key_derivation_salt@ && b64_of(nonce_vec@) == account.encryption_nonce@);
    }
    Ok(account)
}

/// What [`login`] returns.
pub open spec fn logged_in(password: Seq<u8>, account: &Account, r: Result<String, CryptoError>) -> bool {
    &&& !argon2_verifies(password, account.password_hash@) ==> r is Err && r->Err_0 is WrongPassword
    &&& r is Ok ==> argon2_verifies(password, account.password_hash@)
    &&& argon2_verifies(password, account.password_hash@) && password.len() <= 0xFFFF_FFFF ==> forall|secret: Seq<char>|
        #[trigger] seals_secret(account, password, secret) ==> r is Ok && r->Ok_0@ == secret
}

/// Logs in: verifies the password against the stored hash (a mismatch is
/// `WrongPassword`), re-derives the sealing key and opens the secret key.
pub fn login(password: &str, account: &Account) -> (r: Result<String, CryptoError>)
    ensures
        logged_in(password.spec_bytes(), account, r),
{
    let pw = password.as_bytes();
    if !argon2_check(pw, account.password_hash.as_str()) {
        return Err(CryptoError::WrongPassword);
    }
    let ciphertext = match b64_decode(account.encrypted_secret_key.as_str()) {
        Some(c) => c,
        None => { return Err(CryptoError::Internal(String::from_str("Invalid encrypted data"))); },
    };
    let nonce_vec = match b64_decode(account.encryption_nonce.as_str()) {
        Some(n) => n,
        None => { return Err(CryptoError::Internal(String::from_str("Invalid nonce"))); },
    };
    let salt = match b64_decode(account.key_derivation_salt.as_str()) {
        Some(s) => s,
        None => { return Err(CryptoError::Internal(String::from_str("Invalid salt"))); },
    };
    let nonce = match array12(&nonce_vec) {
        Some(n) => n,
        None => { return Err(CryptoError::Internal(String::from_str("Invalid nonce"))); },
    };
    let key = match argon2_derive(pw, salt.as_slice()) {
        Some(k) => k,
        None => { return Err(CryptoError::Internal(String::from_str("Key derivation failed"))); },
    };
    let plaintext = match aes_open(&key, &nonce, ciphertext.as_slice()) {
        Some(p) => p,
        None => { return Err(CryptoError::WrongPassword); },
    };
    let ghost pt = plaintext@;
    match utf8_text(plaintext) {
        Some(text) => {
            proof {
                assert forall|secret: Seq<char>| #[trigger] seals_secret(account, pw@, secret) implies text@ == secret by {
                    let (s, n) = choose|s: Seq<u8>, n: Seq<u8>| {
                        &&& s.len() == KEY_SALT_LEN
                        &&& n.len() == NONCE_LEN
                        &&& #[trigger] b64_of(s) == account.key_derivation_salt@
                        &&& #[trigger] b64_of(n) == account.encryption_nonce@
                        &&& account.encrypted_secret_key@ == b64_of(aes_gcm_sealed(argon2_key(pw@, s), n, encode_utf8(secret)))
                    };
                    assert(encode_utf8(text@) == encode_utf8(secret));
                    vstd::utf8::encode_utf8_decode_utf8(text@);
                    vstd::utf8::encode_utf8_decode_utf8(secret);
                }
            }
            Ok(text)
        },
        None => {
            proof {
                assert forall|secret: Seq<char>| #[trigger] seals_secret(account, pw@, secret) implies false by {
                    let (s, n) = choose|s: Seq<u8>, n: Seq<u8>| {
                        &&& s.len() == KEY_SALT_LEN
                        &&& n.len() == NONCE_LEN
                        &&& #[trigger] b64_of(s) == account.key_derivation_salt@
                        &&& #[trigger] b64_of(n) == account.encryption_nonce@
                        &&& account.encrypted_secret_key@ == b64_of(aes_gcm_sealed(argon2_key(pw@, s), n, encode_utf8(secret)))
                    };
                    vstd::utf8::encode_utf8_valid_utf8(secret);
                }
            }
            Err(CryptoError::Internal(String::from_str("Invalid UTF-8 in decrypted key")))
        },
    }
}

/// Logging in with the password an account was created with returns the
/// secret key it was created with.
pub proof fn lemma_login_round_trip(
    username: Seq<char>,
    password: Seq<u8>,
    secret_key: Seq<char>,
    public_key: Seq<char>,
    fingerprint: Seq<char>,
    created: Result<Account, CryptoError>,
    r: Result<String, CryptoError>,
)
    requires
        created_account(username, password, secret_key, public_key, fingerprint, created),
        created is Ok,
        password.len() <= 0xFFFF_FFFF,
        logged_in(password, &created->Ok_0, r),
    ensures
        r is Ok,
        r->Ok_0@ == secret_key,
{
    assert(seals_secret(&created->Ok_0, password, secret_key));
}

/// A message kept in the sealed chat history.
#[derive(Debug)]
pub struct StoredMessage {
    pub sender_name: String,
    pub content: String,
    pub timestamp: String,
    pub is_mine: bool,
    /// When the message disappears (RFC 3339), if ever.
    pub expires_at: Option<String>,
    /// Image bytes, as base64, for an image message.
    pub image_data: Option<String>,
    pub image_filename: Option<String>,
    /// Custom emotes used, as `(name, hash)`.
    pub emotes: Vec<(String, String)>,
}

/// Sealed local storage: a 12-byte IV and the AES-256-GCM ciphertext.
#[derive(Debug)]
pub struct EncryptedStore {
    pub iv: Vec<u8>,
    pub ciphertext: Vec<u8>,
}

/// Derives the storage key of an identity from its fingerprint.
pub fn derive_storage_key(fingerprint: &str) -> (r: [u8; 32])
    ensures
        r@ == pbkdf2_sha256_key(fingerprint.spec_bytes(), STORAGE_SALT.spec_bytes(), STORAGE_KDF_ROUNDS),
{
    pbkdf2_sha256(fingerprint.as_bytes(), STORAGE_SALT.as_bytes(), STORAGE_KDF_ROUNDS)
}

/// Seals serialized data under a storage key with a fresh IV.
pub fn encrypt_data(data: &[u8], storage_key: &[u8; 32]) -> (r: Result<EncryptedStore, CryptoError>)
    ensures
        r is Ok ==> r->Ok_0.iv@.len() == NONCE_LEN
            && r->Ok_0.ciphertext@ == aes_gcm_sealed(storage_key@, r->Ok_0.iv@, data@),
        data@.len() <= 0x10_0000_0000 ==> r is Ok,
        r is Err ==> r->Err_0 is Internal,
{
    let iv_vec = random_bytes(NONCE_LEN);
    let iv = match array12(&iv_vec) {
        Some(n) => n,
        None => { return Err(CryptoError::Internal(String::from_str("IV generation failed"))); },
    };
    match aes_seal(storage_key, &iv, data) {
        Some(ciphertext) => Ok(EncryptedStore { iv: iv_vec, ciphertext }),
        None => Err(CryptoError::Internal(String::from_str("Encryption failed"))),
    }
}

/// Opens sealed storage. An IV that is not 12 bytes long, or a ciphertext
/// that does not open under the key, is `DecryptionFailed`.
pub fn decrypt_data(store: &EncryptedStore, storage_key: &[u8; 32]) -> (r: Result<Vec<u8>, CryptoError>)
    ensures
        store.iv@.len() != NONCE_LEN ==> r is Err,
        r is Err ==> r->Err_0 is DecryptionFailed,
        forall|p: Seq<u8>| store.iv@.len() == NONCE_LEN && #[trigger] aes_gcm_sealed(storage_key@, store.iv@, p) == store.ciphertext@
            ==> r is Ok && r->Ok_0@ == p,
        r is Ok ==> aes_gcm_sealed(storage_key@, store.iv@, r->Ok_0@) == store.ciphertext@,
{
    let iv = match array12(&store.iv) {
        Some(n) => n,
        None => { return Err(CryptoError::DecryptionFailed); },
    };
    match aes_open(storage_key, &iv, store.ciphertext.as_slice()) {
        Some(p) => Ok(p),
        None => Err(CryptoError::DecryptionFailed),
    }
}

/// Opening sealed storage with the key it was sealed under gives the data back.
pub proof fn lemma_storage_round_trip(data: Seq<u8>, key: [u8; 32], store: &EncryptedStore, opened: Result<Vec<u8>, CryptoError>)
    requires
        store.iv@.len() == NONCE_LEN,
        store.ciphertext@ == aes_gcm_sealed(key@, store.iv@, data),
        forall|p: Seq<u8>| store.iv@.len() == NONCE_LEN && #[trigger] aes_gcm_sealed(key@, store.iv@, p) == store.ciphertext@
            ==> opened is Ok && opened->Ok_0@ == p,
    ensures
        opened is Ok,
        opened->Ok_0@ == data,
{
}

} // verus!
