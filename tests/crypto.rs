use cryptochat::account::{create_account, decrypt_data, derive_storage_key, encrypt_data, login};
use cryptochat::keys::{
    decrypt_message, encrypt_message, sign_message, verify_signature, CryptoError, EncryptedPayload, Fingerprint, KeyPair,
    Signature,
};
use cryptochat::messages::{ConversationId, DeviceId, EncryptedEnvelope, PlaintextMessage};

#[test]
fn keypair_is_deterministic_from_seed() {
    let seed = b"deterministic-seed";
    let first = KeyPair::from_seed(seed).unwrap();
    let second = KeyPair::from_seed(seed).unwrap();
    assert_eq!(first.public_key(), second.public_key());
    assert_eq!(first.private_key(), second.private_key());
    assert_eq!(first.fingerprint().as_str(), second.fingerprint().as_str());
}

#[test]
fn signatures_roundtrip() {
    let keypair = KeyPair::from_seed(b"signatures").unwrap();
    let message = b"hello secure world";
    let signature = sign_message(&keypair, message).unwrap();
    verify_signature(&keypair, message, &signature).unwrap();
}

#[test]
fn encryption_roundtrip() {
    let keypair = KeyPair::from_seed(b"encryption").unwrap();
    let payload = encrypt_message(&keypair, b"secret message").unwrap();
    let decrypted = decrypt_message(&keypair, &payload).unwrap();
    assert_eq!(decrypted, b"secret message");
}

#[test]
fn envelope_roundtrip() {
    let keypair = KeyPair::from_seed(b"test-envelope").unwrap();
    let conversation = ConversationId::new();
    let device = DeviceId::new();

    let message = PlaintextMessage::new(conversation, device, b"hello world".to_vec());
    let envelope = EncryptedEnvelope::from_plaintext(message.duplicate(), &keypair).unwrap();
    let decrypted = envelope.into_plaintext(&keypair).unwrap();

    assert_eq!(message.body, decrypted.body);
    assert_eq!(message.conversation_id, decrypted.conversation_id);
    assert_eq!(message.sender_device, decrypted.sender_device);
}

#[test]
fn seed_of_32_bytes_or_more_uses_its_prefix() {
    let long: Vec<u8> = (0u8..40).collect();
    let prefix: Vec<u8> = (0u8..32).collect();
    let a = KeyPair::from_seed(&long).unwrap();
    let b = KeyPair::from_seed(&prefix).unwrap();
    assert_eq!(a.private_key(), b.private_key());
    assert_eq!(a.private_key().len(), 64);
    assert_eq!(a.public_key().len(), 32);
}

#[test]
fn fingerprint_is_unpadded_base64_of_sha256() {
    // SHA-256 of the empty input, as unpadded standard base64.
    let fp = Fingerprint::from_public_key(b"");
    assert_eq!(fp.as_str(), "47DEQpj8HBSa+/TImW+5JCeuQeRkm5NMpJWZG3hSuFU");
    let other = Fingerprint::from_public_key(b"x");
    assert_ne!(fp.as_str(), other.as_str());
}

#[test]
fn tampered_signature_is_refused() {
    let keypair = KeyPair::from_seed(b"signatures").unwrap();
    let other = KeyPair::from_seed(b"someone else").unwrap();
    let signature = sign_message(&keypair, b"hello").unwrap();
    assert!(matches!(verify_signature(&keypair, b"hullo", &signature), Err(CryptoError::VerificationFailed)));
    assert!(matches!(verify_signature(&other, b"hello", &signature), Err(CryptoError::VerificationFailed)));
    let forged = Signature(String::from("AAAA"));
    assert!(verify_signature(&keypair, b"hello", &forged).is_err());
}

#[test]
fn ciphertext_differs_from_plaintext() {
    let keypair = KeyPair::from_seed(b"encryption").unwrap();
    let payload = encrypt_message(&keypair, b"secret message").unwrap();
    let plain = EncryptedPayload::new(&[0u8; 24], b"secret message");
    assert_ne!(payload.ciphertext, plain.ciphertext);
    let (nonce, ciphertext) = payload.decode().unwrap();
    assert_eq!(nonce.len(), 24);
    assert_eq!(ciphertext.len(), 14);
}

#[test]
fn short_nonce_is_invalid_ciphertext() {
    let keypair = KeyPair::from_seed(b"encryption").unwrap();
    let payload = EncryptedPayload::new(&[1u8; 12], b"abc");
    assert!(matches!(decrypt_message(&keypair, &payload), Err(CryptoError::InvalidCiphertext)));
    let broken = EncryptedPayload { nonce: String::from("@@@"), ciphertext: String::new() };
    assert!(matches!(decrypt_message(&keypair, &broken), Err(CryptoError::Internal(_))));
}

#[test]
fn envelope_with_wrong_key_is_refused() {
    let sender = KeyPair::from_seed(b"sender").unwrap();
    let other = KeyPair::from_seed(b"other").unwrap();
    let message = PlaintextMessage::new(ConversationId(1), DeviceId(2), b"hello".to_vec());
    let envelope = EncryptedEnvelope::from_plaintext(message, &sender).unwrap();
    assert!(envelope.into_plaintext(&other).is_err());
}

#[test]
fn account_login_returns_secret_key() {
    let account = create_account("alice", "correct horse", "SECRET-KEY-BLOCK", "PUBLIC", "FP").unwrap();
    assert_eq!(account.username, "alice");
    assert_eq!(account.public_key, "PUBLIC");
    assert_eq!(account.fingerprint, "FP");
    assert!(account.password_hash.starts_with("$argon2"));
    let secret = login("correct horse", &account).unwrap();
    assert_eq!(secret, "SECRET-KEY-BLOCK");
    assert!(matches!(login("battery staple", &account), Err(CryptoError::WrongPassword)));
}

#[test]
fn short_password_is_refused() {
    assert!(matches!(create_account("bob", "abc", "S", "P", "F"), Err(CryptoError::Internal(_))));
    assert!(create_account("bob", "abcd", "S", "P", "F").is_ok());
}

#[test]
fn two_accounts_use_independent_salts() {
    let a = create_account("alice", "password", "S", "P", "F").unwrap();
    let b = create_account("alice", "password", "S", "P", "F").unwrap();
    assert_ne!(a.key_derivation_salt, b.key_derivation_salt);
    assert_ne!(a.password_hash, b.password_hash);
}

#[test]
fn test_encrypt_decrypt_roundtrip() {
    let data = br#"[{"sender_name":"Alice","content":"Hello, world!","timestamp":"2024-01-01T12:00:00Z"}]"#;
    let key = derive_storage_key("TEST_FINGERPRINT");
    let encrypted = encrypt_data(data, &key).unwrap();
    let decrypted = decrypt_data(&encrypted, &key).unwrap();
    assert_eq!(decrypted.len(), data.len());
    assert_eq!(decrypted, data.to_vec());
}

#[test]
fn test_wrong_key_fails() {
    let data = br#"[{"sender_name":"Alice","content":"Secret message","timestamp":"2024-01-01T12:00:00Z"}]"#;
    let key1 = derive_storage_key("FINGERPRINT_1");
    let key2 = derive_storage_key("FINGERPRINT_2");
    let encrypted = encrypt_data(data, &key1).unwrap();
    let result = decrypt_data(&encrypted, &key2);
    assert!(result.is_err());
}

#[test]
fn storage_key_is_deterministic() {
    assert_eq!(derive_storage_key("FP"), derive_storage_key("FP"));
    assert_ne!(derive_storage_key("FP"), derive_storage_key("FQ"));
}

#[test]
fn short_iv_fails_to_open() {
    let key = derive_storage_key("FP");
    let mut store = encrypt_data(b"data", &key).unwrap();
    assert_eq!(store.iv.len(), 12);
    store.iv.pop();
    assert!(matches!(decrypt_data(&store, &key), Err(CryptoError::DecryptionFailed)));
}
