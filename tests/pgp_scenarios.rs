use cryptochat::keys::CryptoError;
use cryptochat::messages::{encode_plaintext, ConversationId, DeviceId, PgpEnvelope, PlaintextMessage};
use cryptochat::onboarding::{KeyBundle, KeyExchangeRequest};
use cryptochat::pipeline::{signature_check, unwrap_envelope, MessagePipeline, PipelineConfig, PipelineError, ReceiptStatus, TransportEnvelope};
use sequoia_openpgp as openpgp;
use openpgp::cert::{CertBuilder, CipherSuite};
use openpgp::parse::stream::{DecryptionHelper, DecryptorBuilder, MessageLayer, MessageStructure, VerificationHelper};
use openpgp::parse::Parse;
use openpgp::policy::StandardPolicy;
use openpgp::serialize::SerializeInto;
use openpgp::{Cert, KeyHandle};
use std::io;

fn generate(user_id: &str) -> Cert {
    CertBuilder::new()
        .add_userid(user_id)
        .add_signing_subkey()
        .add_transport_encryption_subkey()
        .set_cipher_suite(CipherSuite::Cv25519)
        .generate()
        .unwrap()
        .0
}

fn encrypt_and_sign(sender: &Cert, recipient: &Cert, plaintext: &[u8]) -> Vec<u8> {
    cryptochat::pgp::encrypt_and_sign(sender, recipient, plaintext).unwrap()
}

struct Helper<'a> {
    recipient: &'a Cert,
    sender: &'a Cert,
}

impl<'a> VerificationHelper for Helper<'a> {
    fn get_certs(&mut self, _ids: &[KeyHandle]) -> openpgp::Result<Vec<Cert>> {
        Ok(vec![self.sender.clone()])
    }

    fn check(&mut self, structure: MessageStructure) -> openpgp::Result<()> {
        let groups: Vec<Vec<bool>> = structure
            .into_iter()
            .filter_map(|layer| match layer {
                MessageLayer::SignatureGroup { results } => Some(results.iter().map(|r| r.is_ok()).collect()),
                _ => None,
            })
            .collect();
        if signature_check(&groups) {
            Ok(())
        } else {
            Err(openpgp::Error::InvalidOperation("no valid signatures found".to_string()).into())
        }
    }
}

impl<'a> DecryptionHelper for Helper<'a> {
    fn decrypt<D>(
        &mut self,
        pkesks: &[openpgp::packet::PKESK],
        _skesks: &[openpgp::packet::SKESK],
        sym_algo: Option<openpgp::types::SymmetricAlgorithm>,
        mut decrypt: D,
    ) -> openpgp::Result<Option<openpgp::Fingerprint>>
    where
        D: FnMut(openpgp::types::SymmetricAlgorithm, &openpgp::crypto::SessionKey) -> bool,
    {
        let p = StandardPolicy::new();
        for key in self.recipient.keys().with_policy(&p, None).for_transport_encryption().secret() {
            let mut keypair = key.key().clone().into_keypair()?;
            for pkesk in pkesks {
                if let Some((algo, sk)) = pkesk.decrypt(&mut keypair, sym_algo) {
                    if decrypt(algo, &sk) {
                        return Ok(Some(key.fingerprint()));
                    }
                }
            }
        }
        Err(openpgp::Error::InvalidOperation("decryption failed".to_string()).into())
    }
}

fn decrypt_and_verify(recipient: &Cert, sender: &Cert, ciphertext: &[u8]) -> Result<Vec<u8>, CryptoError> {
    let p = StandardPolicy::new();
    let helper = Helper { recipient, sender };
    let mut decryptor = DecryptorBuilder::from_bytes(ciphertext)
        .map_err(|_| CryptoError::DecryptionFailed)?
        .with_policy(&p, None, helper)
        .map_err(|_| CryptoError::VerificationFailed)?;
    let mut out = Vec::new();
    io::copy(&mut decryptor, &mut out).map_err(|_| CryptoError::VerificationFailed)?;
    Ok(out)
}

fn wrap(message: &PlaintextMessage, sender: &Cert, recipient: &Cert) -> TransportEnvelope {
    cryptochat::pgp::wrap(message, sender, sender.fingerprint().to_hex(), recipient, DeviceId(2)).unwrap()
}

fn unwrap(envelope: &TransportEnvelope, recipient: &Cert, sender: &Cert) -> Result<PlaintextMessage, PipelineError> {
    let ciphertext = envelope.pgp_envelope.ciphertext().unwrap();
    unwrap_envelope(envelope, decrypt_and_verify(recipient, sender, &ciphertext))
}

fn hi() -> PlaintextMessage {
    PlaintextMessage::new(ConversationId::new(), DeviceId(1), b"hi".to_vec())
}

#[test]
fn alice_sends_hi_to_bob() {
    let alice = generate("alice@example.com");
    let bob = generate("bob@example.com");
    let message = hi();
    let envelope = wrap(&message, &alice, &bob);
    let mut pipeline = MessagePipeline::new(PipelineConfig::default(), DeviceId(2));
    pipeline.set_keypair(bob.fingerprint().to_hex());
    let ciphertext = envelope.pgp_envelope.ciphertext().unwrap();
    let opened = pipeline.receive_envelope(&envelope, decrypt_and_verify(&bob, &alice, &ciphertext)).unwrap();
    assert_eq!(opened.body, vec![0x68, 0x69]);
    assert_eq!(opened.message_id, message.message_id);
    assert_eq!(opened.conversation_id, message.conversation_id);
    assert_eq!(opened.created_ms, message.created_ms);
    let receipts = pipeline.get_receipts(message.message_id);
    assert_eq!(receipts.len(), 1);
    assert_eq!(receipts[0].status, ReceiptStatus::Delivered);
}

#[test]
fn another_sender_certificate_fails_verification() {
    let alice = generate("alice@example.com");
    let bob = generate("bob@example.com");
    let eve = generate("eve@example.com");
    let envelope = wrap(&hi(), &alice, &bob);
    assert!(matches!(unwrap(&envelope, &bob, &eve), Err(PipelineError::Crypto(CryptoError::VerificationFailed))));
}

#[test]
fn flipped_payload_byte_fails() {
    let alice = generate("alice@example.com");
    let bob = generate("bob@example.com");
    let mut envelope = wrap(&hi(), &alice, &bob);
    let mut ciphertext = envelope.pgp_envelope.ciphertext().unwrap();
    let middle = ciphertext.len() / 2;
    ciphertext[middle] ^= 0x01;
    let tampered = PgpEnvelope::from_ciphertext(&hi(), envelope.pgp_envelope.sender_fingerprint.clone(), &ciphertext);
    envelope.pgp_envelope.encrypted_payload = tampered.encrypted_payload;
    let result = unwrap(&envelope, &bob, &alice);
    assert!(matches!(
        result,
        Err(PipelineError::Crypto(CryptoError::VerificationFailed)) | Err(PipelineError::Crypto(CryptoError::DecryptionFailed))
    ));
}

#[test]
fn claimed_fingerprint_does_not_choose_the_certificate() {
    let f1 = generate("f1@example.com");
    let f2 = generate("f2@example.com");
    let bob = generate("bob@example.com");
    let mut envelope = wrap(&hi(), &f2, &bob);
    envelope.pgp_envelope.sender_fingerprint = f1.fingerprint().to_hex();
    assert!(unwrap(&envelope, &bob, &f1).is_err());
    assert!(unwrap(&envelope, &bob, &f2).is_ok());
}

#[test]
fn swapped_header_fails_even_with_valid_crypto() {
    let alice = generate("alice@example.com");
    let bob = generate("bob@example.com");
    let mut envelope = wrap(&hi(), &alice, &bob);
    envelope.message_id ^= 1;
    assert!(matches!(unwrap(&envelope, &bob, &alice), Err(PipelineError::InvalidEnvelope(_))));
}

#[test]
fn pgp_envelope_into_plaintext_round_trip_and_tamper() {
    let alice = generate("alice@example.com");
    let bob = generate("bob@example.com");
    let message = hi();
    let ciphertext = encrypt_and_sign(&alice, &bob, &encode_plaintext(&message));
    let sealed = cryptochat::pipeline::seal_envelope(&message, alice.fingerprint().to_hex(), &ciphertext, DeviceId(2));
    let pgp = sealed.pgp_envelope;
    let c = pgp.ciphertext().unwrap();
    let opened = pgp.into_plaintext(decrypt_and_verify(&bob, &alice, &c)).unwrap();
    assert_eq!(opened.body, message.body);
    assert_eq!(opened.message_id, message.message_id);
    assert_eq!(opened.sender_device, message.sender_device);
    let mut tampered = pgp;
    tampered.message_id ^= 1;
    assert!(matches!(
        tampered.into_plaintext(decrypt_and_verify(&bob, &alice, &c)),
        Err(PipelineError::InvalidEnvelope(_))
    ));
    let eve = generate("eve@example.com");
    assert!(matches!(
        tampered.into_plaintext(decrypt_and_verify(&bob, &eve, &c)),
        Err(PipelineError::Crypto(CryptoError::VerificationFailed))
    ));
}

fn armored_public_key(cert: &Cert) -> String {
    String::from_utf8(cert.armored().to_vec().unwrap()).unwrap()
}

#[test]
fn test_key_exchange_request_creation() {
    let keypair = generate("alice@example.com");
    let request = KeyExchangeRequest::new("alice@example.com".to_string(), DeviceId::new(), armored_public_key(&keypair));
    assert!(!request.public_key_armored.is_empty());
    assert!(request.public_key_armored.contains("BEGIN PGP PUBLIC KEY BLOCK"));
}

#[test]
fn test_key_bundle_creation_and_verification() {
    let keypair = generate("bob@example.com");
    let bundle = KeyBundle::new("bob@example.com".to_string(), DeviceId::new(), armored_public_key(&keypair), keypair.fingerprint().to_hex());
    assert_eq!(bundle.fingerprint, keypair.fingerprint().to_hex());
    let imported = Cert::from_bytes(bundle.public_key_armored.as_bytes()).unwrap();
    assert!(bundle.fingerprint_matches(&imported.fingerprint().to_hex()));
}

#[test]
fn test_key_bundle_import() {
    let keypair = generate("charlie@example.com");
    let bundle = KeyBundle::new("charlie@example.com".to_string(), DeviceId::new(), armored_public_key(&keypair), keypair.fingerprint().to_hex());
    let imported = Cert::from_bytes(bundle.public_key_armored.as_bytes()).unwrap();
    assert_eq!(imported.fingerprint().to_hex(), keypair.fingerprint().to_hex());
}

#[test]
fn signing_and_encryption_need_usable_subkeys() {
    let bob = generate("bob@example.com");
    let public_only = Cert::from_bytes(armored_public_key(&bob).as_bytes()).unwrap();
    assert!(matches!(cryptochat::pgp::sign(&public_only, b"x"), Err(CryptoError::InvalidCert)));
    assert!(cryptochat::pgp::sign(&bob, b"x").is_ok());
    assert!(cryptochat::pgp::encrypt(&public_only, b"x").is_ok());
    let ciphertext = cryptochat::pgp::encrypt(&bob, b"secret").unwrap();
    assert_ne!(ciphertext, b"secret".to_vec());
}
