//! OpenPGP protection of outbound messages: encryption to a recipient's
//! transport-encryption subkeys, signing with the sender's signing subkey,
//! and sealing a message into a transport envelope.
//!
//! The ciphertext depends on a fresh session key, so nothing is stated of
//! its bytes; decrypting and verifying runs through Sequoia's helper traits
//! outside this library and is handed to [`crate::pipeline::open_frame`].

use vstd::prelude::*;
use sequoia_openpgp::Cert;
use std::io::Write;
use sequoia_openpgp::policy::StandardPolicy;
use sequoia_openpgp::serialize::stream::{Encryptor2, LiteralWriter, Message, Signer};
use crate::keys::CryptoError;
use crate::messages::{b64_of, encode_plaintext, PlaintextMessage, DeviceId};
use crate::pipeline::{header_of, lemma_open_round_trip, opened, pgp_header, seal_envelope, transport_header, PipelineError, TransportEnvelope};

verus! {

/// An OpenPGP certificate (public key material, with secret keys when it
/// is the local identity).
#[verifier::external_type_specification]
#[verifier::external_body]
pub struct ExCert(Cert);

/// Relies on Sequoia's key selection (`keys().with_policy(..)` under the
/// standard policy, now): whether the certificate has a usable
/// transport-encryption subkey.
#[verifier::external_body]
fn pgp_has_encryption_key(cert: &Cert) -> (r: bool) {
    let p = StandardPolicy::new();
    cert.keys().with_policy(&p, None).supported().alive().revoked(false).for_transport_encryption().next().is_some()
}

/// Relies on Sequoia's key selection under the standard policy, now:
/// whether the certificate has a usable signing subkey with secret material.
#[verifier::external_body]
fn pgp_has_signing_key(cert: &Cert) -> (r: bool) {
    let p = StandardPolicy::new();
    cert.keys().with_policy(&p, None).supported().alive().revoked(false).for_signing().secret().next().is_some()
}

/// Relies on Sequoia's `Encryptor2` over a `LiteralWriter`: the message as a
/// literal data packet, encrypted to the recipient's usable
/// transport-encryption subkeys.
#[verifier::external_body]
fn pgp_encrypt_literal(recipient: &Cert, plaintext: &[u8]) -> (r: Option<Vec<u8>>) {
    let p = StandardPolicy::new();
    let keys = recipient.keys().with_policy(&p, None).supported().alive().revoked(false).for_transport_encryption();
    let mut sink = Vec::new();
    let m = Encryptor2::for_recipients(Message::new(&mut sink), keys).build().ok()?;
    let mut m = LiteralWriter::new(m).build().ok()?;
    m.write_all(plaintext).ok()?;
    m.finalize().ok()?;
    Some(sink)
}

/// Relies on Sequoia's `Encryptor2`: OpenPGP packets, written as they are,
/// encrypted to the recipient's usable transport-encryption subkeys.
#[verifier::external_body]
fn pgp_encrypt_packets(recipient: &Cert, packets: &[u8]) -> (r: Option<Vec<u8>>) {
    let p = StandardPolicy::new();
    let keys = recipient.keys().with_policy(&p, None).supported().alive().revoked(false).for_transport_encryption();
    let mut sink = Vec::new();
    let mut m = Encryptor2::for_recipients(Message::new(&mut sink), keys).build().ok()?;
    m.write_all(packets).ok()?;
    m.finalize().ok()?;
    Some(sink)
}

/// Relies on Sequoia's `Signer` over a `LiteralWriter`, with the signer's
/// first usable secret signing subkey: the message as a signed message
/// (one-pass signature, literal data, signature).
#[verifier::external_body]
fn pgp_sign_inline(signer: &Cert, plaintext: &[u8]) -> (r: Option<Vec<u8>>) {
    let p = StandardPolicy::new();
    let key = signer.keys().with_policy(&p, None).supported().alive().revoked(false).for_signing().secret().next()?;
    let mut sink = Vec::new();
    let m = Signer::new(Message::new(&mut sink), key.key().clone().into_keypair().ok()?).build().ok()?;
    let mut m = LiteralWriter::new(m).build().ok()?;
    m.write_all(plaintext).ok()?;
    m.finalize().ok()?;
    Some(sink)
}

/// Relies on Sequoia's `Signer` in detached mode, with the signer's first
/// usable secret signing subkey: a signature over the message.
#[verifier::external_body]
fn pgp_detached_sign(signer: &Cert, message: &[u8]) -> (r: Option<Vec<u8>>) {
    let p = StandardPolicy::new();
    let key = signer.keys().with_policy(&p, None).supported().alive().revoked(false).for_signing().secret().next()?;
    let mut sink = Vec::new();
    let mut m = Signer::new(Message::new(&mut sink), key.key().clone().into_keypair().ok()?).detached().build().ok()?;
    m.write_all(message).ok()?;
    m.finalize().ok()?;
    Some(sink)
}

/// Encrypts a message to a recipient's certificate. A certificate with no
/// usable transport-encryption subkey is `InvalidCert`.
pub fn encrypt(recipient: &Cert, plaintext: &[u8]) -> (r: Result<Vec<u8>, CryptoError>)
    ensures
        r is Err ==> (r->Err_0 is InvalidCert || r->Err_0 is Internal),
{
    if !pgp_has_encryption_key(recipient) {
        return Err(CryptoError::InvalidCert);
    }
    match pgp_encrypt_literal(recipient, plaintext) {
        Some(c) => Ok(c),
        None => Err(CryptoError::Internal(String::from_str("encryption failed"))),
    }
}

/// Signs a message with the sender's signing subkey, then encrypts the
/// signed message to the recipient. A recipient with no usable
/// transport-encryption subkey, or a sender with no usable secret signing
/// subkey, is `InvalidCert`.
pub fn encrypt_and_sign(sender: &Cert, recipient: &Cert, plaintext: &[u8]) -> (r: Result<Vec<u8>, CryptoError>)
    ensures
        r is Err ==> (r->Err_0 is InvalidCert || r->Err_0 is Internal),
{
    if !pgp_has_encryption_key(recipient) || !pgp_has_signing_key(sender) {
        return Err(CryptoError::InvalidCert);
    }
    let signed = match pgp_sign_inline(sender, plaintext) {
        Some(s) => s,
        None => { return Err(CryptoError::Internal(String::from_str("signing failed"))); },
    };
    match pgp_encrypt_packets(recipient, signed.as_slice()) {
        Some(c) => Ok(c),
        None => Err(CryptoError::Internal(String::from_str("encryption failed"))),
    }
}

/// A detached signature over a message. A signer with no usable secret
/// signing subkey is `InvalidCert`.
pub fn sign(signer: &Cert, message: &[u8]) -> (r: Result<Vec<u8>, CryptoError>)
    ensures
        r is Err ==> (r->Err_0 is InvalidCert || r->Err_0 is Internal),
{
    if !pgp_has_signing_key(signer) {
        return Err(CryptoError::InvalidCert);
    }
    match pgp_detached_sign(signer, message) {
        Some(sig) => Ok(sig),
        None => Err(CryptoError::Internal(String::from_str("signing failed"))),
    }
}

/// What [`wrap`] returns: an envelope whose two headers carry the message's
/// metadata, around the base64 of some ciphertext, for the recipient device.
pub open spec fn wrapped(
    message: &PlaintextMessage,
    sender_fingerprint: Seq<char>,
    recipient_device: DeviceId,
    r: Result<TransportEnvelope, PipelineError>,
) -> bool {
    &&& r is Ok ==> {
        &&& header_of(transport_header(&r->Ok_0), message)
        &&& header_of(pgp_header(&r->Ok_0.pgp_envelope), message)
        &&& r->Ok_0.recipient_device == recipient_device
        &&& r->Ok_0.pgp_envelope.sender_fingerprint@ == sender_fingerprint
        &&& exists|ct: Seq<u8>| #[trigger] b64_of(ct) == r->Ok_0.pgp_envelope.encrypted_payload@
    }
    &&& r is Err ==> (r->Err_0 matches PipelineError::Crypto(e) && (e is InvalidCert || e is Internal))
}

/// Seals a message for a recipient: its frame is encrypted to the recipient
/// and signed by the sender, and the envelope headers carry its metadata.
pub fn wrap(
    message: &PlaintextMessage,
    sender: &Cert,
    sender_fingerprint: String,
    recipient: &Cert,
    recipient_device: DeviceId,
) -> (r: Result<TransportEnvelope, PipelineError>)
    ensures
        wrapped(message, sender_fingerprint@, recipient_device, r),
{
    let frame = encode_plaintext(message);
    match encrypt_and_sign(sender, recipient, frame.as_slice()) {
        Err(e) => Err(PipelineError::Crypto(e)),
        Ok(ciphertext) => {
            let envelope = seal_envelope(message, sender_fingerprint, ciphertext.as_slice(), recipient_device);
            proof {
                assert(b64_of(ciphertext@) == envelope.pgp_envelope.encrypted_payload@);
            }
            Ok(envelope)
        },
    }
}

/// A message sealed by [`wrap`] opens to itself, either by its transport
/// header or by its PGP header, when decrypting and verifying the payload
/// returns the frame that was encrypted.
pub proof fn lemma_wrap_open_round_trip(
    message: &PlaintextMessage,
    sender_fingerprint: Seq<char>,
    recipient_device: DeviceId,
    envelope: TransportEnvelope,
    decrypted: Vec<u8>,
    by_transport: Result<PlaintextMessage, PipelineError>,
    by_pgp: Result<PlaintextMessage, PipelineError>,
)
    requires
        wrapped(message, sender_fingerprint, recipient_device, Ok(envelope)),
        decrypted@ == message.frame(),
        opened(transport_header(&envelope), Ok(decrypted), by_transport),
        opened(pgp_header(&envelope.pgp_envelope), Ok(decrypted), by_pgp),
    ensures
        by_transport is Ok && by_transport->Ok_0.same_as(message),
        by_pgp is Ok && by_pgp->Ok_0.same_as(message),
{
    lemma_open_round_trip(message, transport_header(&envelope), decrypted, by_transport);
    lemma_open_round_trip(message, pgp_header(&envelope.pgp_envelope), decrypted, by_pgp);
}

} // verus!
