//! Message models: identifiers, the plaintext message and its byte frame,
//! and the envelopes that carry it encrypted.

use vstd::prelude::*;
use base64::Engine;
use crate::codec::{
    be128_of, be64_of, lemma_be128_bytes_round_trip, lemma_be128_round_trip,
    lemma_be64_bytes_round_trip, lemma_be64_round_trip, push_be128, push_be64, read_be128, read_be64,
};
use crate::keys::{
    cipher_bytes, copy_bytes, decrypt_message, encrypt_message, fingerprint_bytes, lemma_cipher_round_trip,
    sign_message, signature_text, verify_signature, EncryptedPayload, KeyPair, Signature, b64_nopad_of,
};

verus! {

/// Relies on uuid::Uuid::new_v4: a random identifier, as its 128-bit value.
#[verifier::external_body]
pub(crate) fn new_uuid() -> (r: u128) {
    uuid::Uuid::new_v4().as_u128()
}

/// Relies on std::time::SystemTime::now: milliseconds since the Unix epoch.
#[verifier::external_body]
pub(crate) fn now_ms() -> (r: i64) {
    std::time::SystemTime::now().duration_since(std::time::UNIX_EPOCH).map_or(0, |d| d.as_millis() as i64)
}

/// Standard-alphabet base64 text of a byte sequence, with padding.
pub uninterp spec fn b64_of(data: Seq<u8>) -> Seq<char>;

/// Relies on base64's STANDARD engine `encode`.
#[verifier::external_body]
pub(crate) fn b64_encode(data: &[u8]) -> (r: String)
    ensures
        r@ == b64_of(data@),
{
    base64::engine::general_purpose::STANDARD.encode(data)
}

/// Relies on base64's STANDARD engine `decode`, which reverses `encode`.
#[verifier::external_body]
pub(crate) fn b64_decode(text: &str) -> (r: Option<Vec<u8>>)
    ensures
        forall|b: Seq<u8>| #[trigger] b64_of(b) == text@ ==> (r is Some && r->0@ == b),
{
    base64::engine::general_purpose::STANDARD.decode(text).ok()
}

/// Identifier of a logical conversation (a 128-bit UUID).
#[derive(Debug, Clone, Copy, PartialEq, Eq, Structural)]
pub struct ConversationId(pub u128);

impl ConversationId {
    /// A fresh random identifier.
    pub fn new() -> (r: ConversationId) {
        ConversationId(new_uuid())
    }
}

/// Identifier of a device instance (a 128-bit UUID).
#[derive(Debug, Clone, Copy, PartialEq, Eq, Structural)]
pub struct DeviceId(pub u128);

impl DeviceId {
    /// A fresh random identifier.
    pub fn new() -> (r: DeviceId) {
        DeviceId(new_uuid())
    }
}

/// The plaintext of a message before encryption.
#[derive(Debug)]
pub struct PlaintextMessage {
    pub message_id: u128,
    pub conversation_id: ConversationId,
    pub sender_device: DeviceId,
    pub created_ms: i64,
    pub body: Vec<u8>,
}

/// Number of header bytes in a message frame.
pub const FRAME_HEADER_LEN: usize = 56;

/// The byte frame of a message: message id, conversation id and sender
/// device as 16 big-endian bytes each, the creation time as 8 big-endian
/// bytes, then the body.
pub open spec fn frame_of(message_id: u128, conversation: u128, device: u128, created_ms: i64, body: Seq<u8>) -> Seq<u8> {
    be128_of(message_id) + be128_of(conversation) + be128_of(device) + be64_of(created_ms as u64) + body
}

impl PlaintextMessage {
    /// The frame that carries this message inside the ciphertext.
    pub open spec fn frame(&self) -> Seq<u8> {
        frame_of(self.message_id, self.conversation_id.0, self.sender_device.0, self.created_ms, self.body@)
    }

    /// Two messages with the same fields.
    pub open spec fn same_as(&self, other: &PlaintextMessage) -> bool {
        &&& self.message_id == other.message_id
        &&& self.conversation_id == other.conversation_id
        &&& self.sender_device == other.sender_device
        &&& self.created_ms == other.created_ms
        &&& self.body@ == other.body@
    }

    /// A message created now, under a fresh message id.
    pub fn new(conversation_id: ConversationId, sender_device: DeviceId, body: Vec<u8>) -> (r: PlaintextMessage)
        ensures
            r.conversation_id == conversation_id,
            r.sender_device == sender_device,
            r.body@ == body@,
    {
        PlaintextMessage { message_id: new_uuid(), conversation_id, sender_device, created_ms: now_ms(), body }
    }

    /// A copy of the message.
    pub fn duplicate(&self) -> (r: PlaintextMessage)
        ensures
            r.same_as(self),
    {
        PlaintextMessage {
            message_id: self.message_id,
            conversation_id: self.conversation_id,
            sender_device: self.sender_device,
            created_ms: self.created_ms,
            body: copy_bytes(self.body.as_slice()),
        }
    }
}

proof fn lemma_i64_bits(x: i64)
    ensures
        ((x as u64) as i64) == x,
{
    assert(((x as u64) as i64) == x) by (bit_vector);
}

/// Frames a message.
pub fn encode_plaintext(message: &PlaintextMessage) -> (r: Vec<u8>)
    ensures
        r@ == message.frame(),
{
    let mut out: Vec<u8> = Vec::new();
    push_be128(&mut out, message.message_id);
    push_be128(&mut out, message.conversation_id.0);
    push_be128(&mut out, message.sender_device.0);
    push_be64(&mut out, message.created_ms as u64);
    let mut i: usize = 0;
    let ghost head = out@;
    while i < message.body.len()
        invariant
            0 <= i <= message.body@.len(),
            out@ == head + message.body@.subrange(0, i as int),
        decreases message.body@.len() - i,
    {
        out.push(message.body[i]);
        i = i + 1;
        assert(out@ =~= head + message.body@.subrange(0, i as int));
    }
    assert(message.body@.subrange(0, message.body@.len() as int) =~= message.body@);
    assert(out@ =~= message.frame());
    out
}

/// Reads a message back from its frame: `None` exactly when the bytes are
/// shorter than the header.
pub fn decode_plaintext(bytes: &[u8]) -> (r: Option<PlaintextMessage>)
    ensures
        r is Some <==> bytes@.len() >= FRAME_HEADER_LEN,
        r is Some ==> r->0.frame() == bytes@,
{
    if bytes.len() < FRAME_HEADER_LEN {
        return None;
    }
    let message_id = read_be128(bytes, 0);
    let conversation = read_be128(bytes, 16);
    let device = read_be128(bytes, 32);
    let created = read_be64(bytes, 48);
    let mut body: Vec<u8> = Vec::new();
    let mut i: usize = FRAME_HEADER_LEN;
    while i < bytes.len()
        invariant
            FRAME_HEADER_LEN <= i <= bytes@.len(),
            body@ == bytes@.subrange(FRAME_HEADER_LEN as int, i as int),
        decreases bytes@.len() - i,
    {
        body.push(bytes[i]);
        i = i + 1;
        assert(body@ =~= bytes@.subrange(FRAME_HEADER_LEN as int, i as int));
    }
    let m = PlaintextMessage {
        message_id,
        conversation_id: ConversationId(conversation),
        sender_device: DeviceId(device),
        created_ms: created as i64,
        body,
    };
    proof {
        let b = bytes@;
        lemma_be128_bytes_round_trip(b.subrange(0, 16));
        lemma_be128_bytes_round_trip(b.subrange(16, 32));
        lemma_be128_bytes_round_trip(b.subrange(32, 48));
        lemma_be64_bytes_round_trip(b.subrange(48, 56));
        assert(((created as i64) as u64) == created) by (bit_vector);
        assert(m.frame() =~= b);
    }
    Some(m)
}

/// A frame determines the message: two messages with the same frame have
/// the same fields.
pub proof fn lemma_frame_injective(a: &PlaintextMessage, b: &PlaintextMessage)
    requires
        a.frame() == b.frame(),
    ensures
        a.same_as(b),
{
    let fa = a.frame();
    let fb = b.frame();
    assert(fa.subrange(0, 16) =~= be128_of(a.message_id));
    assert(fb.subrange(0, 16) =~= be128_of(b.message_id));
    assert(fa.subrange(16, 32) =~= be128_of(a.conversation_id.0));
    assert(fb.subrange(16, 32) =~= be128_of(b.conversation_id.0));
    assert(fa.subrange(32, 48) =~= be128_of(a.sender_device.0));
    assert(fb.subrange(32, 48) =~= be128_of(b.sender_device.0));
    assert(fa.subrange(48, 56) =~= be64_of(a.created_ms as u64));
    assert(fb.subrange(48, 56) =~= be64_of(b.created_ms as u64));
    assert(fa.subrange(56, fa.len() as int) =~= a.body@);
    assert(fb.subrange(56, fb.len() as int) =~= b.body@);
    lemma_be128_round_trip(a.message_id);
    lemma_be128_round_trip(b.message_id);
    lemma_be128_round_trip(a.conversation_id.0);
    lemma_be128_round_trip(b.conversation_id.0);
    lemma_be128_round_trip(a.sender_device.0);
    lemma_be128_round_trip(b.sender_device.0);
    lemma_be64_round_trip(a.created_ms as u64);
    lemma_be64_round_trip(b.created_ms as u64);
    lemma_i64_bits(a.created_ms);
    lemma_i64_bits(b.created_ms);
}

/// Messaging-specific errors.
#[derive(Debug)]
pub enum MessagingError {
    Crypto(String),
}

/// Envelope protected with the deterministic key primitives.
#[derive(Debug)]
pub struct EncryptedEnvelope {
    pub message_id: u128,
    pub conversation_id: ConversationId,
    pub sender_fingerprint: String,
    pub sender_device: DeviceId,
    pub created_ms: i64,
    pub payload: EncryptedPayload,
    pub signature: Signature,
}

/// What [`EncryptedEnvelope::from_plaintext`] produces from a message and a key pair.
pub open spec fn sealed_from(envelope: &EncryptedEnvelope, message: &PlaintextMessage, key_pair: &KeyPair) -> bool {
    &&& envelope.message_id == message.message_id
    &&& envelope.conversation_id == message.conversation_id
    &&& envelope.sender_device == message.sender_device
    &&& envelope.created_ms == message.created_ms
    &&& envelope.sender_fingerprint@ == key_pair.fingerprint_view()
    &&& envelope.payload.ciphertext@ == b64_nopad_of(cipher_bytes(fingerprint_bytes(key_pair), message.body@))
    &&& envelope.payload.nonce@ == b64_nopad_of(
        crate::keys::stream_seed_of(fingerprint_bytes(key_pair), message.body@.len()).subrange(0, 24),
    )
    &&& envelope.signature.0@ == signature_text(key_pair.private_view(), message.body@)
    &&& crate::keys::stream_seed_of(fingerprint_bytes(key_pair), message.body@.len()).len() == 32
}

/// What [`EncryptedEnvelope::into_plaintext`] may return for an envelope and a key pair.
pub open spec fn opened_as(envelope: &EncryptedEnvelope, key_pair: &KeyPair, r: Result<PlaintextMessage, MessagingError>) -> bool {
    &&& r is Ok ==> {
        &&& r->Ok_0.message_id == envelope.message_id
        &&& r->Ok_0.conversation_id == envelope.conversation_id
        &&& r->Ok_0.sender_device == envelope.sender_device
        &&& r->Ok_0.created_ms == envelope.created_ms
        &&& envelope.signature.0@ == signature_text(key_pair.private_view(), r->Ok_0.body@)
    }
    &&& forall|n: Seq<u8>, c: Seq<u8>|
        #![trigger b64_nopad_of(n), b64_nopad_of(c)]
        b64_nopad_of(n) == envelope.payload.nonce@ && b64_nopad_of(c) == envelope.payload.ciphertext@ && n.len() == 24
            ==> (r is Ok <==> envelope.signature.0@ == signature_text(key_pair.private_view(), cipher_bytes(fingerprint_bytes(key_pair), c)))
            && (r is Ok ==> r->Ok_0.body@ == cipher_bytes(fingerprint_bytes(key_pair), c))
}

impl EncryptedEnvelope {
    /// Encrypts and signs the body of a message under a key pair.
    pub fn from_plaintext(message: PlaintextMessage, key_pair: &KeyPair) -> (r: Result<EncryptedEnvelope, MessagingError>)
        ensures
            r is Ok,
            sealed_from(&r->Ok_0, &message, key_pair),
    {
        let payload = match encrypt_message(key_pair, message.body.as_slice()) {
            Ok(p) => p,
            Err(e) => { return Err(MessagingError::Crypto(e.describe())); },
        };
        let signature = match sign_message(key_pair, message.body.as_slice()) {
            Ok(s) => s,
            Err(e) => { return Err(MessagingError::Crypto(e.describe())); },
        };
        Ok(EncryptedEnvelope {
            message_id: message.message_id,
            conversation_id: message.conversation_id,
            sender_fingerprint: key_pair.fingerprint().0.clone(),
            sender_device: message.sender_device,
            created_ms: message.created_ms,
            payload,
            signature,
        })
    }

    /// Decrypts the payload and checks the signature over the decrypted body.
    pub fn into_plaintext(self, key_pair: &KeyPair) -> (r: Result<PlaintextMessage, MessagingError>)
        ensures
            opened_as(&self, key_pair, r),
    {
        let body = match decrypt_message(key_pair, &self.payload) {
            Ok(b) => b,
            Err(e) => { return Err(MessagingError::Crypto(e.describe())); },
        };
        match verify_signature(key_pair, body.as_slice(), &self.signature) {
            Ok(()) => {},
            Err(e) => { return Err(MessagingError::Crypto(e.describe())); },
        }
        Ok(PlaintextMessage {
            message_id: self.message_id,
            conversation_id: self.conversation_id,
            sender_device: self.sender_device,
            created_ms: self.created_ms,
            body,
        })
    }
}

/// Sealing a message into an [`EncryptedEnvelope`] and opening it with the
/// same key pair gives back the message.
pub proof fn lemma_envelope_round_trip(
    message: &PlaintextMessage,
    key_pair: &KeyPair,
    envelope: &EncryptedEnvelope,
    opened: Result<PlaintextMessage, MessagingError>,
)
    requires
        sealed_from(envelope, message, key_pair),
        opened_as(envelope, key_pair, opened),
    ensures
        opened is Ok,
        opened->Ok_0.same_as(message),
{
    let fp = fingerprint_bytes(key_pair);
    let c = cipher_bytes(fp, message.body@);
    let n = crate::keys::stream_seed_of(fp, message.body@.len()).subrange(0, 24);
    lemma_cipher_round_trip(fp, message.body@);
    assert(b64_nopad_of(n) == envelope.payload.nonce@ && b64_nopad_of(c) == envelope.payload.ciphertext@);
}

/// Receipt of a delivered message.
#[derive(Debug, Clone, Copy, PartialEq, Eq, Structural)]
pub struct DeliveryReceipt {
    pub message_id: u128,
    pub delivered_to: u128,
    pub timestamp_ms: i64,
}

impl DeliveryReceipt {
    /// A receipt stamped now.
    pub fn new(message_id: u128, delivered_to: u128) -> (r: DeliveryReceipt)
        ensures
            r.message_id == message_id,
            r.delivered_to == delivered_to,
    {
        DeliveryReceipt { message_id, delivered_to, timestamp_ms: now_ms() }
    }
}

/// Envelope protected with OpenPGP: the ciphertext of the message frame,
/// encrypted to the recipient and signed by the sender, as base64.
#[derive(Debug)]
pub struct PgpEnvelope {
    pub message_id: u128,
    pub conversation_id: ConversationId,
    pub sender_fingerprint: String,
    pub sender_device: DeviceId,
    pub created_ms: i64,
    pub encrypted_payload: String,
}

impl PgpEnvelope {
    /// Builds the envelope around the OpenPGP ciphertext of `message`'s frame.
    pub fn from_ciphertext(message: &PlaintextMessage, sender_fingerprint: String, ciphertext: &[u8]) -> (r: PgpEnvelope)
        ensures
            r.message_id == message.message_id,
            r.conversation_id == message.conversation_id,
            r.sender_device == message.sender_device,
            r.created_ms == message.created_ms,
            r.sender_fingerprint@ == sender_fingerprint@,
            r.encrypted_payload@ == b64_of(ciphertext@),
    {
        PgpEnvelope {
            message_id: message.message_id,
            conversation_id: message.conversation_id,
            sender_fingerprint,
            sender_device: message.sender_device,
            created_ms: message.created_ms,
            encrypted_payload: b64_encode(ciphertext),
        }
    }

    /// The OpenPGP ciphertext carried by the envelope.
    pub fn ciphertext(&self) -> (r: Result<Vec<u8>, MessagingError>)
        ensures
            forall|c: Seq<u8>| #[trigger] b64_of(c) == self.encrypted_payload@ ==> (r is Ok && r->Ok_0@ == c),
    {
        match b64_decode(self.encrypted_payload.as_str()) {
            Some(c) => Ok(c),
            None => Err(MessagingError::Crypto(String::from_str("base64 decode failed"))),
        }
    }

    /// A copy of the envelope.
    pub fn duplicate(&self) -> (r: PgpEnvelope)
        ensures
            r.message_id == self.message_id,
            r.conversation_id == self.conversation_id,
            r.sender_device == self.sender_device,
            r.created_ms == self.created_ms,
            r.sender_fingerprint@ == self.sender_fingerprint@,
            r.encrypted_payload@ == self.encrypted_payload@,
    {
        PgpEnvelope {
            message_id: self.message_id,
            conversation_id: self.conversation_id,
            sender_fingerprint: self.sender_fingerprint.clone(),
            sender_device: self.sender_device,
            created_ms: self.created_ms,
            encrypted_payload: self.encrypted_payload.clone(),
        }
    }
}

} // verus!
