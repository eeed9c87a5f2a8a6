//! The message pipeline: the transport envelope, the checks made when one is
//! opened, the outbound queue and the receipt log.

use vstd::prelude::*;
use crate::codec::{be128_value, be64_value, lemma_be128_round_trip, lemma_be64_round_trip};
use crate::keys::CryptoError;
use crate::messages::{decode_plaintext, lemma_frame_injective, now_ms, ConversationId, DeviceId, PgpEnvelope, PlaintextMessage, FRAME_HEADER_LEN};
use crate::overlay::OverlayError;

verus! {

broadcast use vstd::seq_lib::group_seq_properties;

/// Errors of the message pipeline.
#[derive(Debug)]
pub enum PipelineError {
    Crypto(CryptoError),
    Overlay(OverlayError),
    Storage(String),
    InvalidEnvelope(String),
    NotInitialized,
}

/// Envelope carried by the overlay: routing metadata around a PGP envelope.
#[derive(Debug)]
pub struct TransportEnvelope {
    pub message_id: u128,
    pub conversation_id: ConversationId,
    pub sender_device: DeviceId,
    pub recipient_device: DeviceId,
    pub created_ms: i64,
    pub pgp_envelope: PgpEnvelope,
}

impl TransportEnvelope {
    /// Routes a PGP envelope to a recipient device, copying its metadata.
    pub fn new(recipient_device: DeviceId, pgp_envelope: PgpEnvelope) -> (r: TransportEnvelope)
        ensures
            r.message_id == pgp_envelope.message_id,
            r.conversation_id == pgp_envelope.conversation_id,
            r.sender_device == pgp_envelope.sender_device,
            r.created_ms == pgp_envelope.created_ms,
            r.recipient_device == recipient_device,
            r.pgp_envelope == pgp_envelope,
    {
        TransportEnvelope {
            message_id: pgp_envelope.message_id,
            conversation_id: pgp_envelope.conversation_id,
            sender_device: pgp_envelope.sender_device,
            recipient_device,
            created_ms: pgp_envelope.created_ms,
            pgp_envelope,
        }
    }

    /// The header carries the metadata of `message`, as [`TransportEnvelope::new`]
    /// leaves it after the message was sealed.
    pub open spec fn carries(&self, message: &PlaintextMessage) -> bool {
        header_of(transport_header(self), message)
    }

    /// A copy of the envelope.
    pub fn duplicate(&self) -> (r: TransportEnvelope)
        ensures
            r.message_id == self.message_id,
            r.conversation_id == self.conversation_id,
            r.sender_device == self.sender_device,
            r.recipient_device == self.recipient_device,
            r.created_ms == self.created_ms,
            crate::store::same_envelope(&r, self),
    {
        TransportEnvelope {
            message_id: self.message_id,
            conversation_id: self.conversation_id,
            sender_device: self.sender_device,
            recipient_device: self.recipient_device,
            created_ms: self.created_ms,
            pgp_envelope: self.pgp_envelope.duplicate(),
        }
    }
}

/// The metadata an envelope header claims for the message it carries.
#[derive(Debug, Clone, Copy, PartialEq, Eq, Structural)]
pub struct MessageHeader {
    pub message_id: u128,
    pub conversation_id: ConversationId,
    pub sender_device: DeviceId,
    pub created_ms: i64,
}

/// The header claims exactly the metadata of `message`.
pub open spec fn header_of(h: MessageHeader, message: &PlaintextMessage) -> bool {
    &&& h.message_id == message.message_id
    &&& h.conversation_id == message.conversation_id
    &&& h.sender_device == message.sender_device
    &&& h.created_ms == message.created_ms
}

/// The header of a transport envelope.
pub open spec fn transport_header(e: &TransportEnvelope) -> MessageHeader {
    MessageHeader { message_id: e.message_id, conversation_id: e.conversation_id, sender_device: e.sender_device, created_ms: e.created_ms }
}

/// The header of a PGP envelope.
pub open spec fn pgp_header(e: &PgpEnvelope) -> MessageHeader {
    MessageHeader { message_id: e.message_id, conversation_id: e.conversation_id, sender_device: e.sender_device, created_ms: e.created_ms }
}

/// The decrypted bytes frame a message whose metadata is that of the header.
pub open spec fn frame_matches(h: MessageHeader, bytes: Seq<u8>) -> bool {
    &&& bytes.len() >= FRAME_HEADER_LEN
    &&& be128_value(bytes.subrange(0, 16)) == h.message_id
    &&& be128_value(bytes.subrange(16, 32)) == h.conversation_id.0
    &&& be128_value(bytes.subrange(32, 48)) == h.sender_device.0
    &&& be64_value(bytes.subrange(48, 56)) as i64 == h.created_ms
}

/// What opening an envelope with header `h` yields, given what decrypting
/// and verifying its payload gave.
pub open spec fn opened(
    h: MessageHeader,
    decrypted: Result<Vec<u8>, CryptoError>,
    r: Result<PlaintextMessage, PipelineError>,
) -> bool {
    match decrypted {
        Err(e) => r == Err::<PlaintextMessage, PipelineError>(PipelineError::Crypto(e)),
        Ok(bytes) => {
            &&& r is Ok <==> frame_matches(h, bytes@)
            &&& r is Ok ==> r->Ok_0.frame() == bytes@ && header_of(h, &r->Ok_0)
            &&& r is Err ==> r->Err_0 is InvalidEnvelope
        },
    }
}

/// What opening a transport envelope yields (see [`unwrap_envelope`]).
pub open spec fn unwrapped(
    envelope: &TransportEnvelope,
    decrypted: Result<Vec<u8>, CryptoError>,
    r: Result<PlaintextMessage, PipelineError>,
) -> bool {
    opened(transport_header(envelope), decrypted, r)
}

/// Opens a decrypted frame under a header: a crypto failure is passed on,
/// and the frame must carry the metadata the header claims.
pub fn open_frame(h: MessageHeader, decrypted: Result<Vec<u8>, CryptoError>) -> (r: Result<PlaintextMessage, PipelineError>)
    ensures
        opened(h, decrypted, r),
{
    let bytes = match decrypted {
        Err(e) => { return Err(PipelineError::Crypto(e)); },
        Ok(b) => b,
    };
    match decode_plaintext(bytes.as_slice()) {
        None => Err(PipelineError::InvalidEnvelope(String::from_str("decrypted frame is too short"))),
        Some(m) => {
            proof {
                assert(m.frame().subrange(0, 16) =~= crate::codec::be128_of(m.message_id));
                assert(m.frame().subrange(16, 32) =~= crate::codec::be128_of(m.conversation_id.0));
                assert(m.frame().subrange(32, 48) =~= crate::codec::be128_of(m.sender_device.0));
                assert(m.frame().subrange(48, 56) =~= crate::codec::be64_of(m.created_ms as u64));
                lemma_be128_round_trip(m.message_id);
                lemma_be128_round_trip(m.conversation_id.0);
                lemma_be128_round_trip(m.sender_device.0);
                lemma_be64_round_trip(m.created_ms as u64);
                let c = m.created_ms;
                assert(((c as u64) as i64) == c) by (bit_vector);
            }
            if m.message_id != h.message_id || m.conversation_id.0 != h.conversation_id.0
                || m.sender_device.0 != h.sender_device.0 || m.created_ms != h.created_ms {
                Err(PipelineError::InvalidEnvelope(String::from_str("envelope metadata does not match the signed message")))
            } else {
                Ok(m)
            }
        },
    }
}

/// Opens a transport envelope once its payload was decrypted and its
/// signature checked against the sender's certificate: a crypto failure is
/// passed on, and the decrypted frame must carry the metadata of the header.
pub fn unwrap_envelope(envelope: &TransportEnvelope, decrypted: Result<Vec<u8>, CryptoError>) -> (r: Result<PlaintextMessage, PipelineError>)
    ensures
        unwrapped(envelope, decrypted, r),
{
    let h = MessageHeader {
        message_id: envelope.message_id,
        conversation_id: envelope.conversation_id,
        sender_device: envelope.sender_device,
        created_ms: envelope.created_ms,
    };
    open_frame(h, decrypted)
}

impl PgpEnvelope {
    /// Opens the envelope once its payload was decrypted and its signature
    /// checked against the sender's certificate (see [`open_frame`]), under
    /// the metadata this envelope claims.
    pub fn into_plaintext(&self, decrypted: Result<Vec<u8>, CryptoError>) -> (r: Result<PlaintextMessage, PipelineError>)
        ensures
            opened(pgp_header(self), decrypted, r),
    {
        let h = MessageHeader {
            message_id: self.message_id,
            conversation_id: self.conversation_id,
            sender_device: self.sender_device,
            created_ms: self.created_ms,
        };
        open_frame(h, decrypted)
    }
}

/// Seals a message into a transport envelope around the OpenPGP ciphertext
/// of its frame: both headers carry the message's metadata.
pub fn seal_envelope(message: &PlaintextMessage, sender_fingerprint: String, ciphertext: &[u8], recipient_device: DeviceId) -> (r: TransportEnvelope)
    ensures
        header_of(transport_header(&r), message),
        header_of(pgp_header(&r.pgp_envelope), message),
        r.recipient_device == recipient_device,
        r.pgp_envelope.sender_fingerprint@ == sender_fingerprint@,
        r.pgp_envelope.encrypted_payload@ == crate::messages::b64_of(ciphertext@),
{
    TransportEnvelope::new(recipient_device, PgpEnvelope::from_ciphertext(message, sender_fingerprint, ciphertext))
}

/// Opening under a header the frame of a message whose metadata the header
/// claims gives the message back.
pub proof fn lemma_open_round_trip(
    message: &PlaintextMessage,
    h: MessageHeader,
    decrypted: Vec<u8>,
    r: Result<PlaintextMessage, PipelineError>,
)
    requires
        header_of(h, message),
        decrypted@ == message.frame(),
        opened(h, Ok(decrypted), r),
    ensures
        r is Ok,
        r->Ok_0.same_as(message),
{
    let f = message.frame();
    assert(f.subrange(0, 16) =~= crate::codec::be128_of(message.message_id));
    assert(f.subrange(16, 32) =~= crate::codec::be128_of(message.conversation_id.0));
    assert(f.subrange(32, 48) =~= crate::codec::be128_of(message.sender_device.0));
    assert(f.subrange(48, 56) =~= crate::codec::be64_of(message.created_ms as u64));
    lemma_be128_round_trip(message.message_id);
    lemma_be128_round_trip(message.conversation_id.0);
    lemma_be128_round_trip(message.sender_device.0);
    lemma_be64_round_trip(message.created_ms as u64);
    let c = message.created_ms;
    assert(((c as u64) as i64) == c) by (bit_vector);
    lemma_frame_injective(&r->Ok_0, message);
}

/// Opening a PGP envelope sealed around a message, when decryption returns
/// the frame that was encrypted, gives the message back.
pub proof fn lemma_pgp_envelope_round_trip(
    message: &PlaintextMessage,
    envelope: &PgpEnvelope,
    decrypted: Vec<u8>,
    r: Result<PlaintextMessage, PipelineError>,
)
    requires
        header_of(pgp_header(envelope), message),
        decrypted@ == message.frame(),
        opened(pgp_header(envelope), Ok(decrypted), r),
    ensures
        r is Ok,
        r->Ok_0.same_as(message),
{
    lemma_open_round_trip(message, pgp_header(envelope), decrypted, r);
}

/// A PGP envelope whose header names another message id than the one sealed
/// inside it is refused as invalid.
pub proof fn lemma_pgp_header_tamper_detected(
    message: &PlaintextMessage,
    envelope: &PgpEnvelope,
    decrypted: Vec<u8>,
    r: Result<PlaintextMessage, PipelineError>,
)
    requires
        envelope.message_id != message.message_id,
        decrypted@ == message.frame(),
        opened(pgp_header(envelope), Ok(decrypted), r),
    ensures
        r is Err,
        r->Err_0 is InvalidEnvelope,
{
    if r is Ok {
        lemma_frame_injective(&r->Ok_0, message);
    }
}

/// Whatever decrypting and verifying a PGP envelope's payload reports as a
/// failure (a foreign sender certificate gives `VerificationFailed`) is what
/// opening it returns, and no plaintext comes back.
pub proof fn lemma_pgp_crypto_failure_passed_on(
    envelope: &PgpEnvelope,
    e: CryptoError,
    r: Result<PlaintextMessage, PipelineError>,
)
    requires
        opened(pgp_header(envelope), Err(e), r),
    ensures
        r == Err::<PlaintextMessage, PipelineError>(PipelineError::Crypto(e)),
{
}

/// Sealing a message and opening the envelope that carries it gives the
/// message back, when decryption returns the frame that was encrypted.
pub proof fn lemma_wrap_unwrap_round_trip(
    message: &PlaintextMessage,
    envelope: &TransportEnvelope,
    decrypted: Vec<u8>,
    r: Result<PlaintextMessage, PipelineError>,
)
    requires
        envelope.carries(message),
        decrypted@ == message.frame(),
        unwrapped(envelope, Ok(decrypted), r),
    ensures
        r is Ok,
        r->Ok_0.same_as(message),
{
    lemma_open_round_trip(message, transport_header(envelope), decrypted, r);
}

/// An envelope whose header names another message id than the one sealed
/// inside it is refused as invalid, whatever else it carries.
pub proof fn lemma_header_tamper_detected(
    message: &PlaintextMessage,
    envelope: &TransportEnvelope,
    decrypted: Vec<u8>,
    r: Result<PlaintextMessage, PipelineError>,
)
    requires
        envelope.message_id != message.message_id,
        decrypted@ == message.frame(),
        unwrapped(envelope, Ok(decrypted), r),
    ensures
        r is Err,
        r->Err_0 is InvalidEnvelope,
{
    if r is Ok {
        lemma_frame_injective(&r->Ok_0, message);
    }
}

/// Two envelopes of one conversation are each accepted on their own, in
/// either order of creation time: opening one does not depend on the other.
pub proof fn lemma_reordered_envelopes_accepted(
    first: &PlaintextMessage,
    second: &PlaintextMessage,
    first_envelope: &TransportEnvelope,
    second_envelope: &TransportEnvelope,
    first_bytes: Vec<u8>,
    second_bytes: Vec<u8>,
    r1: Result<PlaintextMessage, PipelineError>,
    r2: Result<PlaintextMessage, PipelineError>,
)
    requires
        first.conversation_id == second.conversation_id,
        first.created_ms > second.created_ms,
        first_envelope.carries(first),
        second_envelope.carries(second),
        first_bytes@ == first.frame(),
        second_bytes@ == second.frame(),
        unwrapped(first_envelope, Ok(first_bytes), r1),
        unwrapped(second_envelope, Ok(second_bytes), r2),
    ensures
        r1 is Ok && r1->Ok_0.same_as(first),
        r2 is Ok && r2->Ok_0.same_as(second),
{
    lemma_wrap_unwrap_round_trip(first, first_envelope, first_bytes, r1);
    lemma_wrap_unwrap_round_trip(second, second_envelope, second_bytes, r2);
}

/// A signed message is accepted when some signature of some signature group
/// verified under the sender's certificate.
pub open spec fn some_signature_valid(groups: Seq<Seq<bool>>) -> bool {
    exists|g: int, i: int| 0 <= g < groups.len() && 0 <= i < groups[g].len() && groups[g][i]
}

/// Decides whether the verification results of a message's signature
/// groups (one flag per signature) accept it.
pub fn signature_check(groups: &Vec<Vec<bool>>) -> (r: bool)
    ensures
        r == some_signature_valid(groups@.map_values(|v: Vec<bool>| v@)),
{
    let mut g: usize = 0;
    while g < groups.len()
        invariant
            0 <= g <= groups@.len(),
            forall|a: int, i: int| 0 <= a < g && 0 <= i < groups@[a]@.len() ==> !groups@[a]@[i],
        decreases groups@.len() - g,
    {
        let group = &groups[g];
        let mut i: usize = 0;
        while i < group.len()
            invariant
                0 <= i <= group@.len(),
                group@ == groups@[g as int]@,
                0 <= g < groups@.len(),
                forall|k: int| 0 <= k < i ==> !group@[k],
            decreases group@.len() - i,
        {
            if group[i] {
                proof { assert(groups@.map_values(|v: Vec<bool>| v@)[g as int][i as int]); }
                return true;
            }
            i = i + 1;
        }
        g = g + 1;
    }
    proof {
        let m = groups@.map_values(|v: Vec<bool>| v@);
        assert forall|a: int, i: int| 0 <= a < m.len() && 0 <= i < m[a].len() implies !m[a][i] by {
            assert(m[a] == groups@[a]@);
        }
    }
    false
}

/// Delivery status of a message.
#[derive(Debug, Clone, Copy, PartialEq, Eq, Structural)]
pub enum ReceiptStatus {
    Queued,
    Sent,
    Delivered,
    Failed,
}

/// One entry of the receipt log.
#[derive(Debug, Clone, Copy, PartialEq, Eq, Structural)]
pub struct MessageReceipt {
    pub message_id: u128,
    pub delivered_to: DeviceId,
    pub delivered_at_ms: i64,
    pub status: ReceiptStatus,
}

impl MessageReceipt {
    /// A receipt stamped with the current time.
    pub fn new(message_id: u128, delivered_to: DeviceId, status: ReceiptStatus) -> (r: MessageReceipt)
        ensures
            r.message_id == message_id,
            r.delivered_to == delivered_to,
            r.status == status,
    {
        MessageReceipt { message_id, delivered_to, delivered_at_ms: now_ms(), status }
    }
}

/// Pipeline settings.
#[derive(Debug, Clone, Copy, PartialEq, Eq, Structural)]
pub struct PipelineConfig {
    pub max_retries: usize,
    pub retry_delay_ms: u64,
}

impl Default for PipelineConfig {
    fn default() -> (r: PipelineConfig)
        ensures
            r.max_retries == 3,
            r.retry_delay_ms == 5000,
    {
        PipelineConfig { max_retries: 3, retry_delay_ms: 5000 }
    }
}

/// A queued outbound envelope and how often its delivery was attempted.
#[derive(Debug)]
pub struct QueuedMessage {
    pub envelope: TransportEnvelope,
    pub attempts: usize,
    pub queued_at_ms: i64,
}

impl QueuedMessage {
    pub fn duplicate(&self) -> (r: QueuedMessage)
        ensures
            r.envelope.message_id == self.envelope.message_id,
            r.attempts == self.attempts,
            r.queued_at_ms == self.queued_at_ms,
    {
        QueuedMessage { envelope: self.envelope.duplicate(), attempts: self.attempts, queued_at_ms: self.queued_at_ms }
    }
}

/// In-memory FIFO of outbound envelopes.
pub struct MessageQueue {
    items: Vec<QueuedMessage>,
}

/// Message ids of a sequence of queued messages, in order.
pub open spec fn queued_ids(items: Seq<QueuedMessage>) -> Seq<u128> {
    items.map_values(|q: QueuedMessage| q.envelope.message_id)
}

impl MessageQueue {
    /// The message ids in the queue, front first.
    pub closed spec fn ids(&self) -> Seq<u128> {
        queued_ids(self.items@)
    }

    /// Delivery attempts of the entry at a position.
    pub closed spec fn attempts_at(&self, i: int) -> usize {
        self.items@[i].attempts
    }

    pub fn new() -> (r: MessageQueue)
        ensures
            r.ids() == Seq::<u128>::empty(),
    {
        MessageQueue { items: Vec::new() }
    }

    /// Adds an envelope at the back, with no attempts yet.
    pub fn enqueue(&mut self, envelope: TransportEnvelope)
        ensures
            final(self).ids() == old(self).ids().push(envelope.message_id),
            final(self).attempts_at(old(self).ids().len() as int) == 0,
            forall|i: int| 0 <= i < old(self).ids().len() ==> final(self).attempts_at(i) == old(self).attempts_at(i),
    {
        let queued = QueuedMessage { envelope, attempts: 0, queued_at_ms: now_ms() };
        self.items.push(queued);
        assert(queued_ids(self.items@) =~= queued_ids(old(self).items@).push(queued.envelope.message_id));
    }

    /// A copy of the front entry, if any.
    pub fn peek(&self) -> (r: Option<QueuedMessage>)
        ensures
            r is None <==> self.ids().len() == 0,
            r is Some ==> r->0.envelope.message_id == self.ids()[0] && r->0.attempts == self.attempts_at(0),
    {
        if self.items.len() == 0 {
            None
        } else {
            Some(self.items[0].duplicate())
        }
    }

    /// Position of the first entry with a message id.
    fn position(&self, message_id: u128) -> (r: Option<usize>)
        ensures
            r is None <==> !self.ids().contains(message_id),
            r is Some ==> r->0 < self.ids().len() && self.ids()[r->0 as int] == message_id
                && forall|j: int| 0 <= j < r->0 ==> self.ids()[j] != message_id,
    {
        let mut i: usize = 0;
        while i < self.items.len()
            invariant
                0 <= i <= self.items@.len(),
                self.ids().len() == self.items@.len(),
                forall|j: int| 0 <= j < i ==> self.ids()[j] != message_id,
            decreases self.items@.len() - i,
        {
            proof {
                assert(self.ids()[i as int] == self.items@[i as int].envelope.message_id);
            }
            if self.items[i].envelope.message_id == message_id {
                return Some(i);
            }
            i = i + 1;
        }
        None
    }

    /// Removes the first entry with a message id and returns it.
    pub fn remove(&mut self, message_id: u128) -> (r: Option<QueuedMessage>)
        ensures
            r is None <==> !old(self).ids().contains(message_id),
            r is None ==> final(self).ids() == old(self).ids(),
            r is Some ==> r->0.envelope.message_id == message_id && exists|k: int|
                0 <= k < old(self).ids().len() && old(self).ids()[k] == message_id
                && (forall|j: int| 0 <= j < k ==> old(self).ids()[j] != message_id)
                && final(self).ids() == old(self).ids().remove(k),
    {
        match self.position(message_id) {
            None => None,
            Some(pos) => {
                let removed = self.items.remove(pos);
                assert(queued_ids(self.items@) =~= queued_ids(old(self).items@).remove(pos as int));
                Some(removed)
            },
        }
    }

    /// Counts one more delivery attempt for the first entry with a message id.
    pub fn mark_attempted(&mut self, message_id: u128)
        ensures
            final(self).ids() == old(self).ids(),
            !old(self).ids().contains(message_id) ==> forall|i: int|
                0 <= i < old(self).ids().len() ==> #[trigger] final(self).attempts_at(i) == old(self).attempts_at(i),
            old(self).ids().contains(message_id) ==> exists|k: int|
                0 <= k < old(self).ids().len() && old(self).ids()[k] == message_id
                && (forall|j: int| 0 <= j < k ==> old(self).ids()[j] != message_id)
                && final(self).attempts_at(k) == (if old(self).attempts_at(k) < usize::MAX {
                    (old(self).attempts_at(k) + 1) as usize
                } else {
                    old(self).attempts_at(k)
                })
                && (forall|i: int| 0 <= i < old(self).ids().len() && i != k ==> #[trigger] final(self).attempts_at(i) == old(self).attempts_at(i)),
    {
        match self.position(message_id) {
            None => {},
            Some(pos) => {
                let mut entry = self.items.remove(pos);
                if entry.attempts < usize::MAX {
                    entry.attempts = entry.attempts + 1;
                }
                self.items.insert(pos, entry);
                assert(self.items@ =~= old(self).items@.update(pos as int, entry));
                assert(queued_ids(self.items@) =~= queued_ids(old(self).items@));
                assert(self.attempts_at(pos as int) == entry.attempts);
            },
        }
    }

    pub fn len(&self) -> (r: usize)
        ensures
            r == self.ids().len(),
    {
        self.items.len()
    }

    pub fn is_empty(&self) -> (r: bool)
        ensures
            r <==> self.ids().len() == 0,
    {
        self.items.len() == 0
    }

    pub fn clear(&mut self)
        ensures
            final(self).ids() == Seq::<u128>::empty(),
    {
        self.items.clear();
        assert(queued_ids(self.items@) =~= Seq::<u128>::empty());
    }
}

/// Result of queueing a message for sending.
#[derive(Debug)]
pub struct SendMessageResponse {
    pub message_id: u128,
    pub queued_at_ms: i64,
}

/// The receipts of one message, in the order they were logged.
pub open spec fn receipts_for(log: Seq<MessageReceipt>, message_id: u128) -> Seq<MessageReceipt> {
    log.filter(|r: MessageReceipt| r.message_id == message_id)
}

/// The per-process message pipeline: the installed identity, the outbound
/// queue and the append-only receipt log.
pub struct MessagePipeline {
    config: PipelineConfig,
    identity: Option<String>,
    local_device: DeviceId,
    queue: MessageQueue,
    receipts: Vec<MessageReceipt>,
}

impl MessagePipeline {
    /// Every receipt logged so far, oldest first.
    pub closed spec fn log(&self) -> Seq<MessageReceipt> {
        self.receipts@
    }

    /// Whether an identity was installed.
    pub closed spec fn initialized(&self) -> bool {
        self.identity is Some
    }

    /// The fingerprint of the installed identity, if any.
    pub closed spec fn identity_view(&self) -> Option<Seq<char>> {
        match self.identity {
            Some(fp) => Some(fp@),
            None => None,
        }
    }

    pub closed spec fn device(&self) -> DeviceId {
        self.local_device
    }

    pub closed spec fn queued(&self) -> Seq<u128> {
        self.queue.ids()
    }

    pub fn new(config: PipelineConfig, local_device: DeviceId) -> (r: MessagePipeline)
        ensures
            !r.initialized(),
            r.device() == local_device,
            r.log() == Seq::<MessageReceipt>::empty(),
            r.queued() == Seq::<u128>::empty(),
    {
        MessagePipeline { config, identity: None, local_device, queue: MessageQueue::new(), receipts: Vec::new() }
    }

    /// Installs the active identity, by its fingerprint.
    pub fn set_keypair(&mut self, fingerprint: String)
        ensures
            final(self).initialized(),
            final(self).identity_view() == Some(fingerprint@),
            final(self).log() == old(self).log(),
            final(self).queued() == old(self).queued(),
            final(self).device() == old(self).device(),
    {
        self.identity = Some(fingerprint);
    }

    fn add_receipt(&mut self, receipt: MessageReceipt)
        ensures
            final(self).log() == old(self).log().push(receipt),
            final(self).initialized() == old(self).initialized(),
            final(self).queued() == old(self).queued(),
            final(self).device() == old(self).device(),
    {
        self.receipts.push(receipt);
    }

    /// Queues a sealed envelope and logs the outcome of publishing it:
    /// `Queued` when the overlay accepted the publish command, `Failed`
    /// otherwise. Refused while no identity is installed.
    pub fn send_message(&mut self, envelope: TransportEnvelope, published: Result<(), OverlayError>) -> (r: Result<SendMessageResponse, PipelineError>)
        ensures
            !old(self).initialized() ==> r is Err && r->Err_0 is NotInitialized && final(self).log() == old(self).log()
                && final(self).queued() == old(self).queued(),
            old(self).initialized() ==> r is Ok && r->Ok_0.message_id == envelope.message_id
                && final(self).queued() == old(self).queued().push(envelope.message_id)
                && final(self).log().len() == old(self).log().len() + 1
                && final(self).log().drop_last() == old(self).log()
                && final(self).log().last().message_id == envelope.message_id
                && final(self).log().last().delivered_to == old(self).device()
                && final(self).log().last().status == (if published is Ok { ReceiptStatus::Queued } else { ReceiptStatus::Failed }),
            final(self).initialized() == old(self).initialized(),
            final(self).device() == old(self).device(),
    {
        if self.identity.is_none() {
            return Err(PipelineError::NotInitialized);
        }
        let message_id = envelope.message_id;
        let queued_at_ms = now_ms();
        self.queue.enqueue(envelope);
        let status = match published {
            Ok(()) => ReceiptStatus::Queued,
            Err(_) => ReceiptStatus::Failed,
        };
        let receipt = MessageReceipt::new(message_id, self.local_device, status);
        self.add_receipt(receipt);
        assert(self.log().drop_last() =~= old(self).log());
        Ok(SendMessageResponse { message_id, queued_at_ms })
    }

    /// Opens an inbound envelope (see [`unwrap_envelope`]) and logs a
    /// `Delivered` receipt when it opened; a failure logs nothing.
    pub fn receive_envelope(&mut self, envelope: &TransportEnvelope, decrypted: Result<Vec<u8>, CryptoError>) -> (r: Result<PlaintextMessage, PipelineError>)
        ensures
            !old(self).initialized() ==> r is Err && r->Err_0 is NotInitialized,
            old(self).initialized() ==> unwrapped(envelope, decrypted, r),
            r is Ok ==> final(self).log() == old(self).log().push(MessageReceipt {
                message_id: r->Ok_0.message_id,
                delivered_to: old(self).device(),
                delivered_at_ms: final(self).log().last().delivered_at_ms,
                status: ReceiptStatus::Delivered,
            }),
            r is Err ==> final(self).log() == old(self).log(),
            final(self).queued() == old(self).queued(),
            final(self).initialized() == old(self).initialized(),
            final(self).device() == old(self).device(),
    {
        if self.identity.is_none() {
            return Err(PipelineError::NotInitialized);
        }
        let opened = unwrap_envelope(envelope, decrypted);
        match opened {
            Ok(m) => {
                let receipt = MessageReceipt::new(m.message_id, self.local_device, ReceiptStatus::Delivered);
                self.add_receipt(receipt);
                Ok(m)
            },
            Err(e) => Err(e),
        }
    }

    /// Logs that a message reached the overlay.
    pub fn mark_sent(&mut self, message_id: u128)
        ensures
            final(self).log().drop_last() == old(self).log(),
            final(self).log().len() == old(self).log().len() + 1,
            final(self).log().last().message_id == message_id,
            final(self).log().last().status == ReceiptStatus::Sent,
            final(self).log().last().delivered_to == old(self).device(),
            final(self).queued() == old(self).queued(),
            final(self).initialized() == old(self).initialized(),
            final(self).device() == old(self).device(),
    {
        let receipt = MessageReceipt::new(message_id, self.local_device, ReceiptStatus::Sent);
        self.add_receipt(receipt);
        assert(self.log().drop_last() =~= old(self).log());
    }

    /// Logs that delivering a message failed.
    pub fn mark_failed(&mut self, message_id: u128)
        ensures
            final(self).log().drop_last() == old(self).log(),
            final(self).log().len() == old(self).log().len() + 1,
            final(self).log().last().message_id == message_id,
            final(self).log().last().status == ReceiptStatus::Failed,
            final(self).log().last().delivered_to == old(self).device(),
            final(self).queued() == old(self).queued(),
            final(self).initialized() == old(self).initialized(),
            final(self).device() == old(self).device(),
    {
        let receipt = MessageReceipt::new(message_id, self.local_device, ReceiptStatus::Failed);
        self.add_receipt(receipt);
        assert(self.log().drop_last() =~= old(self).log());
    }

    /// The receipts of one message, oldest first (possibly none).
    pub fn get_receipts(&self, message_id: u128) -> (r: Vec<MessageReceipt>)
        ensures
            r@ == receipts_for(self.log(), message_id),
    {
        let mut out: Vec<MessageReceipt> = Vec::new();
        let mut i: usize = 0;
        while i < self.receipts.len()
            invariant
                0 <= i <= self.receipts@.len(),
                out@ == receipts_for(self.receipts@.subrange(0, i as int), message_id),
            decreases self.receipts@.len() - i,
        {
            let receipt = self.receipts[i];
            proof {
                let pre = self.receipts@.subrange(0, i as int);
                assert(self.receipts@.subrange(0, i + 1) =~= pre.push(receipt));
                pre.lemma_filter_push(receipt, |r: MessageReceipt| r.message_id == message_id);
            }
            if receipt.message_id == message_id {
                out.push(receipt);
            }
            i = i + 1;
        }
        assert(self.receipts@.subrange(0, self.receipts@.len() as int) =~= self.receipts@);
        out
    }

    /// The outbound queue.
    pub fn queue(&self) -> (r: &MessageQueue)
        ensures
            r.ids() == self.queued(),
    {
        &self.queue
    }

    /// The fingerprint of the installed identity.
    pub fn identity(&self) -> (r: Option<&String>)
        ensures
            r is Some <==> self.initialized(),
            r is Some ==> r->0@ == self.identity_view()->0,
    {
        match &self.identity {
            Some(fp) => Some(fp),
            None => None,
        }
    }

    pub closed spec fn settings(&self) -> PipelineConfig {
        self.config
    }

    pub fn config(&self) -> (r: PipelineConfig)
        ensures
            r == self.settings(),
    {
        self.config
    }
}

} // verus!
