//! Trust establishment and message requests: trust records, short
//! authentication strings, and requests from contacts not yet accepted.

use vstd::prelude::*;
use crate::keys::{fingerprint_text, Fingerprint};
use crate::messages::{new_uuid, now_ms, ConversationId, DeviceId};
use vstd::string::StrSliceExecFns;

verus! {

/// Trust status of a peer's key.
#[derive(Debug, Clone, Copy, PartialEq, Eq, Structural)]
pub enum TrustStatus {
    /// Not yet verified by the user.
    Unverified,
    /// Verified out of band (QR code, SAS).
    Verified,
    /// Verified before, but the key has changed since.
    Changed,
}

/// Trust in one device's key.
#[derive(Debug)]
pub struct TrustRecord {
    pub device_id: DeviceId,
    pub fingerprint: String,
    pub status: TrustStatus,
    pub verified_at_ms: Option<i64>,
}

impl TrustRecord {
    pub fn new_unverified(device_id: DeviceId, fingerprint: String) -> (r: TrustRecord)
        ensures
            r.device_id == device_id,
            r.fingerprint@ == fingerprint@,
            r.status == TrustStatus::Unverified,
            r.verified_at_ms is None,
    {
        TrustRecord { device_id, fingerprint, status: TrustStatus::Unverified, verified_at_ms: None }
    }

    /// Marks the key verified, now.
    pub fn mark_verified(&mut self)
        ensures
            final(self).status == TrustStatus::Verified,
            final(self).verified_at_ms is Some,
            final(self).device_id == old(self).device_id,
            final(self).fingerprint@ == old(self).fingerprint@,
    {
        self.status = TrustStatus::Verified;
        self.verified_at_ms = Some(now_ms());
    }

    /// Marks the key as changed since it was verified.
    pub fn mark_changed(&mut self)
        ensures
            final(self).status == TrustStatus::Changed,
            final(self).verified_at_ms == old(self).verified_at_ms,
            final(self).device_id == old(self).device_id,
            final(self).fingerprint@ == old(self).fingerprint@,
    {
        self.status = TrustStatus::Changed;
    }

    pub fn is_verified(&self) -> (r: bool)
        ensures
            r <==> self.status == TrustStatus::Verified,
    {
        self.status == TrustStatus::Verified
    }
}

/// Number of words in a short authentication string.
pub const SAS_WORDS: usize = 6;

/// The words of the short authentication string of two fingerprints: one
/// word `word_<c>` for each of the first six characters `c` of the
/// fingerprint text of the two fingerprints written one after the other.
pub open spec fn sas_words_of(local: Seq<char>, remote: Seq<char>) -> Seq<Seq<char>> {
    let h = fingerprint_text(vstd::utf8::encode_utf8(local + remote));
    let n = if h.len() < SAS_WORDS { h.len() as int } else { SAS_WORDS as int };
    Seq::new(n as nat, |i: int| "word_"@ + seq![h[i]])
}

/// Short authentication string for comparing two fingerprints out of band.
#[derive(Debug)]
pub struct SasVerification {
    pub local_fingerprint: String,
    pub remote_fingerprint: String,
    pub sas_words: Vec<String>,
}

/// The texts of a list of strings.
pub open spec fn texts(v: Seq<String>) -> Seq<Seq<char>> {
    v.map_values(|s: String| s@)
}

impl SasVerification {
    /// The short authentication string of two fingerprints.
    pub fn generate(local_fingerprint: &str, remote_fingerprint: &str) -> (r: SasVerification)
        ensures
            r.local_fingerprint@ == local_fingerprint@,
            r.remote_fingerprint@ == remote_fingerprint@,
            texts(r.sas_words@) == sas_words_of(local_fingerprint@, remote_fingerprint@),
    {
        let combined = String::from_str(local_fingerprint).concat(remote_fingerprint);
        let hash = Fingerprint::from_public_key(combined.as_str().as_bytes());
        let text = hash.as_str();
        let len = text.unicode_len();
        let n = if len < SAS_WORDS { len } else { SAS_WORDS };
        let mut words: Vec<String> = Vec::new();
        let mut i: usize = 0;
        while i < n
            invariant
                0 <= i <= n,
                n <= text@.len(),
                text@ == fingerprint_text(vstd::utf8::encode_utf8(local_fingerprint@ + remote_fingerprint@)),
                n == (if text@.len() < SAS_WORDS { text@.len() as int } else { SAS_WORDS as int }),
                texts(words@) == sas_words_of(local_fingerprint@, remote_fingerprint@).subrange(0, i as int),
            decreases n - i,
        {
            let c = text.substring_char(i, i + 1);
            let word = String::from_str("word_").concat(c);
            assert(c@ =~= seq![text@[i as int]]);
            let ghost before = words@;
            words.push(word);
            assert(texts(words@) =~= texts(before).push(word@));
            i = i + 1;
            assert(texts(words@) =~= sas_words_of(local_fingerprint@, remote_fingerprint@).subrange(0, i as int));
        }
        assert(sas_words_of(local_fingerprint@, remote_fingerprint@).subrange(0, n as int) =~= sas_words_of(local_fingerprint@, remote_fingerprint@));
        SasVerification {
            local_fingerprint: String::from_str(local_fingerprint),
            remote_fingerprint: String::from_str(remote_fingerprint),
            sas_words: words,
        }
    }

    /// Whether another short authentication string equals this one.
    pub fn verify(&self, other_sas: &[String]) -> (r: bool)
        ensures
            r <==> texts(self.sas_words@) == texts(other_sas@),
    {
        if self.sas_words.len() != other_sas.len() {
            proof {
                assert(texts(self.sas_words@).len() != texts(other_sas@).len());
            }
            return false;
        }
        let mut i: usize = 0;
        while i < other_sas.len()
            invariant
                0 <= i <= other_sas@.len(),
                self.sas_words@.len() == other_sas@.len(),
                forall|j: int| 0 <= j < i ==> self.sas_words@[j]@ == other_sas@[j]@,
            decreases other_sas@.len() - i,
        {
            if self.sas_words[i] != other_sas[i] {
                proof {
                    assert(texts(self.sas_words@)[i as int] != texts(other_sas@)[i as int]);
                }
                return false;
            }
            i = i + 1;
        }
        assert(texts(self.sas_words@) =~= texts(other_sas@));
        true
    }
}

/// Request to exchange public keys during onboarding.
#[derive(Debug)]
pub struct KeyExchangeRequest {
    pub request_id: u128,
    pub device_id: DeviceId,
    pub user_id: String,
    pub public_key_armored: String,
    pub timestamp_ms: i64,
}

impl KeyExchangeRequest {
    /// A request under a fresh id, stamped now, carrying the exported public key.
    pub fn new(user_id: String, device_id: DeviceId, public_key_armored: String) -> (r: KeyExchangeRequest)
        ensures
            r.user_id@ == user_id@,
            r.device_id == device_id,
            r.public_key_armored@ == public_key_armored@,
    {
        KeyExchangeRequest { request_id: new_uuid(), device_id, user_id, public_key_armored, timestamp_ms: now_ms() }
    }
}

/// Answer to a key exchange request, with the peer's public key and fingerprint.
#[derive(Debug)]
pub struct KeyExchangeResponse {
    pub request_id: u128,
    pub device_id: DeviceId,
    pub user_id: String,
    pub public_key_armored: String,
    pub fingerprint: String,
    pub timestamp_ms: i64,
}

impl KeyExchangeResponse {
    /// The answer to request `request_id`, stamped now.
    pub fn new(request_id: u128, user_id: String, device_id: DeviceId, public_key_armored: String, fingerprint: String) -> (r: KeyExchangeResponse)
        ensures
            r.request_id == request_id,
            r.user_id@ == user_id@,
            r.device_id == device_id,
            r.public_key_armored@ == public_key_armored@,
            r.fingerprint@ == fingerprint@,
    {
        KeyExchangeResponse { request_id, device_id, user_id, public_key_armored, fingerprint, timestamp_ms: now_ms() }
    }
}

/// Key material and metadata needed to establish trust in a device.
#[derive(Debug)]
pub struct KeyBundle {
    pub user_id: String,
    pub device_id: DeviceId,
    pub public_key_armored: String,
    pub fingerprint: String,
    pub created_at_ms: i64,
}

impl KeyBundle {
    /// A bundle created now.
    pub fn new(user_id: String, device_id: DeviceId, public_key_armored: String, fingerprint: String) -> (r: KeyBundle)
        ensures
            r.user_id@ == user_id@,
            r.device_id == device_id,
            r.public_key_armored@ == public_key_armored@,
            r.fingerprint@ == fingerprint@,
    {
        KeyBundle { user_id, device_id, public_key_armored, fingerprint, created_at_ms: now_ms() }
    }

    /// Whether the fingerprint computed from the bundle's public key is the
    /// one the bundle claims.
    pub fn fingerprint_matches(&self, computed: &str) -> (r: bool)
        ensures
            r <==> computed@ == self.fingerprint@,
    {
        String::from_str(computed) == self.fingerprint
    }
}

/// Status of a message request.
#[derive(Debug, Clone, Copy, PartialEq, Eq, Structural)]
pub enum RequestStatus {
    /// Waiting for the recipient to accept or reject it.
    Pending,
    Accepted,
    /// Rejected or blocked.
    Rejected,
}

/// A first message from a sender who is not a contact yet.
#[derive(Debug)]
pub struct MessageRequest {
    pub request_id: u128,
    pub conversation_id: ConversationId,
    /// Fingerprint of the sender's key.
    pub sender_fingerprint: String,
    pub sender_device: DeviceId,
    /// The sender's armored public key.
    pub sender_public_key: String,
    pub created_ms: i64,
    pub status: RequestStatus,
    pub status_updated_ms: i64,
    /// Preview of the first message.
    pub first_message_preview: Option<String>,
}

impl MessageRequest {
    /// A pending request, created now under a fresh id.
    pub fn new(
        conversation_id: ConversationId,
        sender_fingerprint: String,
        sender_device: DeviceId,
        sender_public_key: String,
        first_message_preview: Option<String>,
    ) -> (r: MessageRequest)
        ensures
            r.conversation_id == conversation_id,
            r.sender_fingerprint@ == sender_fingerprint@,
            r.sender_device == sender_device,
            r.sender_public_key@ == sender_public_key@,
            r.status == RequestStatus::Pending,
            r.status_updated_ms == r.created_ms,
            r.first_message_preview == first_message_preview,
    {
        let now = now_ms();
        MessageRequest {
            request_id: new_uuid(),
            conversation_id,
            sender_fingerprint,
            sender_device,
            sender_public_key,
            created_ms: now,
            status: RequestStatus::Pending,
            status_updated_ms: now,
            first_message_preview,
        }
    }

    pub fn accept(&mut self)
        ensures
            final(self).status == RequestStatus::Accepted,
            final(self).request_id == old(self).request_id,
            final(self).conversation_id == old(self).conversation_id,
            final(self).sender_fingerprint@ == old(self).sender_fingerprint@,
            final(self).sender_public_key@ == old(self).sender_public_key@,
            final(self).created_ms == old(self).created_ms,
    {
        self.status = RequestStatus::Accepted;
        self.status_updated_ms = now_ms();
    }

    pub fn reject(&mut self)
        ensures
            final(self).status == RequestStatus::Rejected,
            final(self).request_id == old(self).request_id,
            final(self).conversation_id == old(self).conversation_id,
            final(self).sender_fingerprint@ == old(self).sender_fingerprint@,
            final(self).sender_public_key@ == old(self).sender_public_key@,
            final(self).created_ms == old(self).created_ms,
    {
        self.status = RequestStatus::Rejected;
        self.status_updated_ms = now_ms();
    }

    pub fn is_pending(&self) -> (r: bool)
        ensures
            r <==> self.status == RequestStatus::Pending,
    {
        self.status == RequestStatus::Pending
    }
}

/// A contact, made from an accepted request.
#[derive(Debug)]
pub struct Contact {
    /// Fingerprint of the contact's key (the contact's identity).
    pub fingerprint: String,
    /// The contact's armored public key.
    pub public_key: String,
    pub display_name: Option<String>,
    pub added_ms: i64,
    pub last_conversation_id: Option<ConversationId>,
}

impl Contact {
    /// The contact that a request introduces, added now.
    pub fn from_request(request: &MessageRequest) -> (r: Contact)
        ensures
            r.fingerprint@ == request.sender_fingerprint@,
            r.public_key@ == request.sender_public_key@,
            r.display_name is None,
            r.last_conversation_id == Some(request.conversation_id),
    {
        Contact {
            fingerprint: request.sender_fingerprint.clone(),
            public_key: request.sender_public_key.clone(),
            display_name: None,
            added_ms: now_ms(),
            last_conversation_id: Some(request.conversation_id),
        }
    }
}

} // verus!
