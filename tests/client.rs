use cryptochat::client::{
    delete_group, format_fingerprint, frame_len, frame_message, generate_identicon, is_contact, update_contact_name,
    upsert_simple_contact, Conversation, Emote, EmoteManager, Group, GroupSettings, InvitePermission, QrError, QrPayload,
    SimpleContact, StoredKey,
};
use cryptochat::messages::{ConversationId, DeviceId};
use cryptochat::onboarding::{Contact, KeyBundle, KeyExchangeRequest, KeyExchangeResponse, MessageRequest, RequestStatus, SasVerification, TrustRecord, TrustStatus};
use cryptochat::service::{echo, health_check, EchoPayload};

#[test]
fn test_trust_record_lifecycle() {
    let device_id = DeviceId::new();
    let mut record = TrustRecord::new_unverified(device_id, "ABC123".to_string());

    assert_eq!(record.status, TrustStatus::Unverified);
    assert!(!record.is_verified());

    record.mark_verified();
    assert_eq!(record.status, TrustStatus::Verified);
    assert!(record.is_verified());
    assert!(record.verified_at_ms.is_some());

    record.mark_changed();
    assert_eq!(record.status, TrustStatus::Changed);
    assert!(!record.is_verified());
}

#[test]
fn test_sas_generation_is_deterministic() {
    let fp1 = "ABCD1234";
    let fp2 = "EFGH5678";

    let sas1 = SasVerification::generate(fp1, fp2);
    let sas2 = SasVerification::generate(fp1, fp2);

    assert_eq!(sas1.sas_words, sas2.sas_words);
}

#[test]
fn test_sas_verification() {
    let fp1 = "ABCD1234";
    let fp2 = "EFGH5678";

    let sas = SasVerification::generate(fp1, fp2);
    assert!(sas.verify(&sas.sas_words));
    assert!(!sas.verify(&vec!["wrong".to_string()]));
}

#[test]
fn sas_words_have_the_expected_shape() {
    let sas = SasVerification::generate("A", "B");
    assert_eq!(sas.sas_words.len(), 6);
    assert!(sas.sas_words.iter().all(|w| w.starts_with("word_") && w.chars().count() == 6));
    let other = SasVerification::generate("B", "A");
    assert_ne!(sas.sas_words, other.sas_words);
}

#[test]
fn test_request_lifecycle() {
    let conv_id = ConversationId::new();
    let device_id = DeviceId::new();

    let mut request = MessageRequest::new(
        conv_id,
        "ABC123".to_string(),
        device_id,
        "-----BEGIN PGP PUBLIC KEY BLOCK-----".to_string(),
        Some("Hello!".to_string()),
    );

    assert!(request.is_pending());

    request.accept();
    assert_eq!(request.status, RequestStatus::Accepted);
    assert!(!request.is_pending());
}

#[test]
fn test_contact_from_request() {
    let conv_id = ConversationId::new();
    let device_id = DeviceId::new();

    let request = MessageRequest::new(
        conv_id.clone(),
        "ABC123".to_string(),
        device_id,
        "-----BEGIN PGP PUBLIC KEY BLOCK-----".to_string(),
        None,
    );

    let contact = Contact::from_request(&request);
    assert_eq!(contact.fingerprint, "ABC123");
    assert_eq!(contact.last_conversation_id, Some(conv_id));
}

#[test]
fn rejected_request_is_not_pending() {
    let mut request = MessageRequest::new(ConversationId(1), "F".to_string(), DeviceId(2), "K".to_string(), None);
    request.reject();
    assert_eq!(request.status, RequestStatus::Rejected);
    assert!(!request.is_pending());
}

fn contact(name: &str, fp: &str) -> SimpleContact {
    SimpleContact { name: name.to_string(), fingerprint: fp.to_string(), public_key: "K".to_string(), address: "A".to_string() }
}

#[test]
fn upsert_replaces_same_fingerprint() {
    let mut contacts = vec![contact("a", "F1"), contact("b", "F2"), contact("c", "F1")];
    upsert_simple_contact(&mut contacts, contact("d", "F1"));
    let names: Vec<&str> = contacts.iter().map(|c| c.name.as_str()).collect();
    assert_eq!(names, vec!["b", "d"]);
    assert!(is_contact(&contacts, "F2"));
    assert!(!is_contact(&contacts, "F3"));
}

#[test]
fn update_contact_name_renames_first_match() {
    let mut contacts = vec![contact("a", "F1"), contact("b", "F2")];
    assert!(update_contact_name(&mut contacts, "F2", "bee"));
    assert_eq!(contacts[1].name, "bee");
    assert!(!update_contact_name(&mut contacts, "F2", "bee"));
    assert!(!update_contact_name(&mut contacts, "F9", "x"));
    assert_eq!(contacts[0].name, "a");
}

fn group(id: &str) -> Group {
    Group {
        id: id.to_string(),
        name: "g".to_string(),
        created_at: "2024-01-01T00:00:00Z".to_string(),
        creator_fingerprint: "F".to_string(),
        members: Vec::new(),
        admins: vec!["F".to_string()],
        settings: GroupSettings { invite_permission: InvitePermission::AdminsOnly, max_members: None, disappearing_timer_secs: None },
        symmetric_key: vec![0u8; 32],
    }
}

#[test]
fn delete_group_keeps_the_others() {
    let mut groups = vec![group("a"), group("b"), group("a"), group("c")];
    delete_group(&mut groups, "a");
    let ids: Vec<&str> = groups.iter().map(|g| g.id.as_str()).collect();
    assert_eq!(ids, vec!["b", "c"]);
}

#[test]
fn format_fingerprint_groups_by_four() {
    assert_eq!(format_fingerprint("ABCDEFGH12"), "ABCD EFGH 12");
    assert_eq!(format_fingerprint("ABCD"), "ABCD");
    assert_eq!(format_fingerprint(""), "");
}

#[test]
fn identicon_is_mirrored_and_deterministic() {
    let grid = generate_identicon("A");
    // 'A' is 0x41: bit 0 set, bits 1 and 2 clear.
    for row in grid.iter() {
        assert_eq!(row, &[true, false, false, false, true]);
    }
    let g = generate_identicon("0123456789ABCDEF");
    for row in 0..5 {
        for col in 0..5 {
            assert_eq!(g[row][col], g[row][4 - col]);
        }
    }
    assert_eq!(g, generate_identicon("0123456789ABCDEF"));
}

#[test]
fn qr_payload_validation() {
    let fp = "0123456789abcdef0123456789ABCDEF01234567".to_string();
    let pk = "-----BEGIN PGP PUBLIC KEY BLOCK-----\nxyz".to_string();
    let key = Some(fp.as_str());
    let payload = QrPayload::from_parts(1, fp.clone(), pk.clone(), 1_000, "sig".to_string());
    assert_eq!(payload.validate(1_000, key, true), Ok(()));
    assert_eq!(payload.validate(1_300, key, true), Ok(()));
    assert_eq!(payload.validate(1_301, key, true), Err(QrError::Expired(301)));
    assert_eq!(payload.validate(999, key, true), Err(QrError::FromTheFuture));
    let v2 = QrPayload::from_parts(2, fp.clone(), pk.clone(), 1_000, "sig".to_string());
    assert_eq!(v2.validate(1_000, key, true), Err(QrError::UnsupportedVersion(2)));
    let bad_fp = QrPayload::from_parts(1, "XYZ".to_string(), pk.clone(), 1_000, "sig".to_string());
    assert_eq!(bad_fp.validate(1_000, Some("XYZ"), true), Err(QrError::InvalidFingerprint));
    let bad_pk = QrPayload::from_parts(1, fp.clone(), "hello".to_string(), 1_000, "sig".to_string());
    assert_eq!(bad_pk.validate(1_000, key, true), Err(QrError::InvalidPublicKey));
    let fresh = QrPayload::new(fp.clone(), pk, "s".to_string());
    assert_eq!(fresh.public_key(), "-----BEGIN PGP PUBLIC KEY BLOCK-----\nxyz");
    assert_eq!(fresh.version(), 1);
}

#[test]
fn qr_payload_needs_matching_key_and_signature() {
    let fp = "0123456789abcdef0123456789ABCDEF01234567".to_string();
    let pk = "-----BEGIN PGP PUBLIC KEY BLOCK-----\nxyz".to_string();
    let forged = QrPayload::from_parts(1, fp.clone(), pk, 1_000, "!".to_string());
    assert_eq!(forged.validate(1_000, Some(fp.as_str()), false), Err(QrError::BadSignature));
    assert_eq!(forged.validate(1_000, None, true), Err(QrError::UnreadableKey));
    assert_eq!(
        forged.validate(1_000, Some("FFFFFFFFFFFFFFFFFFFFFFFFFFFFFFFFFFFFFFFF"), true),
        Err(QrError::FingerprintMismatch)
    );
}

#[test]
fn message_frames_carry_their_length() {
    let framed = frame_message(b"hello");
    assert_eq!(framed, vec![0, 0, 0, 5, b'h', b'e', b'l', b'l', b'o']);
    assert_eq!(frame_len([0, 0, 1, 2]), 258);
    assert_eq!(frame_len([framed[0], framed[1], framed[2], framed[3]]), 5);
}

#[test]
fn emote_lookup_by_name() {
    let manager = EmoteManager {
        library: vec![Emote { name: "cat".to_string(), hash: "h1".to_string(), extension: "png".to_string() }],
        cache: Vec::new(),
        base_path: ".".to_string(),
    };
    let cat = manager.get_emote_by_name("cat").unwrap();
    assert_eq!(cat.hash, "h1");
    assert!(manager.get_emote_by_name("dog").is_none());
}

#[test]
fn new_conversation_is_empty() {
    let c = Conversation::new("id".to_string(), "Bob".to_string(), Some("127.0.0.1:1".to_string()));
    assert_eq!(c.name, "Bob");
    assert!(c.messages.is_empty());
    assert_eq!(c.unread_count, 0);
    let key = StoredKey::new("S".to_string(), "P".to_string(), "F".to_string());
    assert_eq!(key.fingerprint, "F");
}

#[test]
fn echo_and_health_bodies() {
    let r = echo(EchoPayload { message: "ping".to_string() }, "b1");
    assert_eq!(r.echoed, "ping");
    assert_eq!(r.build_id, "b1");
    let h = health_check("b2");
    assert_eq!(h.status, "ok");
    assert_eq!(h.build_id, "b2");
}

#[test]
fn key_exchange_records_carry_their_inputs() {
    let request = KeyExchangeRequest::new("alice@example.com".to_string(), DeviceId(1), "-----BEGIN PGP PUBLIC KEY BLOCK-----".to_string());
    assert!(request.public_key_armored.contains("BEGIN PGP PUBLIC KEY BLOCK"));
    let response = KeyExchangeResponse::new(request.request_id, "bob".to_string(), DeviceId(2), "K".to_string(), "FP".to_string());
    assert_eq!(response.request_id, request.request_id);
    let bundle = KeyBundle::new("carol".to_string(), DeviceId(3), "K".to_string(), "ABCD".to_string());
    assert!(bundle.fingerprint_matches("ABCD"));
    assert!(!bundle.fingerprint_matches("ABCE"));
}

#[test]
fn delivery_receipt_names_message_and_device() {
    let receipt = cryptochat::messages::DeliveryReceipt::new(5, 6);
    assert_eq!(receipt.message_id, 5);
    assert_eq!(receipt.delivered_to, 6);
    assert!(receipt.timestamp_ms > 0);
}
