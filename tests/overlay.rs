use cryptochat::keys::CryptoError;
use cryptochat::messages::{encode_plaintext, decode_plaintext, ConversationId, DeviceId, PgpEnvelope, PlaintextMessage};
use cryptochat::overlay::{
    DiscoveryEvent, DiscoveryService, inbound_response, select_targets, OverlayConfig, OverlayError, ReplicationEngine, ResponseOutcome, SubscriptionManager,
};
use cryptochat::pipeline::{
    unwrap_envelope, MessagePipeline, MessageQueue, PipelineConfig, PipelineError, ReceiptStatus, TransportEnvelope,
};
use cryptochat::store::NodeStore;

fn message(id: u128, created_ms: i64, body: &[u8]) -> PlaintextMessage {
    PlaintextMessage {
        message_id: id,
        conversation_id: ConversationId(7),
        sender_device: DeviceId(9),
        created_ms,
        body: body.to_vec(),
    }
}

/// An envelope around `msg`, with the frame standing in for the ciphertext.
fn envelope(msg: &PlaintextMessage) -> TransportEnvelope {
    let frame = encode_plaintext(msg);
    let pgp = PgpEnvelope::from_ciphertext(msg, String::from("F1"), &frame);
    TransportEnvelope::new(DeviceId(11), pgp)
}

/// A peer id for a test name: the id of a fixed ed25519 key.
fn name(n: &str) -> String {
    let seed = match n {
        "alpha" => 1u8,
        "bravo" => 2,
        "charlie" => 3,
        _ => return n.to_string(),
    };
    libp2p::identity::Keypair::ed25519_from_bytes([seed; 32]).unwrap().public().to_peer_id().to_string()
}

fn peers(names: &[&str]) -> Vec<String> {
    names.iter().map(|s| name(s)).collect()
}

fn sorted(mut v: Vec<String>) -> Vec<String> {
    v.sort();
    v
}

#[test]
fn frame_round_trip() {
    let msg = message(0x0102_0304_0506_0708_090a_0b0c_0d0e_0f10, -5, b"hi");
    let bytes = encode_plaintext(&msg);
    assert_eq!(bytes.len(), 56 + 2);
    assert_eq!(&bytes[0..4], &[1, 2, 3, 4]);
    assert_eq!(&bytes[48..56], &(-5i64).to_be_bytes());
    let back = decode_plaintext(&bytes).unwrap();
    assert_eq!(back.message_id, msg.message_id);
    assert_eq!(back.created_ms, -5);
    assert_eq!(back.body, b"hi");
    assert!(decode_plaintext(&bytes[..55]).is_none());
}

#[test]
fn unwrap_returns_the_sealed_message() {
    let msg = message(1, 1000, b"hi");
    let env = envelope(&msg);
    let ciphertext = env.pgp_envelope.ciphertext().unwrap();
    let opened = unwrap_envelope(&env, Ok(ciphertext)).unwrap();
    assert_eq!(opened.body, vec![0x68, 0x69]);
    assert_eq!(opened.message_id, 1);
    assert_eq!(opened.conversation_id, ConversationId(7));
}

#[test]
fn tampered_header_is_invalid_envelope() {
    let msg = message(1, 1000, b"hi");
    let mut env = envelope(&msg);
    env.message_id = 2;
    let ciphertext = env.pgp_envelope.ciphertext().unwrap();
    assert!(matches!(unwrap_envelope(&env, Ok(ciphertext)), Err(PipelineError::InvalidEnvelope(_))));
}

#[test]
fn crypto_failure_is_passed_on() {
    let msg = message(1, 1000, b"hi");
    let env = envelope(&msg);
    assert!(matches!(
        unwrap_envelope(&env, Err(CryptoError::VerificationFailed)),
        Err(PipelineError::Crypto(CryptoError::VerificationFailed))
    ));
    assert!(matches!(unwrap_envelope(&env, Ok(vec![1, 2, 3])), Err(PipelineError::InvalidEnvelope(_))));
}

#[test]
fn reordered_envelopes_are_accepted() {
    let later = message(1, 2000, b"second");
    let earlier = message(2, 1000, b"first");
    for msg in [&later, &earlier] {
        let env = envelope(msg);
        let c = env.pgp_envelope.ciphertext().unwrap();
        assert!(unwrap_envelope(&env, Ok(c)).is_ok());
    }
}

#[test]
fn store_ack_semantics() {
    let mut store = NodeStore::new();
    let msg = message(5, 1, b"x");
    store.insert_outbound(5, envelope(&msg), &peers(&["alpha", "bravo", "charlie"]));
    assert!(!store.mark_peer_success(5, &name("bravo")));
    let pending = store.load_pending();
    assert_eq!(pending.len(), 1);
    let mut left = pending[0].pending_peers.clone();
    left.sort();
    assert_eq!(left, sorted(peers(&["alpha", "charlie"])));
    let record = store.outbound(5).unwrap();
    assert_eq!(record.acked_peers, peers(&["bravo"]));
    assert!(!store.mark_peer_success(5, &name("alpha")));
    assert!(store.mark_peer_success(5, &name("charlie")));
    assert!(store.load_pending().is_empty());
    assert!(store.mark_peer_success(5, &name("charlie")));
}

#[test]
fn insert_outbound_never_resurrects_acked_peer() {
    let mut store = NodeStore::new();
    let msg = message(5, 1, b"x");
    store.insert_outbound(5, envelope(&msg), &peers(&["alpha", "bravo"]));
    store.mark_peer_success(5, &name("alpha"));
    store.insert_outbound(5, envelope(&msg), &peers(&["alpha", "charlie"]));
    let mut left = store.load_pending()[0].pending_peers.clone();
    left.sort();
    left.dedup();
    assert_eq!(left, sorted(peers(&["bravo", "charlie"])));
}

#[test]
fn load_pending_returns_record_verbatim() {
    let mut store = NodeStore::new();
    let msg = message(8, 3, b"keep");
    let env = envelope(&msg);
    let payload = env.pgp_envelope.encrypted_payload.clone();
    store.insert_outbound(8, env, &peers(&["alpha"]));
    let pending = store.load_pending();
    assert_eq!(pending.len(), 1);
    assert_eq!(pending[0].message_id, 8);
    assert_eq!(pending[0].pending_peers, peers(&["alpha"]));
    assert_eq!(pending[0].envelope.pgp_envelope.encrypted_payload, payload);
    assert_eq!(pending[0].envelope.created_ms, 3);
}

#[test]
fn store_inbound_is_idempotent() {
    let mut store = NodeStore::new();
    let msg = message(3, 1, b"x");
    store.store_inbound(envelope(&msg), 10);
    store.store_inbound(envelope(&msg), 20);
    assert_eq!(store.inbound_count(), 1);
    assert_eq!(store.inbound(3).unwrap().stored_ms, 20);
    assert!(store.inbound(4).is_none());
}

#[test]
fn duplicate_delivery_keeps_one_record() {
    let mut engine = ReplicationEngine::new(NodeStore::new(), 3);
    let msg = message(3, 1, b"x");
    let first = engine.on_inbound(envelope(&msg), 10);
    let second = engine.on_inbound(envelope(&msg), 11);
    assert!(first.accepted && second.accepted);
    assert_eq!(engine.store().inbound_count(), 1);
    assert!(!inbound_response(false).accepted);
}

#[test]
fn publish_fans_out_to_first_targets() {
    let mut engine = ReplicationEngine::new(NodeStore::new(), 2);
    let msg = message(42, 1, b"x");
    let plan = engine.publish(&peers(&["alpha", "bravo", "charlie"]), envelope(&msg)).unwrap();
    assert_eq!(plan.targets, peers(&["alpha", "bravo"]));
    let sends = plan.sends;
    assert_eq!(sends, peers(&["alpha", "bravo"]));
    engine.request_sent(1, 42, sends[0].clone());
    engine.request_sent(2, 42, sends[1].clone());
    assert!(engine.in_flight(42, &name("alpha")));
    assert!(!engine.in_flight(42, &name("charlie")));
    // A second publish of the same message sends nothing new while both are in flight.
    let again = engine.publish(&peers(&["alpha", "bravo", "charlie"]), envelope(&msg)).unwrap();
    assert!(again.sends.is_empty());
}

#[test]
fn publish_without_peers_fails() {
    let mut engine = ReplicationEngine::new(NodeStore::new(), 3);
    let msg = message(42, 1, b"x");
    assert!(matches!(engine.publish(&Vec::new(), envelope(&msg)), Err(OverlayError::NoPeers)));
    assert!(engine.store().load_pending().is_empty());
}

#[test]
fn replication_factor_bounds_the_targets() {
    let t = select_targets(&peers(&["a", "b"]), 0).unwrap();
    assert!(t.is_empty());
    let t = select_targets(&peers(&["a", "b"]), 1).unwrap();
    assert_eq!(t, peers(&["a"]));
    let t = select_targets(&peers(&["a", "b"]), 5).unwrap();
    assert_eq!(t, peers(&["a", "b"]));
}

#[test]
fn ack_and_rejection_handling() {
    let mut engine = ReplicationEngine::new(NodeStore::new(), 2);
    let msg = message(42, 1, b"x");
    let sends = engine.publish(&peers(&["alpha", "bravo"]), envelope(&msg)).unwrap().sends;
    engine.request_sent(1, 42, sends[0].clone());
    engine.request_sent(2, 42, sends[1].clone());
    match engine.on_response(1, true) {
        ResponseOutcome::Acked { message_id, peer, complete } => {
            assert_eq!(message_id, 42);
            assert_eq!(peer, name("alpha"));
            assert!(!complete);
        }
        other => panic!("unexpected {:?}", other),
    }
    assert!(matches!(engine.on_response(1, true), ResponseOutcome::Unknown));
    assert!(matches!(engine.on_response(2, false), ResponseOutcome::Rejected { message_id: 42 }));
    // The refused peer stays pending and is planned on the next tick.
    let plan = engine.retry_plan();
    assert_eq!(plan.len(), 1);
    assert_eq!(plan[0].peer, name("bravo"));
}

#[test]
fn restart_then_retry_then_ack_empties_pending() {
    let mut store = NodeStore::new();
    let msg = message(77, 1, b"m");
    store.insert_outbound(77, envelope(&msg), &peers(&["alpha"]));
    // A fresh engine over the recovered store, as after a restart.
    let mut engine = ReplicationEngine::new(store, 3);
    let plan = engine.retry_plan();
    assert_eq!(plan.len(), 1);
    assert_eq!(plan[0].message_id, 77);
    assert_eq!(plan[0].peer, name("alpha"));
    engine.request_sent(9, 77, plan[0].peer.clone());
    assert!(engine.retry_plan().is_empty());
    assert!(matches!(engine.on_response(9, true), ResponseOutcome::Acked { complete: true, .. }));
    assert!(engine.store().load_pending().is_empty());
}

#[test]
fn failed_request_is_retried() {
    let mut engine = ReplicationEngine::new(NodeStore::new(), 1);
    let msg = message(5, 1, b"m");
    let sends = engine.publish(&peers(&["alpha"]), envelope(&msg)).unwrap().sends;
    engine.request_sent(3, 5, sends[0].clone());
    assert!(engine.retry_plan().is_empty());
    assert_eq!(engine.on_outbound_failure(3), Some(5));
    assert_eq!(engine.on_outbound_failure(3), None);
    assert_eq!(engine.retry_plan().len(), 1);
}

#[test]
fn overlay_config_defaults_and_builders() {
    let config = OverlayConfig::default();
    assert_eq!(config.replication_factor, 3);
    assert_eq!(config.retry_interval_ms, 30_000);
    assert_eq!(config.envelope_ttl_ms, 86_400_000);
    assert_eq!(config.max_connections, 128);
    assert_eq!(config.storage_path, "data/node");
    assert!(config.bootstrap_peers.is_empty());
    let config = config.with_storage_path(String::from("/tmp/x")).with_retry_interval(5);
    assert_eq!(config.storage_path, "/tmp/x");
    assert_eq!(config.retry_interval_ms, 5);
}

#[test]
fn subscriptions_get_increasing_ids() {
    let mut subs = SubscriptionManager::new();
    assert_eq!(subs.register().unwrap(), 0);
    assert_eq!(subs.register().unwrap(), 1);
}

#[test]
fn pipeline_send_and_receipts() {
    let mut pipeline = MessagePipeline::new(PipelineConfig::default(), DeviceId(1));
    let msg = message(10, 1, b"Hello Bob!");
    assert!(matches!(pipeline.send_message(envelope(&msg), Ok(())), Err(PipelineError::NotInitialized)));
    pipeline.set_keypair(String::from("FP"));
    let response = pipeline.send_message(envelope(&msg), Ok(())).unwrap();
    assert_eq!(response.message_id, 10);
    assert_eq!(pipeline.queue().len(), 1);
    let receipts = pipeline.get_receipts(10);
    assert_eq!(receipts.len(), 1);
    assert_eq!(receipts[0].status, ReceiptStatus::Queued);
    pipeline.mark_sent(10);
    pipeline.mark_failed(11);
    let receipts = pipeline.get_receipts(10);
    assert_eq!(receipts.len(), 2);
    assert_eq!(receipts[1].status, ReceiptStatus::Sent);
    assert!(pipeline.get_receipts(12).is_empty());
    let other = message(12, 1, b"x");
    pipeline.send_message(envelope(&other), Err(OverlayError::NoPeers)).unwrap();
    assert_eq!(pipeline.get_receipts(12)[0].status, ReceiptStatus::Failed);
    assert_eq!(PipelineConfig::default().max_retries, 3);
}

#[test]
fn pipeline_receive_emits_delivered() {
    let mut bob = MessagePipeline::new(PipelineConfig::default(), DeviceId(2));
    bob.set_keypair(String::from("BOB"));
    let msg = message(20, 1, b"hi");
    let env = envelope(&msg);
    let c = env.pgp_envelope.ciphertext().unwrap();
    let plaintext = bob.receive_envelope(&env, Ok(c)).unwrap();
    assert_eq!(plaintext.body, vec![0x68, 0x69]);
    let receipts = bob.get_receipts(20);
    assert_eq!(receipts.len(), 1);
    assert_eq!(receipts[0].status, ReceiptStatus::Delivered);
    assert_eq!(receipts[0].delivered_to, DeviceId(2));
    assert!(bob.receive_envelope(&env, Err(CryptoError::DecryptionFailed)).is_err());
    assert_eq!(bob.get_receipts(20).len(), 1);
}

#[test]
fn queue_enqueue_peek_remove() {
    let mut queue = MessageQueue::new();
    assert!(queue.is_empty());
    queue.enqueue(envelope(&message(1, 1, b"a")));
    queue.enqueue(envelope(&message(2, 1, b"b")));
    let peeked = queue.peek().unwrap();
    assert_eq!(peeked.envelope.message_id, 1);
    assert_eq!(peeked.attempts, 0);
    queue.mark_attempted(2);
    assert!(queue.remove(3).is_none());
    let removed = queue.remove(2).unwrap();
    assert_eq!(removed.attempts, 1);
    assert_eq!(queue.len(), 1);
    queue.clear();
    assert_eq!(queue.len(), 0);
}

#[test]
fn discovery_keeps_each_peer_once() {
    let mut discovery = DiscoveryService::new();
    assert!(matches!(discovery.insert_peer(name("alpha")), Some(DiscoveryEvent::PeerAdded(p)) if p == name("alpha")));
    assert!(discovery.insert_peer(name("alpha")).is_none());
    discovery.insert_peer(name("bravo"));
    assert_eq!(discovery.peers(), peers(&["alpha", "bravo"]));
    assert!(matches!(discovery.remove_peer(&name("alpha")), Some(DiscoveryEvent::PeerRemoved(_))));
    assert!(discovery.remove_peer(&name("alpha")).is_none());
    assert_eq!(discovery.peers(), peers(&["bravo"]));
}

#[test]
fn unparseable_peer_ids_are_filtered() {
    let mut store = NodeStore::new();
    let msg = message(6, 1, b"x");
    store.insert_outbound(6, envelope(&msg), &vec![String::from("not-a-peer"), name("alpha")]);
    let pending = store.load_pending();
    assert_eq!(pending.len(), 1);
    assert_eq!(pending[0].pending_peers, peers(&["alpha"]));
    let mut only_bad = NodeStore::new();
    only_bad.insert_outbound(7, envelope(&msg), &vec![String::from("not-a-peer")]);
    assert!(only_bad.load_pending().is_empty());
    assert!(only_bad.outbound(7).is_some());
}

#[test]
fn retry_plan_lists_each_pair_once() {
    let mut store = NodeStore::new();
    let msg = message(9, 1, b"m");
    store.insert_outbound(9, envelope(&msg), &peers(&["alpha", "alpha", "bravo"]));
    let engine = ReplicationEngine::new(store, 3);
    let plan = engine.retry_plan();
    let mut names: Vec<String> = plan.iter().map(|p| p.peer.clone()).collect();
    names.sort();
    assert_eq!(names, sorted(peers(&["alpha", "bravo"])));
}
