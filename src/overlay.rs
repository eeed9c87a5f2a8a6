//! The overlay's configuration, errors, and the replication decisions that
//! its event loop takes: which peers a publish goes to, which requests are in
//! flight, what an acknowledgement or a failure changes, and what a retry
//! tick re-sends.

use vstd::prelude::*;
use crate::pipeline::TransportEnvelope;
use crate::store::{acked_by, contains_peer, inserted_outbound, loaded_pending, peer_id_parses, peer_set, stored_inbound, usable, NodeStore, PendingEnvelope};

verus! {

/// Errors of the overlay.
#[derive(Debug)]
pub enum OverlayError {
    TransportNotInitialized,
    Transport(String),
    InvalidAddress(String),
    Discovery(String),
    Replication(String),
    Subscription(String),
    NoPeers,
    PublishChannelClosed,
    ShutdownRequested,
    NotImplemented,
}

/// Overlay settings. Durations are in milliseconds.
#[derive(Debug)]
pub struct OverlayConfig {
    /// Bootstrap peers, each as `"<multiaddr> <peer_id>"`.
    pub bootstrap_peers: Vec<String>,
    /// Number of peers each publish fans out to.
    pub replication_factor: usize,
    /// How long an envelope is kept for delivery.
    pub envelope_ttl_ms: u64,
    /// Most simultaneous connections.
    pub max_connections: usize,
    /// Directory of the replication store.
    pub storage_path: String,
    /// How often pending envelopes are re-sent.
    pub retry_interval_ms: u64,
}

impl Default for OverlayConfig {
    fn default() -> (r: OverlayConfig)
        ensures
            r.bootstrap_peers@.len() == 0,
            r.replication_factor == 3,
            r.envelope_ttl_ms == 86_400_000,
            r.max_connections == 128,
            r.storage_path@ == "data/node"@,
            r.retry_interval_ms == 30_000,
    {
        OverlayConfig {
            bootstrap_peers: Vec::new(),
            replication_factor: 3,
            envelope_ttl_ms: 86_400_000,
            max_connections: 128,
            storage_path: String::from_str("data/node"),
            retry_interval_ms: 30_000,
        }
    }
}

impl OverlayConfig {
    pub fn with_storage_path(self, path: String) -> (r: OverlayConfig)
        ensures
            r.storage_path@ == path@,
            r.bootstrap_peers@ == self.bootstrap_peers@,
            r.replication_factor == self.replication_factor,
            r.envelope_ttl_ms == self.envelope_ttl_ms,
            r.max_connections == self.max_connections,
            r.retry_interval_ms == self.retry_interval_ms,
    {
        OverlayConfig { storage_path: path, ..self }
    }

    pub fn with_retry_interval(self, interval_ms: u64) -> (r: OverlayConfig)
        ensures
            r.retry_interval_ms == interval_ms,
            r.storage_path@ == self.storage_path@,
            r.bootstrap_peers@ == self.bootstrap_peers@,
            r.replication_factor == self.replication_factor,
            r.envelope_ttl_ms == self.envelope_ttl_ms,
            r.max_connections == self.max_connections,
    {
        OverlayConfig { retry_interval_ms: interval_ms, ..self }
    }
}

/// Registry of overlay subscribers, each known by the id it was given.
#[derive(Debug)]
pub struct SubscriptionManager {
    subscribers: Vec<usize>,
}

impl SubscriptionManager {
    pub closed spec fn ids(&self) -> Seq<usize> {
        self.subscribers@
    }

    pub fn new() -> (r: SubscriptionManager)
        ensures
            r.ids() == Seq::<usize>::empty(),
    {
        SubscriptionManager { subscribers: Vec::new() }
    }

    /// Registers a subscriber under the next id: the number registered so far.
    pub fn register(&mut self) -> (r: Result<usize, OverlayError>)
        ensures
            r is Ok,
            r->Ok_0 == old(self).ids().len(),
            final(self).ids() == old(self).ids().push(r->Ok_0),
    {
        let id = self.subscribers.len();
        self.subscribers.push(id);
        Ok(id)
    }
}

/// Peers known to the overlay, kept from routing updates; each peer once,
/// in the order first seen.
#[derive(Debug)]
pub struct DiscoveryService {
    peers: Vec<String>,
}

/// A change of the known peer set.
#[derive(Debug)]
pub enum DiscoveryEvent {
    PeerAdded(String),
    PeerRemoved(String),
}

impl DiscoveryService {
    pub closed spec fn known(&self) -> Seq<Seq<char>> {
        crate::store::peer_texts(self.peers@)
    }

    /// No peer is listed twice.
    pub closed spec fn wf(&self) -> bool {
        forall|a: int, b: int| 0 <= a < b < self.known().len() ==> self.known()[a] != self.known()[b]
    }

    pub fn new() -> (r: DiscoveryService)
        ensures
            r.wf(),
            r.known() == Seq::<Seq<char>>::empty(),
    {
        let r = DiscoveryService { peers: Vec::new() };
        assert(r.known() =~= Seq::<Seq<char>>::empty());
        r
    }

    /// Adds a peer that routing reached; reports it when it is new.
    pub fn insert_peer(&mut self, peer: String) -> (r: Option<DiscoveryEvent>)
        requires
            old(self).wf(),
        ensures
            final(self).wf(),
            old(self).known().contains(peer@) ==> r is None && final(self).known() == old(self).known(),
            !old(self).known().contains(peer@) ==> (r matches Some(DiscoveryEvent::PeerAdded(p)) && p@ == peer@)
                && final(self).known() == old(self).known().push(peer@),
    {
        let present = crate::store::contains_peer(&self.peers, &peer);
        proof {
            crate::store::lemma_peer_set_contains(self.peers@, peer@);
            if self.known().contains(peer@) {
                let j = choose|j: int| 0 <= j < self.known().len() && self.known()[j] == peer@;
                assert(self.peers@[j]@ == peer@);
            }
            if present {
                let j = choose|j: int| 0 <= j < self.peers@.len() && self.peers@[j]@ == peer@;
                assert(self.known()[j] == peer@);
            }
        }
        if present {
            return None;
        }
        let event = DiscoveryEvent::PeerAdded(peer.clone());
        let ghost before = self.peers@;
        self.peers.push(peer);
        proof {
            assert(self.known() =~= crate::store::peer_texts(before).push(self.peers@.last()@));
        }
        Some(event)
    }

    /// Drops a peer that routing lost; reports it when it was known.
    pub fn remove_peer(&mut self, peer: &String) -> (r: Option<DiscoveryEvent>)
        requires
            old(self).wf(),
        ensures
            final(self).wf(),
            !old(self).known().contains(peer@) ==> r is None && final(self).known() == old(self).known(),
            old(self).known().contains(peer@) ==> (r matches Some(DiscoveryEvent::PeerRemoved(p)) && p@ == peer@)
                && final(self).known() == old(self).known().remove_value(peer@),
    {
        let mut i: usize = 0;
        while i < self.peers.len()
            invariant
                *self == *old(self),
                old(self).wf(),
                0 <= i <= self.peers@.len(),
                forall|j: int| 0 <= j < i ==> self.peers@[j]@ != peer@,
            decreases self.peers@.len() - i,
        {
            if self.peers[i] == *peer {
                let ghost before = self.known();
                self.peers.remove(i);
                proof {
                    assert(before[i as int] == peer@);
                    assert(before.contains(peer@));
                    before.index_of_first_ensures(peer@);
                    assert(before.index_of_first(peer@) == Some(i as int));
                    assert(self.known() =~= before.remove(i as int));
                    assert forall|a: int, b: int| 0 <= a < b < self.known().len() implies self.known()[a] != self.known()[b] by {
                        let a2 = if a < i { a } else { a + 1 };
                        let b2 = if b < i { b } else { b + 1 };
                        assert(a2 < b2);
                        assert(before == old(self).known());
                        assert(old(self).known()[a2] != old(self).known()[b2]);
                        assert(self.known()[a] == before[a2] && self.known()[b] == before[b2]);
                    }
                }
                return Some(DiscoveryEvent::PeerRemoved(peer.clone()));
            }
            i = i + 1;
        }
        proof {
            if self.known().contains(peer@) {
                let j = choose|j: int| 0 <= j < self.known().len() && self.known()[j] == peer@;
                assert(self.peers@[j]@ == peer@);
            }
        }
        None
    }

    /// A snapshot of the known peers, in the order first seen.
    pub fn peers(&self) -> (r: Vec<String>)
        ensures
            crate::store::peer_texts(r@) == self.known(),
    {
        let r = crate::store::copy_peers(&self.peers);
        r
    }
}

/// Response to an inbound envelope request.
#[derive(Debug, Clone, Copy, PartialEq, Eq, Structural)]
pub struct EnvelopeResponse {
    pub accepted: bool,
}

/// The answer owed to an inbound envelope: accepted exactly when it was stored.
pub fn inbound_response(stored: bool) -> (r: EnvelopeResponse)
    ensures
        r.accepted == stored,
{
    EnvelopeResponse { accepted: stored }
}

/// The peers a publish goes to: the first `min(replication_factor, |peers|)`
/// known peers, in the order given; no peers is an error.
pub open spec fn targets_of(peers: Seq<String>, replication_factor: usize) -> Seq<String> {
    let n = replication_factor as int;
    peers.subrange(0, if n < peers.len() { n } else { peers.len() as int })
}

/// Picks the replication targets among the known peers.
pub fn select_targets(peers: &Vec<String>, replication_factor: usize) -> (r: Result<Vec<String>, OverlayError>)
    ensures
        peers@.len() == 0 ==> r is Err && r->Err_0 is NoPeers,
        peers@.len() > 0 ==> r is Ok && r->Ok_0@ == targets_of(peers@, replication_factor),
{
    if peers.len() == 0 {
        return Err(OverlayError::NoPeers);
    }
    let n = replication_factor;
    let mut out: Vec<String> = Vec::new();
    let mut i: usize = 0;
    while i < peers.len() && i < n
        invariant
            0 <= i <= peers@.len(),
            i <= n,
            n == replication_factor,
            out@ == peers@.subrange(0, i as int),
        decreases peers@.len() - i,
    {
        out.push(peers[i].clone());
        i = i + 1;
        assert(out@ =~= peers@.subrange(0, i as int));
    }
    Ok(out)
}

/// What a publish leads to: the peers the envelope was filed for, and
/// those of them a request goes to now.
#[derive(Debug)]
pub struct PublishPlan {
    pub targets: Vec<String>,
    pub sends: Vec<String>,
}

/// A request sent and not yet answered.
#[derive(Debug)]
pub struct InFlightRequest {
    pub request_id: u64,
    pub message_id: u128,
    pub peer: String,
}

/// A `(message, peer)` pair that a retry tick re-sends.
#[derive(Debug)]
pub struct RetrySend {
    pub message_id: u128,
    pub peer: String,
}

/// What an answer to an outbound request leads to.
#[derive(Debug)]
pub enum ResponseOutcome {
    /// The request is not known (already answered, or never sent).
    Unknown,
    /// The peer stored the envelope.
    Acked { message_id: u128, peer: String, complete: bool },
    /// The peer refused the envelope; it stays pending.
    Rejected { message_id: u128 },
}

/// Events published by the replication engine.
#[derive(Debug, Clone)]
pub enum ReplicationEvent {
    PublishQueued { message_id: u128 },
    PublishAck { message_id: u128, peer: String },
    PublishFailed { message_id: u128, reason: String },
    PublishRetry { message_id: u128, peer: String },
}

/// The replication decisions of the overlay event loop, over the
/// replication store and the table of requests in flight.
pub struct ReplicationEngine {
    store: NodeStore,
    in_flight: Vec<InFlightRequest>,
    replication_factor: usize,
}

/// The in-flight table as `(request id, message id, peer)` triples.
pub open spec fn flight_view(v: Seq<InFlightRequest>) -> Seq<(u64, u128, Seq<char>)> {
    v.map_values(|f: InFlightRequest| (f.request_id, f.message_id, f.peer@))
}

/// What [`ReplicationEngine::on_inbound`] does and answers.
pub open spec fn handled_inbound(
    before: &ReplicationEngine,
    after: &ReplicationEngine,
    envelope: TransportEnvelope,
    now_ms: i64,
    r: EnvelopeResponse,
) -> bool {
    &&& after.wf()
    &&& stored_inbound(&before.store_view(), &after.store_view(), envelope, now_ms)
    &&& after.flights() == before.flights()
    &&& after.factor() == before.factor()
    &&& r.accepted
}

/// What [`ReplicationEngine::on_outbound_failure`] does and returns.
pub open spec fn failed_request(before: &ReplicationEngine, after: &ReplicationEngine, request_id: u64, r: Option<u128>) -> bool {
    &&& after.wf()
    &&& after.store_view() == before.store_view()
    &&& after.factor() == before.factor()
    &&& r is None <==> !before.knows(request_id)
    &&& r is None ==> after.flights() == before.flights()
    &&& r is Some ==> exists|k: int| 0 <= k < before.flights().len() && before.flights()[k].0 == request_id
        && before.flights()[k].1 == r->0
        && after.flights() == before.flights().remove(k)
}

/// No `(message, peer)` pair appears twice.
pub open spec fn no_repeated_pair(r: Seq<RetrySend>) -> bool {
    forall|a: int, b: int| 0 <= a < b < r.len() ==> !(r[a].message_id == r[b].message_id && r[a].peer@ == r[b].peer@)
}

/// What [`ReplicationEngine::retry_plan`] returns: each owed pair, once.
pub open spec fn planned_retry(engine: &ReplicationEngine, r: Seq<RetrySend>) -> bool {
    &&& no_repeated_pair(r)
    &&& forall|m: u128, p: Seq<char>| #[trigger] sends_pair(r, m, p) <==> {
        &&& engine.store_view().outbound_map().dom().contains(m)
        &&& engine.store_view().outbound_map()[m].pending().contains(p)
        &&& peer_id_parses(p)
        &&& !engine.is_in_flight(m, p)
    }
}

/// Delivering the same envelope twice leaves one inbound record for its
/// message id, and both deliveries are accepted.
pub proof fn lemma_duplicate_delivery(
    e0: &ReplicationEngine,
    e1: &ReplicationEngine,
    e2: &ReplicationEngine,
    envelope: TransportEnvelope,
    t1: i64,
    t2: i64,
    r1: EnvelopeResponse,
    r2: EnvelopeResponse,
)
    requires
        handled_inbound(e0, e1, envelope, t1, r1),
        handled_inbound(e1, e2, envelope, t2, r2),
    ensures
        r1.accepted && r2.accepted,
        e2.store_view().inbound_map().dom() == e0.store_view().inbound_map().dom().insert(envelope.message_id),
        e2.store_view().inbound_map()[envelope.message_id].envelope == envelope,
{
    assert(e2.store_view().inbound_map().dom() =~= e0.store_view().inbound_map().dom().insert(envelope.message_id));
}

/// A failed request does not lose its message: when it was the only
/// request in flight for its `(message, peer)` pair and the peer is still
/// pending, the next retry tick re-sends the pair.
pub proof fn lemma_failed_request_retried(
    before: &ReplicationEngine,
    after: &ReplicationEngine,
    k: int,
    r: Option<u128>,
    plan: Seq<RetrySend>,
)
    requires
        0 <= k < before.flights().len(),
        forall|j: int| 0 <= j < before.flights().len() && j != k ==> !(before.flights()[j].1 == before.flights()[k].1 && before.flights()[j].2 == before.flights()[k].2),
        failed_request(before, after, before.flights()[k].0, r),
        after.store_view().outbound_map().dom().contains(before.flights()[k].1),
        after.store_view().outbound_map()[before.flights()[k].1].pending().contains(before.flights()[k].2),
        peer_id_parses(before.flights()[k].2),
        before.wf(),
        planned_retry(after, plan),
    ensures
        sends_pair(plan, before.flights()[k].1, before.flights()[k].2),
{
    let (req, m, p) = before.flights()[k];
    let k2 = choose|k2: int| 0 <= k2 < before.flights().len() && before.flights()[k2].0 == req
        && before.flights()[k2].1 == r->0 && after.flights() == before.flights().remove(k2);
    assert(k2 == k);
    if after.is_in_flight(m, p) {
        let j = choose|j: int| 0 <= j < after.flights().len() && after.flights()[j].1 == m && after.flights()[j].2 == p;
        let j2 = if j < k { j } else { j + 1 };
        assert(after.flights()[j] == before.flights()[j2]);
    }
}

impl ReplicationEngine {
    pub closed spec fn flights(&self) -> Seq<(u64, u128, Seq<char>)> {
        flight_view(self.in_flight@)
    }

    pub closed spec fn store_view(&self) -> NodeStore {
        self.store
    }

    pub closed spec fn factor(&self) -> usize {
        self.replication_factor
    }

    /// A request for `(message_id, peer)` is in flight.
    pub open spec fn is_in_flight(&self, message_id: u128, peer: Seq<char>) -> bool {
        exists|i: int| 0 <= i < self.flights().len() && self.flights()[i].1 == message_id && self.flights()[i].2 == peer
    }

    /// A request id is in the table.
    pub open spec fn knows(&self, request_id: u64) -> bool {
        exists|i: int| 0 <= i < self.flights().len() && self.flights()[i].0 == request_id
    }

    /// Request ids are unique and the store is well formed.
    pub closed spec fn wf(&self) -> bool {
        &&& self.store.wf()
        &&& forall|i: int, j: int| 0 <= i < j < self.flights().len() ==> self.flights()[i].0 != self.flights()[j].0
    }

    /// An engine over a store, as the runtime starts it.
    pub fn new(store: NodeStore, replication_factor: usize) -> (r: ReplicationEngine)
        requires
            store.wf(),
        ensures
            r.wf(),
            r.flights() == Seq::<(u64, u128, Seq<char>)>::empty(),
            r.store_view() == store,
            r.factor() == replication_factor,
    {
        let r = ReplicationEngine { store, in_flight: Vec::new(), replication_factor };
        assert(r.flights() =~= Seq::<(u64, u128, Seq<char>)>::empty());
        r
    }

    /// The number of peers a publish fans out to.
    pub fn replication_factor(&self) -> (r: usize)
        ensures
            r == self.factor(),
    {
        self.replication_factor
    }

    /// The replication store.
    pub fn store(&self) -> (r: &NodeStore)
        ensures
            *r == self.store_view(),
    {
        &self.store
    }

    /// Whether a request for `(message_id, peer)` is in flight.
    pub fn in_flight(&self, message_id: u128, peer: &String) -> (r: bool)
        ensures
            r == self.is_in_flight(message_id, peer@),
    {
        let mut i: usize = 0;
        while i < self.in_flight.len()
            invariant
                0 <= i <= self.in_flight@.len(),
                self.flights().len() == self.in_flight@.len(),
                forall|j: int| 0 <= j < i ==> !(self.flights()[j].1 == message_id && self.flights()[j].2 == peer@),
            decreases self.in_flight@.len() - i,
        {
            proof { assert(self.flights()[i as int] == (self.in_flight@[i as int].request_id, self.in_flight@[i as int].message_id, self.in_flight@[i as int].peer@)); }
            if self.in_flight[i].message_id == message_id && self.in_flight[i].peer == *peer {
                return true;
            }
            i = i + 1;
        }
        false
    }

    /// The targets to which a request goes now: those of `targets` not in
    /// flight for the message, each once.
    pub fn plan_sends(&self, message_id: u128, targets: &Vec<String>) -> (r: Vec<String>)
        ensures
            peer_set(r@) == peer_set(targets@).filter(|p: Seq<char>| !self.is_in_flight(message_id, p)),
            forall|a: int, b: int| 0 <= a < b < r@.len() ==> r@[a]@ != r@[b]@,
    {
        let mut out: Vec<String> = Vec::new();
        let mut i: usize = 0;
        proof {
            crate::store::lemma_peer_set_empty(out@);
            crate::store::lemma_peer_set_empty(targets@.subrange(0, 0));
            assert(peer_set(out@) =~= peer_set(targets@.subrange(0, 0)).filter(|p: Seq<char>| !self.is_in_flight(message_id, p)));
        }
        while i < targets.len()
            invariant
                0 <= i <= targets@.len(),
                peer_set(out@) == peer_set(targets@.subrange(0, i as int)).filter(|p: Seq<char>| !self.is_in_flight(message_id, p)),
                forall|a: int, b: int| 0 <= a < b < out@.len() ==> out@[a]@ != out@[b]@,
            decreases targets@.len() - i,
        {
            let busy = self.in_flight(message_id, &targets[i]);
            let seen = contains_peer(&out, &targets[i]);
            let ghost before = out@;
            if !busy && !seen {
                out.push(targets[i].clone());
                proof {
                    crate::store::lemma_peer_set_push(before, targets@[i as int]);
                    assert forall|a: int| 0 <= a < before.len() implies before[a]@ != targets@[i as int]@ by {
                        crate::store::lemma_peer_set_contains(before, targets@[i as int]@);
                    }
                }
            }
            proof {
                crate::store::lemma_prefix_push(targets@, i as int);
                assert(peer_set(out@) =~= peer_set(targets@.subrange(0, i + 1)).filter(|p: Seq<char>| !self.is_in_flight(message_id, p)));
            }
            i = i + 1;
        }
        assert(targets@.subrange(0, targets@.len() as int) =~= targets@);
        out
    }

    /// Handles a publish command: picks the targets among the known peers,
    /// files the envelope for them, and returns the targets a request goes to
    /// now. With no known peer nothing is filed and `NoPeers` is returned.
    pub fn publish(&mut self, peers: &Vec<String>, envelope: TransportEnvelope) -> (r: Result<PublishPlan, OverlayError>)
        requires
            old(self).wf(),
        ensures
            final(self).wf(),
            final(self).flights() == old(self).flights(),
            final(self).factor() == old(self).factor(),
            peers@.len() == 0 ==> r is Err && r->Err_0 is NoPeers && final(self).store_view() == old(self).store_view(),
            peers@.len() > 0 ==> {
                let targets = targets_of(peers@, old(self).factor());
                &&& r is Ok
                &&& r->Ok_0.targets@ == targets
                &&& inserted_outbound(&old(self).store_view(), &final(self).store_view(), envelope.message_id, envelope, targets)
                &&& peer_set(r->Ok_0.sends@) == peer_set(targets).filter(|p: Seq<char>| !old(self).is_in_flight(envelope.message_id, p))
                &&& forall|a: int, b: int| 0 <= a < b < r->Ok_0.sends@.len() ==> r->Ok_0.sends@[a]@ != r->Ok_0.sends@[b]@
            },
    {
        let targets = match select_targets(peers, self.replication_factor) {
            Err(e) => { return Err(e); },
            Ok(t) => t,
        };
        let message_id = envelope.message_id;
        self.store.insert_outbound(message_id, envelope, &targets);
        assert(self.flights() == old(self).flights());
        let sends = self.plan_sends(message_id, &targets);
        Ok(PublishPlan { targets, sends })
    }

    /// Records a request sent to `peer` for a message.
    pub fn request_sent(&mut self, request_id: u64, message_id: u128, peer: String)
        requires
            old(self).wf(),
            !old(self).knows(request_id),
        ensures
            final(self).wf(),
            final(self).flights() == old(self).flights().push((request_id, message_id, peer@)),
            final(self).store_view() == old(self).store_view(),
            final(self).factor() == old(self).factor(),
    {
        let ghost before = self.in_flight@;
        self.in_flight.push(InFlightRequest { request_id, message_id, peer });
        assert(flight_view(self.in_flight@) =~= flight_view(before).push((request_id, message_id, self.in_flight@.last().peer@)));
        proof {
            let fl = self.flights();
            assert forall|a: int, b: int| 0 <= a < b < fl.len() implies fl[a].0 != fl[b].0 by {
                if b == fl.len() - 1 {
                    assert(fl[a] == old(self).flights()[a]);
                } else {
                    assert(fl[a] == old(self).flights()[a] && fl[b] == old(self).flights()[b]);
                }
            }
        }
    }

    fn take_request(&mut self, request_id: u64) -> (r: Option<InFlightRequest>)
        requires
            old(self).wf(),
        ensures
            final(self).wf(),
            final(self).store_view() == old(self).store_view(),
            final(self).factor() == old(self).factor(),
            r is None <==> !old(self).knows(request_id),
            r is None ==> final(self).flights() == old(self).flights(),
            r is Some ==> exists|k: int| 0 <= k < old(self).flights().len() && old(self).flights()[k].0 == request_id
                && old(self).flights()[k] == (request_id, r->0.message_id, r->0.peer@)
                && final(self).flights() == old(self).flights().remove(k),
    {
        let mut i: usize = 0;
        while i < self.in_flight.len()
            invariant
                *self == *old(self),
                self.wf(),
                0 <= i <= self.in_flight@.len(),
                self.flights().len() == self.in_flight@.len(),
                forall|j: int| 0 <= j < i ==> self.flights()[j].0 != request_id,
            decreases self.in_flight@.len() - i,
        {
            proof { assert(self.flights()[i as int].0 == self.in_flight@[i as int].request_id); }
            if self.in_flight[i].request_id == request_id {
                let ghost before = self.in_flight@;
                let f = self.in_flight.remove(i);
                proof {
                    assert(flight_view(self.in_flight@) =~= flight_view(before).remove(i as int));
                    assert(flight_view(before)[i as int] == (f.request_id, f.message_id, f.peer@));
                    let fb = flight_view(before);
                    assert forall|a: int, b: int| 0 <= a < b < self.flights().len() implies self.flights()[a].0 != self.flights()[b].0 by {
                        let a2 = if a < i { a } else { a + 1 };
                        let b2 = if b < i { b } else { b + 1 };
                        assert(self.flights()[a] == fb[a2]);
                        assert(self.flights()[b] == fb[b2]);
                    }
                }
                return Some(f);
            }
            i = i + 1;
        }
        None
    }

    /// Handles the answer to an outbound request. An unknown request changes
    /// nothing. A known one leaves the table; when accepted, its peer is
    /// marked as acknowledged in the store; when refused, the peer stays
    /// pending for the next retry.
    pub fn on_response(&mut self, request_id: u64, accepted: bool) -> (r: ResponseOutcome)
        requires
            old(self).wf(),
        ensures
            final(self).wf(),
            final(self).factor() == old(self).factor(),
            !old(self).knows(request_id) ==> r is Unknown && final(self).flights() == old(self).flights()
                && final(self).store_view() == old(self).store_view(),
            old(self).knows(request_id) ==> exists|k: int|
                0 <= k < old(self).flights().len() && old(self).flights()[k].0 == request_id
                && final(self).flights() == old(self).flights().remove(k)
                && (accepted ==> (r matches ResponseOutcome::Acked { message_id, peer, complete }
                    && message_id == old(self).flights()[k].1 && peer@ == old(self).flights()[k].2
                    && acked_by(&old(self).store_view(), &final(self).store_view(), message_id, peer@, complete)))
                && (!accepted ==> (r matches ResponseOutcome::Rejected { message_id }
                    && message_id == old(self).flights()[k].1
                    && final(self).store_view() == old(self).store_view())),
    {
        match self.take_request(request_id) {
            None => ResponseOutcome::Unknown,
            Some(f) => {
                if accepted {
                    let complete = self.store.mark_peer_success(f.message_id, &f.peer);
                    ResponseOutcome::Acked { message_id: f.message_id, peer: f.peer, complete }
                } else {
                    ResponseOutcome::Rejected { message_id: f.message_id }
                }
            },
        }
    }

    /// Handles a failed outbound request: it leaves the table and its
    /// message stays pending. Returns the message id, if the request was known.
    pub fn on_outbound_failure(&mut self, request_id: u64) -> (r: Option<u128>)
        requires
            old(self).wf(),
        ensures
            failed_request(old(self), final(self), request_id, r),
    {
        match self.take_request(request_id) {
            None => None,
            Some(f) => Some(f.message_id),
        }
    }

    /// Handles an inbound envelope: it is stored under its message id and
    /// accepted.
    pub fn on_inbound(&mut self, envelope: TransportEnvelope, now_ms: i64) -> (r: EnvelopeResponse)
        requires
            old(self).wf(),
        ensures
            handled_inbound(old(self), final(self), envelope, now_ms, r),
    {
        self.store.store_inbound(envelope, now_ms);
        assert(self.flights() == old(self).flights());
        inbound_response(true)
    }

    /// The `(message, peer)` pairs a retry tick re-sends: every pending peer
    /// (whose id parses) of every stored record, unless a request for the
    /// pair is in flight.
    pub fn retry_plan(&self) -> (r: Vec<RetrySend>)
        requires
            self.wf(),
        ensures
            planned_retry(self, r@),
    {
        let records = self.store.load_pending();
        let mut out: Vec<RetrySend> = Vec::new();
        let mut i: usize = 0;
        while i < records.len()
            invariant
                self.wf(),
                0 <= i <= records@.len(),
                loaded_pending(&self.store, records@),
                forall|m: u128, p: Seq<char>| #[trigger] sends_pair(out@, m, p) <==> owed_upto(records@, i as int, m, p) && !self.is_in_flight(m, p),
                no_repeated_pair(out@),
                forall|a: int| 0 <= a < out@.len() ==> exists|j: int| 0 <= j < i && (#[trigger] out@[a]).message_id == records@[j].message_id,
            decreases records@.len() - i,
        {
            let record = &records[i];
            let sends = self.plan_sends(record.message_id, &record.pending_peers);
            let mut k: usize = 0;
            let ghost start = out@;
            while k < sends.len()
                invariant
                    0 <= k <= sends@.len(),
                    out@ == start + retry_sends(record.message_id, sends@.subrange(0, k as int)),
                decreases sends@.len() - k,
            {
                out.push(RetrySend { message_id: record.message_id, peer: sends[k].clone() });
                k = k + 1;
                assert(out@ =~= start + retry_sends(record.message_id, sends@.subrange(0, k as int)));
            }
            proof {
                assert(sends@.subrange(0, sends@.len() as int) =~= sends@);
                assert forall|m: u128, p: Seq<char>| #[trigger] sends_pair(out@, m, p) <==> owed_upto(records@, i + 1, m, p) && !self.is_in_flight(m, p) by {
                    lemma_sends_pair_append(start, record.message_id, sends@, m, p);
                    lemma_owed_step(records@, i as int, m, p);
                    crate::store::lemma_peer_set_contains(sends@, p);
                    assert(peer_set(sends@).contains(p) <==> peer_set(record.pending_peers@).contains(p) && !self.is_in_flight(record.message_id, p));
                }
                let n = start.len();
                assert forall|a: int| 0 <= a < out@.len() implies exists|j: int| 0 <= j < i + 1 && (#[trigger] out@[a]).message_id == records@[j].message_id by {
                    if a < n {
                        assert(out@[a] == start[a]);
                        let j = choose|j: int| 0 <= j < i && start[a].message_id == records@[j].message_id;
                        assert(0 <= j < i + 1);
                    } else {
                        assert(out@[a].message_id == records@[i as int].message_id);
                    }
                }
                assert forall|a: int, b: int| 0 <= a < b < out@.len() implies !(out@[a].message_id == out@[b].message_id && out@[a].peer@ == out@[b].peer@) by {
                    if b < n {
                        assert(out@[a] == start[a] && out@[b] == start[b]);
                    } else if a < n {
                        assert(out@[a] == start[a]);
                        let j = choose|j: int| 0 <= j < i && start[a].message_id == records@[j].message_id;
                        assert(records@[j].message_id != records@[i as int].message_id);
                        assert(out@[b].message_id == records@[i as int].message_id);
                    } else {
                        assert(out@[a].peer == sends@[a - n] && out@[b].peer == sends@[b - n]);
                    }
                }
            }
            i = i + 1;
        }
        proof {
            assert forall|m: u128, p: Seq<char>| #[trigger] sends_pair(out@, m, p) <==> {
                &&& self.store.outbound_map().dom().contains(m)
                &&& self.store.outbound_map()[m].pending().contains(p)
                &&& peer_id_parses(p)
                &&& !self.is_in_flight(m, p)
            } by {
                if owed_upto(records@, records@.len() as int, m, p) {
                    let k = choose|k: int| 0 <= k < records@.len() && records@[k].message_id == m && peer_set(records@[k].pending_peers@).contains(p);
                    assert(self.store.outbound_map().dom().contains(records@[k].message_id));
                    assert(usable(self.store.outbound_map()[m].pending()).contains(p));
                }
                if self.store.outbound_map().dom().contains(m) && self.store.outbound_map()[m].pending().contains(p) && peer_id_parses(p) {
                    assert(usable(self.store.outbound_map()[m].pending()).contains(p));
                    let k = choose|k: int| 0 <= k < records@.len() && records@[k].message_id == m;
                    assert(peer_set(records@[k].pending_peers@) == usable(self.store.outbound_map()[m].pending()));
                    assert(owed_upto(records@, records@.len() as int, m, p));
                }
            }
        }
        out
    }
}

/// Retry sends of one message to a list of peers.
pub open spec fn retry_sends(message_id: u128, peers: Seq<String>) -> Seq<RetrySend> {
    peers.map_values(|p: String| RetrySend { message_id, peer: p })
}

/// A list of retry sends holds the pair `(m, p)`.
pub open spec fn sends_pair(s: Seq<RetrySend>, m: u128, p: Seq<char>) -> bool {
    exists|j: int| 0 <= j < s.len() && s[j].message_id == m && s[j].peer@ == p
}

/// One of the first `i` records is message `m` with `p` among its pending peers.
pub open spec fn owed_upto(records: Seq<PendingEnvelope>, i: int, m: u128, p: Seq<char>) -> bool {
    exists|k: int| 0 <= k < i && records[k].message_id == m && peer_set(records[k].pending_peers@).contains(p)
}

proof fn lemma_sends_pair_append(start: Seq<RetrySend>, mid: u128, peers: Seq<String>, m: u128, p: Seq<char>)
    ensures
        sends_pair(start + retry_sends(mid, peers), m, p) <==> sends_pair(start, m, p)
            || (m == mid && exists|j: int| 0 <= j < peers.len() && peers[j]@ == p),
{
    let s = start + retry_sends(mid, peers);
    if sends_pair(s, m, p) {
        let j = choose|j: int| 0 <= j < s.len() && s[j].message_id == m && s[j].peer@ == p;
        if j >= start.len() {
            assert(peers[j - start.len()]@ == p);
        } else {
            assert(start[j] == s[j]);
        }
    }
    if sends_pair(start, m, p) {
        let j = choose|j: int| 0 <= j < start.len() && start[j].message_id == m && start[j].peer@ == p;
        assert(s[j] == start[j]);
    }
    if m == mid && exists|j: int| 0 <= j < peers.len() && peers[j]@ == p {
        let j = choose|j: int| 0 <= j < peers.len() && peers[j]@ == p;
        assert(s[start.len() + j].peer@ == p);
    }
}

proof fn lemma_owed_step(records: Seq<PendingEnvelope>, i: int, m: u128, p: Seq<char>)
    requires
        0 <= i < records.len(),
    ensures
        owed_upto(records, i + 1, m, p) <==> owed_upto(records, i, m, p)
            || (records[i].message_id == m && peer_set(records[i].pending_peers@).contains(p)),
{
    if owed_upto(records, i + 1, m, p) {
        let k = choose|k: int| 0 <= k < i + 1 && records[k].message_id == m && peer_set(records[k].pending_peers@).contains(p);
        if k < i {
            assert(owed_upto(records, i, m, p));
        }
    }
    if owed_upto(records, i, m, p) {
        let k = choose|k: int| 0 <= k < i && records[k].message_id == m && peer_set(records[k].pending_peers@).contains(p);
        assert(0 <= k < i + 1);
    }
}

} // verus!
