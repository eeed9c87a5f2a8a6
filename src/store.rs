//! The replication store: outbound records with per-peer delivery progress
//! and inbound records, each keyed by message id.
//!
//! Each mutation here is what one committed write of the durable store
//! does; writing the records to disk is left to the caller.

use vstd::prelude::*;
use crate::pipeline::TransportEnvelope;

verus! {

broadcast use vstd::seq_lib::group_seq_properties;

/// The map that a sequence of keyed entries spells (a later entry wins).
pub open spec fn keyed_map<V>(s: Seq<(u128, V)>) -> Map<u128, V>
    decreases s.len(),
{
    if s.len() == 0 {
        Map::empty()
    } else {
        keyed_map(s.drop_last()).insert(s.last().0, s.last().1)
    }
}

/// No key appears twice.
pub open spec fn keys_unique<V>(s: Seq<(u128, V)>) -> bool {
    forall|i: int, j: int| 0 <= i < j < s.len() ==> s[i].0 != s[j].0
}

pub proof fn lemma_keyed_map_dom<V>(s: Seq<(u128, V)>, k: u128)
    ensures
        keyed_map(s).dom().contains(k) <==> exists|i: int| 0 <= i < s.len() && s[i].0 == k,
    decreases s.len(),
{
    if s.len() > 0 {
        lemma_keyed_map_dom(s.drop_last(), k);
        if keyed_map(s.drop_last()).dom().contains(k) {
            let i = choose|i: int| 0 <= i < s.drop_last().len() && s.drop_last()[i].0 == k;
            assert(s[i].0 == k);
        }
        if exists|i: int| 0 <= i < s.len() && s[i].0 == k {
            let i = choose|i: int| 0 <= i < s.len() && s[i].0 == k;
            if i < s.len() - 1 {
                assert(s.drop_last()[i].0 == k);
            }
        }
    }
}

pub proof fn lemma_keyed_map_index<V>(s: Seq<(u128, V)>, i: int)
    requires
        keys_unique(s),
        0 <= i < s.len(),
    ensures
        keyed_map(s).dom().contains(s[i].0),
        keyed_map(s)[s[i].0] == s[i].1,
    decreases s.len(),
{
    if i < s.len() - 1 {
        lemma_keyed_map_index(s.drop_last(), i);
    }
}

pub proof fn lemma_keyed_map_update<V>(s: Seq<(u128, V)>, i: int, v: V)
    requires
        keys_unique(s),
        0 <= i < s.len(),
    ensures
        keyed_map(s.update(i, (s[i].0, v))) == keyed_map(s).insert(s[i].0, v),
        keys_unique(s.update(i, (s[i].0, v))),
    decreases s.len(),
{
    let t = s.update(i, (s[i].0, v));
    if i == s.len() - 1 {
        assert(t.drop_last() =~= s.drop_last());
        assert(keyed_map(t) =~= keyed_map(s).insert(s[i].0, v));
    } else {
        lemma_keyed_map_update(s.drop_last(), i, v);
        assert(t.drop_last() =~= s.drop_last().update(i, (s[i].0, v)));
        assert(keyed_map(t) =~= keyed_map(s).insert(s[i].0, v));
    }
}

pub proof fn lemma_keyed_map_remove<V>(s: Seq<(u128, V)>, i: int)
    requires
        keys_unique(s),
        0 <= i < s.len(),
    ensures
        keyed_map(s.remove(i)) == keyed_map(s).remove(s[i].0),
        keys_unique(s.remove(i)),
    decreases s.len(),
{
    let t = s.remove(i);
    if i == s.len() - 1 {
        assert(t =~= s.drop_last());
        assert forall|k: u128| #[trigger] keyed_map(s.drop_last()).dom().contains(k) implies k != s[i].0 by {
            lemma_keyed_map_dom(s.drop_last(), k);
        }
        assert(keyed_map(t) =~= keyed_map(s).remove(s[i].0));
    } else {
        lemma_keyed_map_remove(s.drop_last(), i);
        assert(t.drop_last() =~= s.drop_last().remove(i));
        assert(t.last() == s.last());
        assert(keyed_map(t) =~= keyed_map(s).remove(s[i].0));
    }
}

pub proof fn lemma_keyed_map_push<V>(s: Seq<(u128, V)>, k: u128, v: V)
    requires
        keys_unique(s),
        !keyed_map(s).dom().contains(k),
    ensures
        keyed_map(s.push((k, v))) == keyed_map(s).insert(k, v),
        keys_unique(s.push((k, v))),
{
    assert(s.push((k, v)).drop_last() =~= s);
    assert forall|i: int| 0 <= i < s.len() implies s[i].0 != k by {
        lemma_keyed_map_dom(s, k);
    }
}

/// The texts of a list of peer ids.
pub open spec fn peer_texts(v: Seq<String>) -> Seq<Seq<char>> {
    v.map_values(|p: String| p@)
}

/// The set of peer ids in a list.
pub open spec fn peer_set(v: Seq<String>) -> Set<Seq<char>> {
    peer_texts(v).to_set()
}

pub proof fn lemma_peer_set_contains(v: Seq<String>, p: Seq<char>)
    ensures
        peer_set(v).contains(p) <==> exists|i: int| 0 <= i < v.len() && v[i]@ == p,
{
    if peer_set(v).contains(p) {
        let i = choose|i: int| 0 <= i < peer_texts(v).len() && peer_texts(v)[i] == p;
        assert(v[i]@ == p);
    }
    if exists|i: int| 0 <= i < v.len() && v[i]@ == p {
        let i = choose|i: int| 0 <= i < v.len() && v[i]@ == p;
        assert(peer_texts(v)[i] == p);
    }
}

pub proof fn lemma_peer_set_push(v: Seq<String>, x: String)
    ensures
        peer_set(v.push(x)) == peer_set(v).insert(x@),
{
    let t = peer_texts(v);
    let t2 = peer_texts(v.push(x));
    assert(t2 =~= t.push(x@));
    assert forall|p: Seq<char>| peer_set(v.push(x)).contains(p) <==> peer_set(v).insert(x@).contains(p) by {
        if t.contains(p) {
            let j = choose|j: int| 0 <= j < t.len() && t[j] == p;
            assert(t2[j] == p);
        }
        if t2.contains(p) {
            let j = choose|j: int| 0 <= j < t2.len() && t2[j] == p;
            if j < t.len() {
                assert(t[j] == p);
            }
        }
        assert(t2[t.len() as int] == x@);
    }
    assert(peer_set(v.push(x)) =~= peer_set(v).insert(x@));
}

pub proof fn lemma_peer_set_empty(v: Seq<String>)
    ensures
        peer_set(v).is_empty() <==> v.len() == 0,
        v.len() == 0 ==> peer_set(v) == Set::<Seq<char>>::empty(),
{
    if v.len() > 0 {
        lemma_peer_set_contains(v, v[0]@);
    } else {
        assert(peer_set(v) =~= Set::<Seq<char>>::empty());
    }
}

pub proof fn lemma_prefix_push(v: Seq<String>, i: int)
    requires
        0 <= i < v.len(),
    ensures
        peer_set(v.subrange(0, i + 1)) == peer_set(v.subrange(0, i)).insert(v[i]@),
{
    assert(v.subrange(0, i + 1) =~= v.subrange(0, i).push(v[i]));
    lemma_peer_set_push(v.subrange(0, i), v[i]);
}

/// Whether a list of peer ids holds `peer`.
pub fn contains_peer(v: &Vec<String>, peer: &String) -> (r: bool)
    ensures
        r == peer_set(v@).contains(peer@),
{
    let mut i: usize = 0;
    while i < v.len()
        invariant
            0 <= i <= v@.len(),
            forall|j: int| 0 <= j < i ==> v@[j]@ != peer@,
        decreases v@.len() - i,
    {
        if v[i] == *peer {
            proof { lemma_peer_set_contains(v@, peer@); }
            return true;
        }
        i = i + 1;
    }
    proof { lemma_peer_set_contains(v@, peer@); }
    false
}

/// The peer ids of `v` that are not in `drop`, in order.
pub fn peers_without(v: &Vec<String>, drop: &Vec<String>) -> (r: Vec<String>)
    ensures
        peer_set(r@) == peer_set(v@).difference(peer_set(drop@)),
{
    let mut out: Vec<String> = Vec::new();
    let mut i: usize = 0;
    proof { lemma_peer_set_empty(out@); lemma_peer_set_empty(v@.subrange(0, 0)); }
    while i < v.len()
        invariant
            0 <= i <= v@.len(),
            peer_set(out@) == peer_set(v@.subrange(0, i as int)).difference(peer_set(drop@)),
        decreases v@.len() - i,
    {
        let keep = !contains_peer(drop, &v[i]);
        let ghost before = out@;
        if keep {
            out.push(v[i].clone());
            proof { lemma_peer_set_push(before, v@[i as int]); }
        }
        proof {
            lemma_prefix_push(v@, i as int);
            assert(peer_set(out@) =~= peer_set(v@.subrange(0, i + 1)).difference(peer_set(drop@)));
        }
        i = i + 1;
    }
    assert(v@.subrange(0, v@.len() as int) =~= v@);
    out
}

/// The peer ids of `v` other than `peer`.
pub fn peers_without_one(v: &Vec<String>, peer: &String) -> (r: Vec<String>)
    ensures
        peer_set(r@) == peer_set(v@).remove(peer@),
{
    let drop = vec![peer.clone()];
    proof {
        lemma_peer_set_empty(Seq::<String>::empty());
        lemma_peer_set_push(Seq::<String>::empty(), *peer);
        assert(drop@ =~= Seq::<String>::empty().push(*peer));
    }
    let r = peers_without(v, &drop);
    assert(peer_set(v@).difference(Set::<Seq<char>>::empty().insert(peer@)) =~= peer_set(v@).remove(peer@));
    r
}

/// All peer ids of `a`, then those of `b`.
pub fn peers_joined(a: &Vec<String>, b: &Vec<String>) -> (r: Vec<String>)
    ensures
        peer_set(r@) == peer_set(a@).union(peer_set(b@)),
{
    let mut out = copy_peers(a);
    let mut k: usize = 0;
    proof { lemma_peer_set_empty(b@.subrange(0, 0)); }
    assert(peer_set(out@) =~= peer_set(a@).union(peer_set(b@.subrange(0, 0))));
    while k < b.len()
        invariant
            0 <= k <= b@.len(),
            peer_set(out@) == peer_set(a@).union(peer_set(b@.subrange(0, k as int))),
        decreases b@.len() - k,
    {
        let ghost before = out@;
        out.push(b[k].clone());
        proof {
            lemma_peer_set_push(before, b@[k as int]);
            lemma_prefix_push(b@, k as int);
            assert(peer_set(out@) =~= peer_set(a@).union(peer_set(b@.subrange(0, k + 1))));
        }
        k = k + 1;
    }
    assert(b@.subrange(0, b@.len() as int) =~= b@);
    out
}

/// A copy of a list of peer ids.
pub fn copy_peers(v: &Vec<String>) -> (r: Vec<String>)
    ensures
        r@ == v@,
{
    let mut out: Vec<String> = Vec::new();
    let mut i: usize = 0;
    while i < v.len()
        invariant
            0 <= i <= v@.len(),
            out@ == v@.subrange(0, i as int),
        decreases v@.len() - i,
    {
        out.push(v[i].clone());
        i = i + 1;
        assert(out@ =~= v@.subrange(0, i as int));
    }
    assert(v@.subrange(0, v@.len() as int) =~= v@);
    out
}

/// Whether a text is a peer id.
pub uninterp spec fn peer_id_parses(text: Seq<char>) -> bool;

/// Relies on libp2p's `PeerId::from_str`: whether a text parses as a peer id.
#[verifier::external_body]
fn peer_id_valid(text: &str) -> (r: bool)
    ensures
        r == peer_id_parses(text@),
{
    text.parse::<libp2p::PeerId>().is_ok()
}

/// The peer ids of a set that parse.
pub open spec fn usable(peers: Set<Seq<char>>) -> Set<Seq<char>> {
    peers.filter(|p: Seq<char>| peer_id_parses(p))
}

/// The peer ids of a list that parse, in order.
pub fn usable_peers(v: &Vec<String>) -> (r: Vec<String>)
    ensures
        peer_set(r@) == usable(peer_set(v@)),
{
    let mut out: Vec<String> = Vec::new();
    let mut i: usize = 0;
    proof {
        lemma_peer_set_empty(out@);
        lemma_peer_set_empty(v@.subrange(0, 0));
        assert(peer_set(out@) =~= usable(peer_set(v@.subrange(0, 0))));
    }
    while i < v.len()
        invariant
            0 <= i <= v@.len(),
            peer_set(out@) == usable(peer_set(v@.subrange(0, i as int))),
        decreases v@.len() - i,
    {
        let ok = peer_id_valid(v[i].as_str());
        let ghost before = out@;
        if ok {
            out.push(v[i].clone());
            proof { lemma_peer_set_push(before, v@[i as int]); }
        }
        proof {
            lemma_prefix_push(v@, i as int);
            assert(peer_set(out@) =~= usable(peer_set(v@.subrange(0, i + 1))));
        }
        i = i + 1;
    }
    assert(v@.subrange(0, v@.len() as int) =~= v@);
    out
}

/// Two envelopes with the same contents.
pub open spec fn same_envelope(a: &TransportEnvelope, b: &TransportEnvelope) -> bool {
    &&& a.message_id == b.message_id
    &&& a.conversation_id == b.conversation_id
    &&& a.sender_device == b.sender_device
    &&& a.recipient_device == b.recipient_device
    &&& a.created_ms == b.created_ms
    &&& a.pgp_envelope.message_id == b.pgp_envelope.message_id
    &&& a.pgp_envelope.conversation_id == b.pgp_envelope.conversation_id
    &&& a.pgp_envelope.sender_device == b.pgp_envelope.sender_device
    &&& a.pgp_envelope.created_ms == b.pgp_envelope.created_ms
    &&& a.pgp_envelope.sender_fingerprint@ == b.pgp_envelope.sender_fingerprint@
    &&& a.pgp_envelope.encrypted_payload@ == b.pgp_envelope.encrypted_payload@
}

fn copy_envelope(e: &TransportEnvelope) -> (r: TransportEnvelope)
    ensures
        same_envelope(&r, e),
{
    let p = e.pgp_envelope.duplicate();
    TransportEnvelope {
        message_id: e.message_id,
        conversation_id: e.conversation_id,
        sender_device: e.sender_device,
        recipient_device: e.recipient_device,
        created_ms: e.created_ms,
        pgp_envelope: p,
    }
}

/// An outbound envelope and the peers that still owe, or already gave, an acknowledgement.
pub struct OutboundRecord {
    pub envelope: TransportEnvelope,
    pub pending_peers: Vec<String>,
    pub acked_peers: Vec<String>,
}

impl OutboundRecord {
    pub open spec fn pending(&self) -> Set<Seq<char>> {
        peer_set(self.pending_peers@)
    }

    pub open spec fn acked(&self) -> Set<Seq<char>> {
        peer_set(self.acked_peers@)
    }

    /// No peer is both pending and acknowledged, and some peer is pending.
    pub open spec fn wf(&self) -> bool {
        &&& self.pending().disjoint(self.acked())
        &&& !self.pending().is_empty()
    }
}

/// An inbound envelope and when it was stored.
pub struct InboundRecord {
    pub envelope: TransportEnvelope,
    pub stored_ms: i64,
}

/// A record with peers still to serve, as handed to the retry loop.
pub struct PendingEnvelope {
    pub message_id: u128,
    pub envelope: TransportEnvelope,
    pub pending_peers: Vec<String>,
}

/// The outbound and inbound records.
pub struct NodeStore {
    outbound: Vec<(u128, OutboundRecord)>,
    inbound: Vec<(u128, InboundRecord)>,
}

/// What [`NodeStore::insert_outbound`] does.
pub open spec fn inserted_outbound(
    before: &NodeStore,
    after: &NodeStore,
    message_id: u128,
    envelope: TransportEnvelope,
    peers: Seq<String>,
) -> bool {
    let had = before.outbound_map().dom().contains(message_id);
    let acked = if had { before.outbound_map()[message_id].acked() } else { Set::empty() };
    let pending = if had { before.outbound_map()[message_id].pending() } else { Set::empty() };
    let new_pending = pending.union(peer_set(peers)).difference(acked);
    &&& after.wf()
    &&& after.inbound_map() == before.inbound_map()
    &&& new_pending.is_empty() ==> after.outbound_map() == before.outbound_map().remove(message_id)
    &&& !new_pending.is_empty() ==> {
        &&& after.outbound_map().dom() == before.outbound_map().dom().insert(message_id)
        &&& forall|k: u128| k != message_id && before.outbound_map().dom().contains(k)
            ==> #[trigger] after.outbound_map()[k] == before.outbound_map()[k]
        &&& after.outbound_map()[message_id].envelope == envelope
        &&& after.outbound_map()[message_id].pending() == new_pending
        &&& after.outbound_map()[message_id].acked() == acked
    }
}

/// What [`NodeStore::mark_peer_success`] does, and what it returns.
pub open spec fn acked_by(before: &NodeStore, after: &NodeStore, message_id: u128, peer: Seq<char>, r: bool) -> bool {
    &&& after.wf()
    &&& after.inbound_map() == before.inbound_map()
    &&& !before.outbound_map().dom().contains(message_id) ==> r && after.outbound_map() == before.outbound_map()
    &&& before.outbound_map().dom().contains(message_id) ==> {
        let rec = before.outbound_map()[message_id];
        let pending = rec.pending().remove(peer);
        &&& r == pending.is_empty()
        &&& r ==> after.outbound_map() == before.outbound_map().remove(message_id)
        &&& !r ==> {
            &&& after.outbound_map().dom() == before.outbound_map().dom()
            &&& forall|k: u128| k != message_id && before.outbound_map().dom().contains(k)
                ==> #[trigger] after.outbound_map()[k] == before.outbound_map()[k]
            &&& same_envelope(&after.outbound_map()[message_id].envelope, &rec.envelope)
            &&& after.outbound_map()[message_id].pending() == pending
            &&& after.outbound_map()[message_id].acked() == rec.acked().insert(peer)
        }
    }
}

/// What [`NodeStore::store_inbound`] does.
pub open spec fn stored_inbound(before: &NodeStore, after: &NodeStore, envelope: TransportEnvelope, stored_ms: i64) -> bool {
    &&& after.wf()
    &&& after.outbound_map() == before.outbound_map()
    &&& after.inbound_map() == before.inbound_map().insert(envelope.message_id, InboundRecord { envelope, stored_ms })
}

/// What [`NodeStore::load_pending`] returns.
pub open spec fn loaded_pending(store: &NodeStore, r: Seq<PendingEnvelope>) -> bool {
    &&& forall|i: int, j: int| 0 <= i < j < r.len() ==> r[i].message_id != r[j].message_id
    &&& forall|i: int| 0 <= i < r.len() ==> {
        let e = #[trigger] r[i];
        &&& store.outbound_map().dom().contains(e.message_id)
        &&& same_envelope(&e.envelope, &store.outbound_map()[e.message_id].envelope)
        &&& peer_set(e.pending_peers@) == usable(store.outbound_map()[e.message_id].pending())
        &&& !peer_set(e.pending_peers@).is_empty()
    }
    &&& forall|m: u128| store.outbound_map().dom().contains(m) && !usable(#[trigger] store.outbound_map()[m].pending()).is_empty()
        ==> exists|k: int| 0 <= k < r.len() && r[k].message_id == m
}

impl NodeStore {
    pub closed spec fn outbound_map(&self) -> Map<u128, OutboundRecord> {
        keyed_map(self.outbound@)
    }

    pub closed spec fn inbound_map(&self) -> Map<u128, InboundRecord> {
        keyed_map(self.inbound@)
    }

    /// Keys are unique, every outbound record is well formed and is filed
    /// under its envelope's message id, and so is every inbound record.
    pub closed spec fn wf(&self) -> bool {
        &&& keys_unique(self.outbound@)
        &&& keys_unique(self.inbound@)
        &&& forall|i: int| 0 <= i < self.outbound@.len() ==> (#[trigger] self.outbound@[i]).1.wf()
        &&& forall|i: int| 0 <= i < self.inbound@.len() ==> (#[trigger] self.inbound@[i]).1.envelope.message_id == self.inbound@[i].0
    }

    pub fn new() -> (r: NodeStore)
        ensures
            r.wf(),
            r.outbound_map() == Map::<u128, OutboundRecord>::empty(),
            r.inbound_map() == Map::<u128, InboundRecord>::empty(),
    {
        NodeStore { outbound: Vec::new(), inbound: Vec::new() }
    }

    fn find_outbound(&self, message_id: u128) -> (r: Option<usize>)
        requires
            self.wf(),
        ensures
            r is None <==> !self.outbound_map().dom().contains(message_id),
            r is Some ==> r->0 < self.outbound@.len() && self.outbound@[r->0 as int].0 == message_id,
    {
        let mut i: usize = 0;
        while i < self.outbound.len()
            invariant
                0 <= i <= self.outbound@.len(),
                forall|j: int| 0 <= j < i ==> self.outbound@[j].0 != message_id,
            decreases self.outbound@.len() - i,
        {
            if self.outbound[i].0 == message_id {
                proof { lemma_keyed_map_dom(self.outbound@, message_id); }
                return Some(i);
            }
            i = i + 1;
        }
        proof { lemma_keyed_map_dom(self.outbound@, message_id); }
        None
    }

    fn find_inbound(&self, message_id: u128) -> (r: Option<usize>)
        requires
            self.wf(),
        ensures
            r is None <==> !self.inbound_map().dom().contains(message_id),
            r is Some ==> r->0 < self.inbound@.len() && self.inbound@[r->0 as int].0 == message_id,
    {
        let mut i: usize = 0;
        while i < self.inbound.len()
            invariant
                0 <= i <= self.inbound@.len(),
                forall|j: int| 0 <= j < i ==> self.inbound@[j].0 != message_id,
            decreases self.inbound@.len() - i,
        {
            if self.inbound[i].0 == message_id {
                proof { lemma_keyed_map_dom(self.inbound@, message_id); }
                return Some(i);
            }
            i = i + 1;
        }
        proof { lemma_keyed_map_dom(self.inbound@, message_id); }
        None
    }

    /// The outbound record of a message, if any.
    pub fn outbound(&self, message_id: u128) -> (r: Option<&OutboundRecord>)
        requires
            self.wf(),
        ensures
            r is None <==> !self.outbound_map().dom().contains(message_id),
            r is Some ==> *r->0 == self.outbound_map()[message_id],
    {
        match self.find_outbound(message_id) {
            None => None,
            Some(i) => {
                proof { lemma_keyed_map_index(self.outbound@, i as int); }
                Some(&self.outbound[i].1)
            },
        }
    }

    /// The inbound record of a message, if any.
    pub fn inbound(&self, message_id: u128) -> (r: Option<&InboundRecord>)
        requires
            self.wf(),
        ensures
            r is None <==> !self.inbound_map().dom().contains(message_id),
            r is Some ==> *r->0 == self.inbound_map()[message_id],
    {
        match self.find_inbound(message_id) {
            None => None,
            Some(i) => {
                proof { lemma_keyed_map_index(self.inbound@, i as int); }
                Some(&self.inbound[i].1)
            },
        }
    }

    /// Number of inbound records.
    pub fn inbound_count(&self) -> (r: usize)
        requires
            self.wf(),
        ensures
            r == self.inbound_map().dom().len(),
    {
        proof { self.lemma_inbound_dom_len(); }
        self.inbound.len()
    }

    proof fn lemma_inbound_dom_len(&self)
        requires
            self.wf(),
        ensures
            self.inbound_map().dom().len() == self.inbound@.len(),
            self.inbound_map().dom().finite(),
    {
        lemma_keyed_len(self.inbound@);
    }

    /// Files an outbound envelope for a set of peers. An existing record
    /// keeps its acknowledged peers and takes the new envelope; the new peers
    /// join its pending peers, except those that already acknowledged. A
    /// record left with no pending peer is not kept.
    pub fn insert_outbound(&mut self, message_id: u128, envelope: TransportEnvelope, peers: &Vec<String>)
        requires
            old(self).wf(),
        ensures
            inserted_outbound(old(self), final(self), message_id, envelope, peers@),
    {
        let found = self.find_outbound(message_id);
        let (pending, acked, index) = match found {
            Some(i) => {
                proof { lemma_keyed_map_index(self.outbound@, i as int); }
                let rec = &self.outbound[i].1;
                let joined = peers_joined(&rec.pending_peers, peers);
                (peers_without(&joined, &rec.acked_peers), copy_peers(&rec.acked_peers), Some(i))
            },
            None => {
                let empty: Vec<String> = Vec::new();
                proof { assert(peer_set(empty@) =~= Set::<Seq<char>>::empty()); }
                let joined = peers_joined(&empty, peers);
                (peers_without(&joined, &empty), Vec::new(), None)
            },
        };
        proof {
            assert(peer_set(Seq::<String>::empty()) =~= Set::<Seq<char>>::empty());
        }
        let empty_pending = pending.len() == 0;
        proof {
            lemma_peer_set_empty(pending@);
        }
        let record = OutboundRecord { envelope, pending_peers: pending, acked_peers: acked };
        match index {
            Some(i) => {
                if empty_pending {
                    let ghost before = self.outbound@;
                    self.outbound.remove(i);
                    proof {
                        lemma_keyed_map_remove(before, i as int);
                        assert forall|j: int| 0 <= j < self.outbound@.len() implies (#[trigger] self.outbound@[j]).1.wf() by {
                            if j < i { assert(self.outbound@[j] == before[j]); } else { assert(self.outbound@[j] == before[j + 1]); }
                        }
                    }
                } else {
                    let ghost before = self.outbound@;
                    self.outbound.set(i, (message_id, record));
                    proof {
                        lemma_keyed_map_update(before, i as int, self.outbound@[i as int].1);
                        assert(self.outbound@ =~= before.update(i as int, (before[i as int].0, self.outbound@[i as int].1)));
                    }
                }
            },
            None => {
                if !empty_pending {
                    let ghost before = self.outbound@;
                    self.outbound.push((message_id, record));
                    proof {
                        lemma_keyed_map_push(before, message_id, self.outbound@.last().1);
                    }
                } else {
                    proof { assert(old(self).outbound_map().remove(message_id) =~= old(self).outbound_map()); }
                }
            },
        }
    }

    /// Records that `peer` acknowledged a message: the peer leaves the
    /// pending set and joins the acknowledged set. Returns whether the
    /// message is complete: true when its last pending peer acknowledged (the
    /// record is then deleted) or when there is no record.
    pub fn mark_peer_success(&mut self, message_id: u128, peer: &String) -> (r: bool)
        requires
            old(self).wf(),
        ensures
            acked_by(old(self), final(self), message_id, peer@, r),
    {
        let i = match self.find_outbound(message_id) {
            None => { return true; },
            Some(i) => i,
        };
        proof { lemma_keyed_map_index(self.outbound@, i as int); }
        let rec = &self.outbound[i].1;
        let pending = peers_without_one(&rec.pending_peers, peer);
        let acked = if contains_peer(&rec.acked_peers, peer) {
            let a = copy_peers(&rec.acked_peers);
            proof { assert(peer_set(a@) =~= rec.acked().insert(peer@)); }
            a
        } else {
            let mut a = copy_peers(&rec.acked_peers);
            let ghost before = a@;
            a.push(peer.clone());
            proof { lemma_peer_set_push(before, *peer); }
            a
        };
        let envelope = copy_envelope(&rec.envelope);
        let done = pending.len() == 0;
        proof {
            lemma_peer_set_empty(pending@);
            assert(peer_set(pending@).disjoint(peer_set(acked@)));
        }
        let ghost before = self.outbound@;
        if done {
            self.outbound.remove(i);
            proof {
                lemma_keyed_map_remove(before, i as int);
                assert forall|j: int| 0 <= j < self.outbound@.len() implies (#[trigger] self.outbound@[j]).1.wf() by {
                    if j < i { assert(self.outbound@[j] == before[j]); } else { assert(self.outbound@[j] == before[j + 1]); }
                }
            }
        } else {
            let record = OutboundRecord { envelope, pending_peers: pending, acked_peers: acked };
            self.outbound.set(i, (message_id, record));
            proof {
                lemma_keyed_map_update(before, i as int, self.outbound@[i as int].1);
                assert(self.outbound@ =~= before.update(i as int, (before[i as int].0, self.outbound@[i as int].1)));
                assert(self.outbound_map() == old(self).outbound_map().insert(message_id, self.outbound@[i as int].1));
                assert(self.outbound_map().dom() =~= old(self).outbound_map().dom());
                assert forall|j: int| 0 <= j < self.outbound@.len() implies (#[trigger] self.outbound@[j]).1.wf() by {
                    if j != i { assert(self.outbound@[j] == before[j]); }
                }
            }
        }
        done
    }

    /// The records with pending peers, in store order, each with its
    /// envelope and those of its pending peers whose ids parse; a record
    /// none of whose pending peers parses is left out.
    pub fn load_pending(&self) -> (r: Vec<PendingEnvelope>)
        requires
            self.wf(),
        ensures
            loaded_pending(self, r@),
    {
        let mut out: Vec<PendingEnvelope> = Vec::new();
        let mut i: usize = 0;
        while i < self.outbound.len()
            invariant
                self.wf(),
                0 <= i <= self.outbound@.len(),
                forall|a: int, b: int| 0 <= a < b < out@.len() ==> out@[a].message_id != out@[b].message_id,
                forall|k: int| 0 <= k < out@.len() ==> exists|j: int| 0 <= j < i && (#[trigger] out@[k]).message_id == self.outbound@[j].0,
                forall|k: int| 0 <= k < out@.len() ==> {
                    let e = #[trigger] out@[k];
                    &&& self.outbound_map().dom().contains(e.message_id)
                    &&& same_envelope(&e.envelope, &self.outbound_map()[e.message_id].envelope)
                    &&& peer_set(e.pending_peers@) == usable(self.outbound_map()[e.message_id].pending())
                    &&& !peer_set(e.pending_peers@).is_empty()
                },
                forall|j: int| 0 <= j < i && !usable((#[trigger] self.outbound@[j]).1.pending()).is_empty()
                    ==> exists|k: int| 0 <= k < out@.len() && out@[k].message_id == self.outbound@[j].0,
            decreases self.outbound@.len() - i,
        {
            let entry = &self.outbound[i];
            let peers = usable_peers(&entry.1.pending_peers);
            proof {
                lemma_keyed_map_index(self.outbound@, i as int);
                lemma_peer_set_empty(peers@);
            }
            if peers.len() > 0 {
                let ghost before = out@;
                out.push(PendingEnvelope { message_id: entry.0, envelope: copy_envelope(&entry.1.envelope), pending_peers: peers });
                proof {
                    assert forall|k: int| 0 <= k < before.len() implies before[k].message_id != entry.0 by {
                        let j = choose|j: int| 0 <= j < i && before[k].message_id == self.outbound@[j].0;
                        assert(self.outbound@[j].0 != self.outbound@[i as int].0);
                    }
                    assert forall|k: int| 0 <= k < out@.len() implies exists|j: int| 0 <= j < i + 1 && (#[trigger] out@[k]).message_id == self.outbound@[j].0 by {
                        if k < before.len() {
                            assert(out@[k] == before[k]);
                            let j = choose|j: int| 0 <= j < i && before[k].message_id == self.outbound@[j].0;
                            assert(0 <= j < i + 1);
                        } else {
                            assert(out@[k].message_id == self.outbound@[i as int].0);
                        }
                    }
                    assert forall|j: int| 0 <= j < i + 1 && !usable((#[trigger] self.outbound@[j]).1.pending()).is_empty()
                        implies exists|k: int| 0 <= k < out@.len() && out@[k].message_id == self.outbound@[j].0 by {
                        if j < i {
                            let k = choose|k: int| 0 <= k < before.len() && before[k].message_id == self.outbound@[j].0;
                            assert(out@[k] == before[k]);
                        } else {
                            assert(out@[before.len() as int].message_id == self.outbound@[j].0);
                        }
                    }
                }
            } else {
                proof {
                    assert(usable(self.outbound@[i as int].1.pending()) =~= Set::<Seq<char>>::empty());
                }
            }
            i = i + 1;
        }
        proof {
            assert forall|m: u128| self.outbound_map().dom().contains(m) && !usable(#[trigger] self.outbound_map()[m].pending()).is_empty()
                implies exists|k: int| 0 <= k < out@.len() && out@[k].message_id == m by {
                lemma_keyed_map_dom(self.outbound@, m);
                let j = choose|j: int| 0 <= j < self.outbound@.len() && self.outbound@[j].0 == m;
                lemma_keyed_map_index(self.outbound@, j);
                assert(!usable(self.outbound@[j].1.pending()).is_empty());
            }
        }
        out
    }

    /// Files an inbound envelope under its message id, replacing any
    /// earlier record of it.
    pub fn store_inbound(&mut self, envelope: TransportEnvelope, stored_ms: i64)
        requires
            old(self).wf(),
        ensures
            stored_inbound(old(self), final(self), envelope, stored_ms),
    {
        let message_id = envelope.message_id;
        let record = InboundRecord { envelope, stored_ms };
        let ghost before = self.inbound@;
        match self.find_inbound(message_id) {
            Some(i) => {
                self.inbound.set(i, (message_id, record));
                proof {
                    lemma_keyed_map_update(before, i as int, record);
                    assert(self.inbound@ =~= before.update(i as int, (before[i as int].0, record)));
                }
            },
            None => {
                self.inbound.push((message_id, record));
                proof { lemma_keyed_map_push(before, message_id, record); }
            },
        }
    }
}

/// The domain of the map of a sequence with unique keys has one key per entry.
pub proof fn lemma_keyed_len<V>(s: Seq<(u128, V)>)
    requires
        keys_unique(s),
    ensures
        keyed_map(s).dom().finite(),
        keyed_map(s).dom().len() == s.len(),
    decreases s.len(),
{
    if s.len() > 0 {
        let t = s.drop_last();
        lemma_keyed_len(t);
        lemma_keyed_map_dom(t, s.last().0);
        assert(!keyed_map(t).dom().contains(s.last().0));
    }
}

/// Storing an inbound envelope a second time leaves the store as storing
/// it once, with the later time stamp, leaves it.
pub proof fn lemma_store_inbound_idempotent(
    s0: &NodeStore,
    s1: &NodeStore,
    s2: &NodeStore,
    once: &NodeStore,
    envelope: TransportEnvelope,
    t1: i64,
    t2: i64,
)
    requires
        stored_inbound(s0, s1, envelope, t1),
        stored_inbound(s1, s2, envelope, t2),
        stored_inbound(s0, once, envelope, t2),
    ensures
        s2.inbound_map() == once.inbound_map(),
        s2.outbound_map() == once.outbound_map(),
        s2.inbound_map().dom() == s1.inbound_map().dom(),
{
    assert(s2.inbound_map() =~= once.inbound_map());
}

/// After an envelope is filed for three peers and one of them acknowledges,
/// the other two stay pending and the one is acknowledged; once all three
/// acknowledged, the record is gone.
pub proof fn lemma_ack_semantics(
    s0: &NodeStore,
    s1: &NodeStore,
    s2: &NodeStore,
    s3: &NodeStore,
    s4: &NodeStore,
    message_id: u128,
    envelope: TransportEnvelope,
    peers: Seq<String>,
    peer_a: Seq<char>,
    peer_b: Seq<char>,
    peer_c: Seq<char>,
    r2: bool,
    r3: bool,
    r4: bool,
)
    requires
        s0.wf(),
        !s0.outbound_map().dom().contains(message_id),
        peer_set(peers) == set![peer_a, peer_b, peer_c],
        peer_a != peer_b && peer_b != peer_c && peer_a != peer_c,
        inserted_outbound(s0, s1, message_id, envelope, peers),
        acked_by(s1, s2, message_id, peer_b, r2),
        acked_by(s2, s3, message_id, peer_a, r3),
        acked_by(s3, s4, message_id, peer_c, r4),
    ensures
        !r2,
        s2.outbound_map().dom().contains(message_id),
        s2.outbound_map()[message_id].pending() == set![peer_a, peer_c],
        s2.outbound_map()[message_id].acked() == set![peer_b],
        !r3,
        r4,
        !s4.outbound_map().dom().contains(message_id),
{
    let e = Set::<Seq<char>>::empty();
    assert(e.union(set![peer_a, peer_b, peer_c]).difference(e) =~= set![peer_a, peer_b, peer_c]);
    assert(set![peer_a, peer_b, peer_c].contains(peer_a));
    assert(set![peer_a, peer_b, peer_c].remove(peer_b) =~= set![peer_a, peer_c]);
    assert(set![peer_a, peer_c].contains(peer_a));
    assert(e.insert(peer_b) =~= set![peer_b]);
    assert(set![peer_a, peer_c].remove(peer_a) =~= set![peer_c]);
    assert(set![peer_c].contains(peer_c));
    assert(set![peer_c].remove(peer_c) =~= e);
}

/// A record filed for a message that had none holds exactly the envelope
/// and peers it was filed with, and no acknowledged peer: this is the record
/// that [`NodeStore::load_pending`] hands to the retry loop until a peer
/// acknowledges.
pub proof fn lemma_filed_record_kept(
    s0: &NodeStore,
    s1: &NodeStore,
    message_id: u128,
    envelope: TransportEnvelope,
    peers: Seq<String>,
)
    requires
        !s0.outbound_map().dom().contains(message_id),
        peers.len() > 0,
        inserted_outbound(s0, s1, message_id, envelope, peers),
    ensures
        s1.outbound_map().dom().contains(message_id),
        s1.outbound_map()[message_id].envelope == envelope,
        s1.outbound_map()[message_id].pending() == peer_set(peers),
        s1.outbound_map()[message_id].acked() == Set::<Seq<char>>::empty(),
{
    let e = Set::<Seq<char>>::empty();
    lemma_peer_set_empty(peers);
    assert(e.union(peer_set(peers)).difference(e) =~= peer_set(peers));
}

} // verus!
