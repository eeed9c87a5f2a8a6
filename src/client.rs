//! Client-side models: conversations, contacts, groups, emotes, QR key
//! exchange payloads, and the wire messages of the direct connection.

use vstd::prelude::*;
use vstd::string::StrSliceExecFns;
use vstd::string::StringSliceAdditionalSpecFns;

verus! {

/// Seconds since the Unix epoch, now.
fn now_secs() -> (r: i64) {
    crate::messages::now_ms() / 1000
}

/// Which screen the client shows.
#[derive(Debug, Clone, Copy, PartialEq, Eq, Structural)]
pub enum AppView {
    Login,
    Onboarding,
    Chat,
}

/// One chat message as the client keeps it.
#[derive(Debug)]
pub struct ChatMessage {
    pub sender_name: String,
    pub content: String,
    pub is_mine: bool,
    pub timestamp: String,
    /// Inline image bytes, kept in memory.
    pub image_data: Option<Vec<u8>>,
    pub image_filename: Option<String>,
    /// Reactions as `(emoji, sender name)`.
    pub reactions: Vec<(String, String)>,
    /// Custom emotes used, as `(name, hash)`.
    pub emotes: Vec<(String, String)>,
}

/// A conversation and its state in the client.
#[derive(Debug)]
pub struct Conversation {
    pub id: String,
    pub name: String,
    pub messages: Vec<ChatMessage>,
    pub unread_count: usize,
    pub last_activity: u64,
    pub input_draft: String,
    pub is_typing: bool,
    pub last_read: Option<String>,
    pub peer_address: Option<String>,
}

impl Conversation {
    /// An empty conversation.
    pub fn new(id: String, name: String, peer_address: Option<String>) -> (r: Conversation)
        ensures
            r.id@ == id@,
            r.name@ == name@,
            r.peer_address == peer_address,
            r.messages@.len() == 0,
            r.unread_count == 0,
            r.last_activity == 0,
            r.input_draft@.len() == 0,
            !r.is_typing,
            r.last_read is None,
    {
        Conversation {
            id,
            name,
            messages: Vec::new(),
            unread_count: 0,
            last_activity: 0,
            input_draft: String::new(),
            is_typing: false,
            last_read: None,
            peer_address,
        }
    }
}

/// A contact kept for quick reconnection.
#[derive(Debug)]
pub struct SimpleContact {
    pub name: String,
    pub fingerprint: String,
    pub public_key: String,
    pub address: String,
}

impl SimpleContact {
    pub fn duplicate(&self) -> (r: SimpleContact)
        ensures
            r == *self,
    {
        SimpleContact {
            name: self.name.clone(),
            fingerprint: self.fingerprint.clone(),
            public_key: self.public_key.clone(),
            address: self.address.clone(),
        }
    }
}

/// The fingerprints of a list of contacts.
pub open spec fn contact_fingerprints(v: Seq<SimpleContact>) -> Seq<Seq<char>> {
    v.map_values(|c: SimpleContact| c.fingerprint@)
}

/// Whether a fingerprint belongs to one of the contacts.
pub fn is_contact(contacts: &Vec<SimpleContact>, fingerprint: &str) -> (r: bool)
    ensures
        r == contact_fingerprints(contacts@).contains(fingerprint@),
{
    let wanted = String::from_str(fingerprint);
    let mut i: usize = 0;
    while i < contacts.len()
        invariant
            0 <= i <= contacts@.len(),
            wanted@ == fingerprint@,
            forall|j: int| 0 <= j < i ==> contacts@[j].fingerprint@ != fingerprint@,
        decreases contacts@.len() - i,
    {
        if contacts[i].fingerprint == wanted {
            proof { assert(contact_fingerprints(contacts@)[i as int] == fingerprint@); }
            return true;
        }
        i = i + 1;
    }
    proof {
        if contact_fingerprints(contacts@).contains(fingerprint@) {
            let j = choose|j: int| 0 <= j < contacts@.len() && contact_fingerprints(contacts@)[j] == fingerprint@;
            assert(contacts@[j].fingerprint@ == fingerprint@);
        }
    }
    false
}

/// Contacts whose fingerprint is not `fp`.
pub open spec fn not_fingerprint(fp: Seq<char>) -> spec_fn(SimpleContact) -> bool {
    |c: SimpleContact| c.fingerprint@ != fp
}

/// Adds a contact, replacing every contact with the same fingerprint; the
/// others keep their order and the new contact goes last.
pub fn upsert_simple_contact(contacts: &mut Vec<SimpleContact>, contact: SimpleContact)
    ensures
        final(contacts)@ == old(contacts)@.filter(not_fingerprint(contact.fingerprint@)).push(contact),
{
    let mut kept: Vec<SimpleContact> = Vec::new();
    let ghost keep = not_fingerprint(contact.fingerprint@);
    let mut i: usize = 0;
    while i < contacts.len()
        invariant
            0 <= i <= contacts@.len(),
            keep == not_fingerprint(contact.fingerprint@),
            kept@ == contacts@.subrange(0, i as int).filter(keep),
        decreases contacts@.len() - i,
    {
        let same = contacts[i].fingerprint == contact.fingerprint;
        proof {
            let pre = contacts@.subrange(0, i as int);
            assert(contacts@.subrange(0, i + 1) =~= pre.push(contacts@[i as int]));
            pre.lemma_filter_push(contacts@[i as int], keep);
        }
        if !same {
            kept.push(contacts[i].duplicate());
        }
        i = i + 1;
    }
    assert(contacts@.subrange(0, contacts@.len() as int) =~= contacts@);
    kept.push(contact);
    *contacts = kept;
}

/// Renames the first contact with a fingerprint whose name differs from
/// `new_name`; returns whether a contact was renamed. Nothing else changes.
pub fn update_contact_name(contacts: &mut Vec<SimpleContact>, fingerprint: &str, new_name: &str) -> (r: bool)
    ensures
        r <==> exists|k: int| 0 <= k < old(contacts)@.len() && old(contacts)@[k].fingerprint@ == fingerprint@
            && old(contacts)@[k].name@ != new_name@,
        !r ==> final(contacts)@ == old(contacts)@,
        r ==> exists|k: int| 0 <= k < old(contacts)@.len() && old(contacts)@[k].fingerprint@ == fingerprint@
            && old(contacts)@[k].name@ != new_name@
            && (forall|j: int| 0 <= j < k ==> !(old(contacts)@[j].fingerprint@ == fingerprint@ && old(contacts)@[j].name@ != new_name@))
            && final(contacts)@[k].name@ == new_name@
            && final(contacts)@ == old(contacts)@.update(k, (SimpleContact {
                name: final(contacts)@[k].name,
                fingerprint: old(contacts)@[k].fingerprint,
                public_key: old(contacts)@[k].public_key,
                address: old(contacts)@[k].address,
            })),
{
    let wanted = String::from_str(fingerprint);
    let name = String::from_str(new_name);
    let mut i: usize = 0;
    while i < contacts.len()
        invariant
            0 <= i <= contacts@.len(),
            contacts@ == old(contacts)@,
            wanted@ == fingerprint@,
            name@ == new_name@,
            forall|j: int| 0 <= j < i ==> !(contacts@[j].fingerprint@ == fingerprint@ && contacts@[j].name@ != new_name@),
        decreases contacts@.len() - i,
    {
        if contacts[i].fingerprint == wanted && contacts[i].name != name {
            let renamed = SimpleContact {
                name: String::from_str(new_name),
                fingerprint: contacts[i].fingerprint.clone(),
                public_key: contacts[i].public_key.clone(),
                address: contacts[i].address.clone(),
            };
            contacts.set(i, renamed);
            assert(contacts@[i as int].name@ == new_name@);
            assert(contacts@ =~= old(contacts)@.update(i as int, (SimpleContact {
                name: contacts@[i as int].name,
                fingerprint: old(contacts)@[i as int].fingerprint,
                public_key: old(contacts)@[i as int].public_key,
                address: old(contacts)@[i as int].address,
            })));
            assert(old(contacts)@[i as int].fingerprint@ == fingerprint@ && old(contacts)@[i as int].name@ != new_name@);
            return true;
        }
        i = i + 1;
    }
    false
}

/// A message kept in the chat history.
#[derive(Debug)]
pub struct StoredMessage {
    pub sender_name: String,
    pub content: String,
    pub is_mine: bool,
    pub timestamp: String,
    /// When the message disappears (RFC 3339), if ever.
    pub expires_at: Option<String>,
    /// Custom emotes used, as `(name, hash)`.
    pub emotes: Vec<(String, String)>,
}

/// A custom emote in the user's library.
#[derive(Debug)]
pub struct Emote {
    pub name: String,
    pub hash: String,
    pub extension: String,
}

impl Emote {
    pub fn duplicate(&self) -> (r: Emote)
        ensures
            r.name@ == self.name@,
            r.hash@ == self.hash@,
            r.extension@ == self.extension@,
    {
        Emote { name: self.name.clone(), hash: self.hash.clone(), extension: self.extension.clone() }
    }
}

/// The user's emote library and the index of cached emotes.
#[derive(Debug)]
pub struct EmoteManager {
    /// The library, one emote per name.
    pub library: Vec<Emote>,
    /// Cached emotes as `(hash, path)`.
    pub cache: Vec<(String, String)>,
    pub base_path: String,
}

impl EmoteManager {
    /// The emote with a name, if the library has one.
    pub fn get_emote_by_name(&self, name: &str) -> (r: Option<Emote>)
        ensures
            r is None <==> forall|i: int| 0 <= i < self.library@.len() ==> self.library@[i].name@ != name@,
            r is Some ==> r->0.name@ == name@ && exists|i: int| 0 <= i < self.library@.len()
                && self.library@[i].name@ == name@ && r->0.hash@ == self.library@[i].hash@
                && r->0.extension@ == self.library@[i].extension@,
    {
        let wanted = String::from_str(name);
        let mut i: usize = 0;
        while i < self.library.len()
            invariant
                0 <= i <= self.library@.len(),
                wanted@ == name@,
                forall|j: int| 0 <= j < i ==> self.library@[j].name@ != name@,
            decreases self.library@.len() - i,
        {
            if self.library[i].name == wanted {
                return Some(self.library[i].duplicate());
            }
            i = i + 1;
        }
        None
    }
}

/// Who may invite new members into a group.
#[derive(Debug)]
pub enum InvitePermission {
    AdminsOnly,
    AllMembers,
    /// Fingerprints allowed to invite.
    Whitelist(Vec<String>),
}

#[derive(Debug)]
pub struct GroupSettings {
    pub invite_permission: InvitePermission,
    pub max_members: Option<usize>,
    /// Disappearing-message timer in seconds, if enabled.
    pub disappearing_timer_secs: Option<u64>,
}

#[derive(Debug)]
pub struct GroupMember {
    pub fingerprint: String,
    pub username: String,
    pub public_key: String,
    pub address: String,
    /// RFC 3339 time of joining.
    pub joined_at: String,
}

#[derive(Debug)]
pub struct Group {
    pub id: String,
    pub name: String,
    pub created_at: String,
    pub creator_fingerprint: String,
    pub members: Vec<GroupMember>,
    /// Fingerprints of the admins.
    pub admins: Vec<String>,
    pub settings: GroupSettings,
    /// Shared AES-256 key of the group.
    pub symmetric_key: Vec<u8>,
}

/// Groups whose id is not `id`.
pub open spec fn not_group(id: Seq<char>) -> spec_fn(Group) -> bool {
    |g: Group| g.id@ != id
}

/// Removes every group with an id, keeping the others, unchanged and in order.
pub fn delete_group(groups: &mut Vec<Group>, group_id: &str)
    ensures
        final(groups)@ == old(groups)@.filter(not_group(group_id@)),
{
    let mut kept: Vec<Group> = Vec::new();
    let ghost keep = not_group(group_id@);
    let wanted = String::from_str(group_id);
    while groups.len() > 0
        invariant
            keep == not_group(group_id@),
            wanted@ == group_id@,
            kept@ + groups@.filter(keep) == old(groups)@.filter(keep),
        decreases groups@.len(),
    {
        let ghost before = groups@;
        let ghost kept_before = kept@;
        let g = groups.remove(0);
        proof {
            assert(before =~= seq![g] + groups@);
            Seq::filter_distributes_over_add(seq![g], groups@, keep);
            reveal_with_fuel(Seq::filter, 2);
            assert(seq![g].drop_last() =~= Seq::<Group>::empty());
        }
        if g.id != wanted {
            kept.push(g);
            assert(kept@ =~= kept_before + seq![g]);
        }
    }
    assert(groups@.filter(keep) =~= Seq::<Group>::empty()) by {
        reveal(Seq::filter);
    }
    assert(kept@ + Seq::<Group>::empty() =~= kept@);
    *groups = kept;
}

/// Version of the QR payload format.
pub const QR_VERSION: u32 = 1;

/// Oldest accepted QR payload, in seconds.
pub const MAX_QR_AGE_SECONDS: i64 = 300;

/// Length of a fingerprint in a QR payload: 40 hex digits.
pub const QR_FINGERPRINT_LEN: usize = 40;

/// Why a QR payload was refused.
#[derive(Debug, Clone, Copy, PartialEq, Eq, Structural)]
pub enum QrError {
    UnsupportedVersion(u32),
    InvalidFingerprint,
    FromTheFuture,
    Expired(i64),
    InvalidPublicKey,
    /// The embedded public key does not parse as a certificate.
    UnreadableKey,
    /// The embedded key's fingerprint is not the one the payload claims.
    FingerprintMismatch,
    /// The self-signature does not verify under the embedded key.
    BadSignature,
}

/// Key material exchanged through a QR code.
#[derive(Debug)]
pub struct QrPayload {
    v: u32,
    fp: String,
    pk: String,
    ts: i64,
    sig: String,
}

/// An ASCII hex digit.
pub open spec fn is_hex_byte(b: u8) -> bool {
    (0x30 <= b <= 0x39) || (0x41 <= b <= 0x46) || (0x61 <= b <= 0x66)
}

/// First line of an armored public key.
pub const PUBLIC_KEY_HEADER: &'static str = "-----BEGIN PGP PUBLIC KEY BLOCK-----";

fn hex_digits_only(b: &[u8]) -> (r: bool)
    ensures
        r <==> forall|i: int| 0 <= i < b@.len() ==> is_hex_byte(#[trigger] b@[i]),
{
    let mut i: usize = 0;
    while i < b.len()
        invariant
            0 <= i <= b@.len(),
            forall|j: int| 0 <= j < i ==> is_hex_byte(#[trigger] b@[j]),
        decreases b@.len() - i,
    {
        let c = b[i];
        if !((0x30 <= c && c <= 0x39) || (0x41 <= c && c <= 0x46) || (0x61 <= c && c <= 0x66)) {
            return false;
        }
        i = i + 1;
    }
    true
}

fn starts_with_bytes(b: &[u8], prefix: &[u8]) -> (r: bool)
    ensures
        r <==> prefix@.len() <= b@.len() && b@.subrange(0, prefix@.len() as int) == prefix@,
{
    if prefix.len() > b.len() {
        return false;
    }
    let mut i: usize = 0;
    while i < prefix.len()
        invariant
            0 <= i <= prefix@.len() <= b@.len(),
            forall|j: int| 0 <= j < i ==> b@[j] == prefix@[j],
        decreases prefix@.len() - i,
    {
        if b[i] != prefix[i] {
            proof { assert(b@.subrange(0, prefix@.len() as int)[i as int] != prefix@[i as int]); }
            return false;
        }
        i = i + 1;
    }
    assert(b@.subrange(0, prefix@.len() as int) =~= prefix@);
    true
}

/// What [`QrPayload::validate`] decides at a given time, given the
/// fingerprint of the embedded key (`None` when it does not parse) and
/// whether the self-signature verified under it.
pub open spec fn qr_verdict(
    v: u32,
    fp: Seq<u8>,
    pk: Seq<u8>,
    ts: i64,
    now_secs: i64,
    claimed: Seq<char>,
    key_fingerprint: Option<Seq<char>>,
    signature_valid: bool,
) -> Result<(), QrError> {
    if v != QR_VERSION {
        Err(QrError::UnsupportedVersion(v))
    } else if fp.len() != QR_FINGERPRINT_LEN || !(forall|i: int| 0 <= i < fp.len() ==> is_hex_byte(#[trigger] fp[i])) {
        Err(QrError::InvalidFingerprint)
    } else if now_secs - ts < 0 {
        Err(QrError::FromTheFuture)
    } else if now_secs - ts > MAX_QR_AGE_SECONDS {
        Err(QrError::Expired((now_secs - ts) as i64))
    } else if !(PUBLIC_KEY_HEADER.spec_bytes().len() <= pk.len() && pk.subrange(0, PUBLIC_KEY_HEADER.spec_bytes().len() as int) == PUBLIC_KEY_HEADER.spec_bytes()) {
        Err(QrError::InvalidPublicKey)
    } else if key_fingerprint is None {
        Err(QrError::UnreadableKey)
    } else if key_fingerprint->0 != claimed {
        Err(QrError::FingerprintMismatch)
    } else if !signature_valid {
        Err(QrError::BadSignature)
    } else {
        Ok(())
    }
}

impl QrPayload {
    pub closed spec fn version_view(&self) -> u32 { self.v }
    pub closed spec fn fingerprint_view(&self) -> Seq<char> { self.fp@ }
    pub closed spec fn public_key_view(&self) -> Seq<char> { self.pk@ }
    pub closed spec fn timestamp_view(&self) -> i64 { self.ts }
    pub closed spec fn signature_view(&self) -> Seq<char> { self.sig@ }

    /// A payload stamped now.
    pub fn new(fingerprint: String, public_key: String, signature: String) -> (r: QrPayload)
        ensures
            r.version_view() == QR_VERSION,
            r.fingerprint_view() == fingerprint@,
            r.public_key_view() == public_key@,
            r.signature_view() == signature@,
    {
        QrPayload { v: QR_VERSION, fp: fingerprint, pk: public_key, ts: now_secs(), sig: signature }
    }

    /// A payload with every field given, as read back from a QR code.
    pub fn from_parts(v: u32, fingerprint: String, public_key: String, timestamp: i64, signature: String) -> (r: QrPayload)
        ensures
            r.version_view() == v,
            r.fingerprint_view() == fingerprint@,
            r.public_key_view() == public_key@,
            r.timestamp_view() == timestamp,
            r.signature_view() == signature@,
    {
        QrPayload { v, fp: fingerprint, pk: public_key, ts: timestamp, sig: signature }
    }

    pub fn public_key(&self) -> (r: &str)
        ensures
            r@ == self.public_key_view(),
    {
        self.pk.as_str()
    }

    pub fn fingerprint(&self) -> (r: &str)
        ensures
            r@ == self.fingerprint_view(),
    {
        self.fp.as_str()
    }

    pub fn signature(&self) -> (r: &str)
        ensures
            r@ == self.signature_view(),
    {
        self.sig.as_str()
    }

    pub fn version(&self) -> (r: u32)
        ensures
            r == self.version_view(),
    {
        self.v
    }

    pub fn timestamp(&self) -> (r: i64)
        ensures
            r == self.timestamp_view(),
    {
        self.ts
    }

    /// Checks the payload at time `now_secs`: the version, a fingerprint of
    /// 40 hex digits, an age between zero and five minutes, an armored public
    /// key, then that the key parsed (`key_fingerprint` is its fingerprint,
    /// `None` when it does not parse), that its fingerprint is the claimed
    /// one, and that the self-signature verified under it
    /// (`signature_valid`). Parsing the key and verifying the signature are
    /// done by the caller with OpenPGP.
    pub fn validate(&self, now_secs: i64, key_fingerprint: Option<&str>, signature_valid: bool) -> (r: Result<(), QrError>)
        ensures
            r == qr_verdict(
                self.version_view(),
                self.fingerprint_bytes(),
                self.public_key_bytes(),
                self.timestamp_view(),
                now_secs,
                self.fingerprint_view(),
                match key_fingerprint { Some(f) => Some(f@), None => None },
                signature_valid,
            ),
    {
        if self.v != QR_VERSION {
            return Err(QrError::UnsupportedVersion(self.v));
        }
        let fp = self.fp.as_str().as_bytes();
        if fp.len() != QR_FINGERPRINT_LEN || !hex_digits_only(fp) {
            return Err(QrError::InvalidFingerprint);
        }
        let age = now_secs as i128 - self.ts as i128;
        if age < 0 {
            return Err(QrError::FromTheFuture);
        }
        if age > MAX_QR_AGE_SECONDS as i128 {
            return Err(QrError::Expired(age as i64));
        }
        if !starts_with_bytes(self.pk.as_str().as_bytes(), PUBLIC_KEY_HEADER.as_bytes()) {
            return Err(QrError::InvalidPublicKey);
        }
        match key_fingerprint {
            None => Err(QrError::UnreadableKey),
            Some(f) => {
                if String::from_str(f) != self.fp {
                    Err(QrError::FingerprintMismatch)
                } else if !signature_valid {
                    Err(QrError::BadSignature)
                } else {
                    Ok(())
                }
            },
        }
    }

    pub closed spec fn fingerprint_bytes(&self) -> Seq<u8> {
        vstd::utf8::encode_utf8(self.fp@)
    }

    pub closed spec fn public_key_bytes(&self) -> Seq<u8> {
        vstd::utf8::encode_utf8(self.pk@)
    }
}

/// One cell of the identicon of a fingerprint's bytes: column `c` mirrors
/// column `4 - c`, and a cell is the bit `c'` of the byte at
/// `(3 * row + c') mod len`, where `c'` is the column folded onto 0..3.
pub open spec fn identicon_cell(b: Seq<u8>, row: int, col: int) -> bool {
    let c = if col < 3 { col } else { 4 - col };
    let idx = (row * 3 + c) % (b.len() as int);
    ((b[idx] >> (c as u8)) & 1u8) == 1u8
}

/// A 5x5 mirrored identicon for checking a fingerprint by eye.
pub fn generate_identicon(fingerprint: &str) -> (r: [[bool; 5]; 5])
    requires
        fingerprint@.len() > 0,
    ensures
        forall|row: int, col: int| 0 <= row < 5 && 0 <= col < 5 ==> #[trigger] r[row][col] == identicon_cell(fingerprint.spec_bytes(), row, col),
{
    let bytes = fingerprint.as_bytes();
    proof {
        vstd::utf8::encode_utf8_decode_utf8(fingerprint@);
        if bytes@.len() == 0 {
            assert(vstd::utf8::decode_utf8(bytes@) =~= Seq::<char>::empty());
        }
    }
    let n = bytes.len();
    let mut grid = [[false; 5]; 5];
    let mut row: usize = 0;
    while row < 5
        invariant
            0 <= row <= 5,
            n == bytes@.len(),
            n > 0,
            bytes@ == fingerprint.spec_bytes(),
            forall|i: int, col: int| 0 <= i < row && 0 <= col < 5 ==> #[trigger] grid[i][col] == identicon_cell(bytes@, i, col),
        decreases 5 - row,
    {
        let mut line = [false; 5];
        let mut col: usize = 0;
        while col < 3
            invariant
                0 <= col <= 3,
                0 <= row < 5,
                n == bytes@.len(),
                n > 0,
                forall|c: int| 0 <= c < col ==> #[trigger] line[c] == identicon_cell(bytes@, row as int, c),
                forall|c: int| 0 <= c < col ==> #[trigger] line[4 - c] == identicon_cell(bytes@, row as int, 4 - c),
            decreases 3 - col,
        {
            let idx = (row * 3 + col) % n;
            let bit = (bytes[idx] >> (col as u8)) & 1u8;
            line[col] = bit == 1u8;
            line[4 - col] = bit == 1u8;
            col = col + 1;
        }
        assert forall|c: int| 0 <= c < 5 implies #[trigger] line[c] == identicon_cell(bytes@, row as int, c) by {
            if c >= 3 {
                assert(line[4 - (4 - c)] == identicon_cell(bytes@, row as int, 4 - (4 - c)));
            }
        }
        grid[row] = line;
        row = row + 1;
    }
    grid
}

/// A fingerprint's characters from position `i` on, in groups of four
/// separated by spaces.
pub open spec fn grouped_from(s: Seq<char>, i: int) -> Seq<char>
    decreases s.len() - i,
{
    if i < 0 || i >= s.len() {
        Seq::empty()
    } else if i + 4 >= s.len() {
        s.subrange(i, s.len() as int)
    } else {
        s.subrange(i, i + 4) + " "@ + grouped_from(s, i + 4)
    }
}

/// Formats a fingerprint for display, in groups of four characters.
pub fn format_fingerprint(fp: &str) -> (r: String)
    ensures
        r@ == grouped_from(fp@, 0),
{
    let n = fp.unicode_len();
    let mut out = String::new();
    let mut i: usize = 0;
    proof { reveal_strlit(" "); }
    while i < n
        invariant
            n == fp@.len(),
            i <= n,
            i < n ==> out@ + (if i > 0 { " "@ } else { Seq::empty() }) + grouped_from(fp@, i as int) == grouped_from(fp@, 0),
            i >= n ==> out@ == grouped_from(fp@, 0),
            i == 0 ==> out@ == Seq::<char>::empty(),
        decreases n - i,
    {
        if i > 0 {
            out.append(" ");
        }
        let end = if n - i > 4 { i + 4 } else { n };
        let chunk = fp.substring_char(i, end);
        let ghost before = out@;
        out.append(chunk);
        proof {
            if end == n {
                assert(grouped_from(fp@, i as int) == fp@.subrange(i as int, n as int));
            } else {
                assert(grouped_from(fp@, i as int) == fp@.subrange(i as int, i + 4) + " "@ + grouped_from(fp@, i + 4));
                assert(out@ + " "@ + grouped_from(fp@, i + 4) =~= before + fp@.subrange(i as int, i + 4) + " "@ + grouped_from(fp@, i + 4));
            }
        }
        i = end;
    }
    proof {
        if n == 0 {
            assert(grouped_from(fp@, 0) =~= Seq::<char>::empty());
        }
    }
    out
}

/// Key material kept in the platform credential store.
#[derive(Debug)]
pub struct StoredKey {
    pub secret_key_armored: String,
    pub public_key_armored: String,
    pub fingerprint: String,
}

impl StoredKey {
    pub fn new(secret_key: String, public_key: String, fingerprint: String) -> (r: StoredKey)
        ensures
            r.secret_key_armored@ == secret_key@,
            r.public_key_armored@ == public_key@,
            r.fingerprint@ == fingerprint@,
    {
        StoredKey { secret_key_armored: secret_key, public_key_armored: public_key, fingerprint }
    }
}

/// A connection request waiting for the user's approval.
#[derive(Debug)]
pub struct PendingRequest {
    pub sender_fingerprint: String,
    pub sender_public_key: String,
    pub sender_address: String,
    pub sender_name: Option<String>,
    pub timestamp: String,
}

/// A message body with the custom emotes it uses, as `(name, hash)`.
#[derive(Debug)]
pub struct EmotePayload {
    pub content: String,
    pub emotes: Vec<(String, String)>,
}

/// Outcome of generating keys.
#[derive(Debug)]
pub struct KeyGenResult {
    pub fingerprint: String,
}

/// Outcome of importing a peer's key share.
#[derive(Debug)]
pub struct ImportResult {
    pub fingerprint: String,
    pub address: String,
    pub username: Option<String>,
}

/// Events that the direct connection reports to the client.
#[derive(Debug)]
pub enum NetworkEvent {
    MessageReceived { encrypted_payload: String, sender_name: Option<String> },
    RequestReceived { sender_fingerprint: String, sender_public_key: String, sender_address: String, sender_name: Option<String> },
    TypingUpdate { is_typing: bool },
    ReadReceiptReceived { last_read_timestamp: String },
    FileReceived { filename: String, encrypted_data: String, sender_name: Option<String> },
    ContactRemovalReceived { fingerprint: String },
    Error(String),
}

/// Messages of the direct connection between two clients.
#[derive(Debug)]
pub enum MessageEnvelope {
    Request {
        sender_fingerprint: String,
        sender_public_key: String,
        sender_device_id: String,
        sender_listening_port: u16,
        first_message: String,
        sender_name: Option<String>,
    },
    AcceptedResponse { sender_fingerprint: String, sender_public_key: String, sender_listening_port: u16, sender_name: Option<String> },
    RegularMessage { encrypted_payload: String, sender_name: Option<String> },
    /// Typing started (true) or stopped (false).
    TypingIndicator { is_typing: bool },
    /// Time stamp of the last message read.
    ReadReceipt { last_read_timestamp: String },
    /// An encrypted file, as base64.
    FileMessage { filename: String, encrypted_data: String, sender_name: Option<String> },
    ContactRemoved { fingerprint: String },
}

/// A key share: public key, address and optional user name.
#[derive(Debug)]
pub struct KeyShareData {
    pub public_key: String,
    pub address: String,
    pub username: Option<String>,
}

/// Largest frame body of the direct connection.
pub const MAX_FRAME_LEN: usize = 0xFFFF_FFFF;

/// Frames a message body for the direct connection: its length as four
/// big-endian bytes, then the body.
pub fn frame_message(body: &[u8]) -> (r: Vec<u8>)
    requires
        body@.len() <= MAX_FRAME_LEN,
    ensures
        r@.len() == body@.len() + 4,
        r@.subrange(4, r@.len() as int) == body@,
        (r@[0] as int) * 0x100_0000 + (r@[1] as int) * 0x1_0000 + (r@[2] as int) * 0x100 + (r@[3] as int) == body@.len(),
{
    let n = body.len() as u32;
    let mut out: Vec<u8> = Vec::new();
    let b0 = (n >> 24u32) as u8;
    let b1 = ((n >> 16u32) & 0xff) as u8;
    let b2 = ((n >> 8u32) & 0xff) as u8;
    let b3 = (n & 0xff) as u8;
    assert((b0 as u32) * 0x100_0000 + (b1 as u32) * 0x1_0000 + (b2 as u32) * 0x100 + (b3 as u32) == n) by (bit_vector)
        requires
            b0 == (n >> 24u32) as u8,
            b1 == ((n >> 16u32) & 0xff) as u8,
            b2 == ((n >> 8u32) & 0xff) as u8,
            b3 == (n & 0xff) as u8,
    ;
    out.push(b0);
    out.push(b1);
    out.push(b2);
    out.push(b3);
    let mut i: usize = 0;
    while i < body.len()
        invariant
            0 <= i <= body@.len(),
            out@.len() == 4 + i,
            out@[0] == b0 && out@[1] == b1 && out@[2] == b2 && out@[3] == b3,
            out@.subrange(4, out@.len() as int) == body@.subrange(0, i as int),
        decreases body@.len() - i,
    {
        out.push(body[i]);
        i = i + 1;
        assert(out@.subrange(4, out@.len() as int) =~= body@.subrange(0, i as int));
    }
    assert(body@.subrange(0, body@.len() as int) =~= body@);
    out
}

/// The body length announced by a frame header.
pub fn frame_len(header: [u8; 4]) -> (r: u32)
    ensures
        r as int == (header[0] as int) * 0x100_0000 + (header[1] as int) * 0x1_0000 + (header[2] as int) * 0x100 + (header[3] as int),
{
    let (b0, b1, b2, b3) = (header[0], header[1], header[2], header[3]);
    assert(((b0 as u32) << 24u32) | ((b1 as u32) << 16u32) | ((b2 as u32) << 8u32) | (b3 as u32)
        == (b0 as u32) * 0x100_0000 + (b1 as u32) * 0x1_0000 + (b2 as u32) * 0x100 + (b3 as u32)) by (bit_vector);
    ((b0 as u32) << 24u32) | ((b1 as u32) << 16u32) | ((b2 as u32) << 8u32) | (b3 as u32)
}

} // verus!
