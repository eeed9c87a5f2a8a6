//! Deterministic key material, detached signatures and the symmetric
//! envelope payload used by the messaging models.
//!
//! SHA-256, the unpadded base64 alphabet and the ChaCha20 stream come from
//! outside crates; their results are named below and everything built on
//! them is proved against those names.

use vstd::prelude::*;
use base64::Engine;
use rand::RngCore;
use rand::SeedableRng;
use sha2::Digest;

verus! {

/// SHA-256 digest of a byte sequence.
pub uninterp spec fn sha256_of(data: Seq<u8>) -> Seq<u8>;

/// Standard-alphabet base64 text of a byte sequence, without padding.
pub uninterp spec fn b64_nopad_of(data: Seq<u8>) -> Seq<char>;

/// The first `n` words drawn with `next_u32` from a ChaCha20 generator seeded with `seed`.
pub uninterp spec fn chacha_words_of(seed: Seq<u8>, n: nat) -> Seq<u32>;

/// The first `n` bytes that `fill_bytes` draws from a ChaCha20 generator seeded with `seed`.
pub uninterp spec fn chacha_bytes_of(seed: Seq<u8>, n: nat) -> Seq<u8>;

/// Relies on sha2::Sha256::digest: a 32-byte digest that depends on the input alone.
#[verifier::external_body]
pub(crate) fn sha256(data: &[u8]) -> (r: Vec<u8>)
    ensures
        r@ == sha256_of(data@),
        r@.len() == 32,
{
    sha2::Sha256::digest(data).to_vec()
}

/// Relies on base64's STANDARD_NO_PAD engine `encode`.
#[verifier::external_body]
pub(crate) fn b64_nopad_encode(data: &[u8]) -> (r: String)
    ensures
        r@ == b64_nopad_of(data@),
{
    base64::engine::general_purpose::STANDARD_NO_PAD.encode(data)
}

/// Relies on base64's STANDARD_NO_PAD engine `decode`, which reverses `encode`.
#[verifier::external_body]
pub(crate) fn b64_nopad_decode(text: &str) -> (r: Option<Vec<u8>>)
    ensures
        forall|b: Seq<u8>| #[trigger] b64_nopad_of(b) == text@ ==> (r is Some && r->0@ == b),
{
    base64::engine::general_purpose::STANDARD_NO_PAD.decode(text).ok()
}

/// Relies on rand_chacha::ChaCha20Rng: `from_seed`, then `next_u32` drawn `n` times.
#[verifier::external_body]
fn chacha_words(seed: &[u8; 32], n: usize) -> (r: Vec<u32>)
    ensures
        r@ == chacha_words_of(seed@, n as nat),
        r@.len() == n,
{
    let mut rng = rand_chacha::ChaCha20Rng::from_seed(*seed);
    (0..n).map(|_| rng.next_u32()).collect()
}

/// Relies on rand_chacha::ChaCha20Rng: `from_seed`, then `fill_bytes` over `n` bytes.
#[verifier::external_body]
fn chacha_bytes(seed: &[u8; 32], n: usize) -> (r: Vec<u8>)
    ensures
        r@ == chacha_bytes_of(seed@, n as nat),
        r@.len() == n,
{
    let mut rng = rand_chacha::ChaCha20Rng::from_seed(*seed);
    let mut out = vec![0u8; n];
    rng.fill_bytes(&mut out);
    out
}

/// Relies on rand's `OsRng::fill_bytes`, which fills the whole buffer with
/// bytes from the operating system.
#[verifier::external_body]
pub(crate) fn random_bytes(n: usize) -> (r: Vec<u8>)
    ensures
        r@.len() == n,
{
    let mut out = vec![0u8; n];
    rand::rngs::OsRng.fill_bytes(&mut out);
    out
}

/// Errors returned by the key primitives.
#[derive(Debug)]
pub enum CryptoError {
    VerificationFailed,
    DecryptionFailed,
    InvalidCert,
    WrongPassword,
    InvalidCiphertext,
    Internal(String),
}

/// The description of an error.
pub open spec fn error_text(e: &CryptoError) -> Seq<char> {
    match e {
        CryptoError::VerificationFailed => "verification failed"@,
        CryptoError::DecryptionFailed => "decryption failed"@,
        CryptoError::InvalidCert => "invalid certificate"@,
        CryptoError::WrongPassword => "wrong password"@,
        CryptoError::InvalidCiphertext => "invalid ciphertext length"@,
        CryptoError::Internal(msg) => "internal error: "@ + msg@,
    }
}

impl CryptoError {
    /// A short human-readable description of the error.
    pub fn describe(&self) -> (r: String)
        ensures
            r@ == error_text(self),
    {
        match self {
            CryptoError::VerificationFailed => String::from_str("verification failed"),
            CryptoError::DecryptionFailed => String::from_str("decryption failed"),
            CryptoError::InvalidCert => String::from_str("invalid certificate"),
            CryptoError::WrongPassword => String::from_str("wrong password"),
            CryptoError::InvalidCiphertext => String::from_str("invalid ciphertext length"),
            CryptoError::Internal(msg) => String::from_str("internal error: ").concat(msg.as_str()),
        }
    }
}

/// A key fingerprint: printable text derived from the public key.
#[derive(Debug)]
pub struct Fingerprint(pub String);

/// Fingerprint text of a public key.
pub open spec fn fingerprint_text(public_key: Seq<u8>) -> Seq<char> {
    b64_nopad_of(sha256_of(public_key))
}

impl Clone for Fingerprint {
    fn clone(&self) -> (r: Self)
        ensures
            r.0@ == self.0@,
    {
        Fingerprint(self.0.clone())
    }
}

impl Fingerprint {
    /// Fingerprint of a public key: unpadded base64 of its SHA-256 digest.
    pub fn from_public_key(public_key: &[u8]) -> (r: Fingerprint)
        ensures
            r.0@ == fingerprint_text(public_key@),
    {
        let digest = sha256(public_key);
        Fingerprint(b64_nopad_encode(digest.as_slice()))
    }

    pub fn as_str(&self) -> (r: &str)
        ensures
            r@ == self.0@,
    {
        self.0.as_str()
    }
}

/// A deterministic key pair for signing and symmetric envelope encryption.
#[derive(Debug)]
pub struct KeyPair {
    fingerprint: Fingerprint,
    public_key: Vec<u8>,
    private_key: Vec<u8>,
}

/// The 32-byte generator seed taken from an arbitrary seed: its first 32
/// bytes when it has that many, its SHA-256 digest otherwise.
pub open spec fn seed_bytes_of(seed: Seq<u8>) -> Seq<u8> {
    if seed.len() >= 32 {
        seed.subrange(0, 32)
    } else {
        sha256_of(seed)
    }
}

/// The private key derived from a seed.
pub open spec fn private_key_of(seed: Seq<u8>) -> Seq<u8> {
    chacha_bytes_of(seed_bytes_of(seed), 64)
}

/// The public key that belongs to a private key.
pub open spec fn public_key_of(private_key: Seq<u8>) -> Seq<u8> {
    sha256_of(private_key)
}

impl KeyPair {
    /// The key pair is consistent: the public key and the fingerprint follow
    /// from the private key.
    pub open spec fn wf(&self) -> bool {
        &&& self.public_view() == public_key_of(self.private_view())
        &&& self.fingerprint_view() == fingerprint_text(self.public_view())
    }

    pub closed spec fn private_view(&self) -> Seq<u8> {
        self.private_key@
    }

    pub closed spec fn public_view(&self) -> Seq<u8> {
        self.public_key@
    }

    pub closed spec fn fingerprint_view(&self) -> Seq<char> {
        self.fingerprint.0@
    }

    /// Generates a key pair from a seed drawn from the operating system.
    pub fn generate() -> (r: Result<KeyPair, CryptoError>)
        ensures
            r is Ok,
            r->Ok_0.wf(),
    {
        let seed = random_bytes(32);
        KeyPair::from_seed(seed.as_slice())
    }

    /// Generates the key pair that a seed determines.
    pub fn from_seed(seed: &[u8]) -> (r: Result<KeyPair, CryptoError>)
        ensures
            r is Ok,
            r->Ok_0.wf(),
            r->Ok_0.private_view() == private_key_of(seed@),
    {
        let mut seed_bytes = [0u8; 32];
        if seed.len() >= 32 {
            let mut i: usize = 0;
            while i < 32
                invariant
                    0 <= i <= 32,
                    seed@.len() >= 32,
                    forall|j: int| 0 <= j < i ==> seed_bytes[j] == seed@[j],
                decreases 32 - i,
            {
                seed_bytes[i] = seed[i];
                i = i + 1;
            }
            assert(seed_bytes@ =~= seed_bytes_of(seed@));
        } else {
            let digest = sha256(seed);
            let mut i: usize = 0;
            while i < 32
                invariant
                    0 <= i <= 32,
                    digest@.len() == 32,
                    forall|j: int| 0 <= j < i ==> seed_bytes[j] == digest@[j],
                decreases 32 - i,
            {
                seed_bytes[i] = digest[i];
                i = i + 1;
            }
            assert(seed_bytes@ =~= seed_bytes_of(seed@));
        }
        let private_key = chacha_bytes(&seed_bytes, 64);
        let public_key = sha256(private_key.as_slice());
        let fingerprint = Fingerprint::from_public_key(public_key.as_slice());
        Ok(KeyPair { fingerprint, public_key, private_key })
    }

    pub fn fingerprint(&self) -> (r: &Fingerprint)
        ensures
            r.0@ == self.fingerprint_view(),
    {
        &self.fingerprint
    }

    pub fn public_key(&self) -> (r: &[u8])
        ensures
            r@ == self.public_view(),
    {
        self.public_key.as_slice()
    }

    pub fn private_key(&self) -> (r: &[u8])
        ensures
            r@ == self.private_view(),
    {
        self.private_key.as_slice()
    }
}

/// A detached signature, as text.
#[derive(Debug)]
pub struct Signature(pub String);

impl Signature {
    pub fn as_str(&self) -> (r: &str)
        ensures
            r@ == self.0@,
    {
        self.0.as_str()
    }
}

/// The signature text of a message under a private key.
pub open spec fn signature_text(private_key: Seq<u8>, message: Seq<u8>) -> Seq<char> {
    b64_nopad_of(sha256_of(private_key + message))
}

/// A vector holding the bytes of a slice.
pub(crate) fn copy_bytes(a: &[u8]) -> (r: Vec<u8>)
    ensures
        r@ == a@,
{
    let mut out: Vec<u8> = Vec::new();
    let mut i: usize = 0;
    while i < a.len()
        invariant
            0 <= i <= a@.len(),
            out@ == a@.subrange(0, i as int),
        decreases a@.len() - i,
    {
        out.push(a[i]);
        i = i + 1;
        assert(out@ =~= a@.subrange(0, i as int));
    }
    assert(a@.subrange(0, a@.len() as int) =~= a@);
    out
}

/// Concatenation of two byte slices.
pub(crate) fn concat_bytes(a: &[u8], b: &[u8]) -> (r: Vec<u8>)
    ensures
        r@ == a@ + b@,
{
    let mut out: Vec<u8> = Vec::new();
    let mut i: usize = 0;
    while i < a.len()
        invariant
            0 <= i <= a@.len(),
            out@ == a@.subrange(0, i as int),
        decreases a@.len() - i,
    {
        out.push(a[i]);
        i = i + 1;
        assert(out@ =~= a@.subrange(0, i as int));
    }
    let mut k: usize = 0;
    while k < b.len()
        invariant
            0 <= k <= b@.len(),
            out@ == a@ + b@.subrange(0, k as int),
        decreases b@.len() - k,
    {
        out.push(b[k]);
        k = k + 1;
        assert(out@ =~= a@ + b@.subrange(0, k as int));
    }
    assert(b@.subrange(0, b@.len() as int) =~= b@);
    out
}

/// Produces the deterministic signature of a message.
pub fn sign_message(key_pair: &KeyPair, message: &[u8]) -> (r: Result<Signature, CryptoError>)
    ensures
        r is Ok,
        r->Ok_0.0@ == signature_text(key_pair.private_view(), message@),
{
    let data = concat_bytes(key_pair.private_key(), message);
    let digest = sha256(data.as_slice());
    Ok(Signature(b64_nopad_encode(digest.as_slice())))
}

/// Verifies a signature made by [`sign_message`]: it succeeds exactly when
/// the signature is the one the key pair gives the message.
pub fn verify_signature(key_pair: &KeyPair, message: &[u8], signature: &Signature) -> (r: Result<(), CryptoError>)
    ensures
        r is Ok <==> signature.0@ == signature_text(key_pair.private_view(), message@),
        r is Err ==> r->Err_0 is VerificationFailed,
{
    let expected = sign_message(key_pair, message);
    match expected {
        Ok(sig) => {
            if sig.0 == signature.0 {
                Ok(())
            } else {
                Err(CryptoError::VerificationFailed)
            }
        },
        Err(e) => Err(e),
    }
}

/// Symmetric envelope payload: nonce and ciphertext, each as unpadded base64.
#[derive(Debug)]
pub struct EncryptedPayload {
    pub nonce: String,
    pub ciphertext: String,
}

impl EncryptedPayload {
    pub fn new(nonce: &[u8], ciphertext: &[u8]) -> (r: EncryptedPayload)
        ensures
            r.nonce@ == b64_nopad_of(nonce@),
            r.ciphertext@ == b64_nopad_of(ciphertext@),
    {
        EncryptedPayload { nonce: b64_nopad_encode(nonce), ciphertext: b64_nopad_encode(ciphertext) }
    }

    /// Decodes nonce and ciphertext.
    pub fn decode(&self) -> (r: Result<(Vec<u8>, Vec<u8>), CryptoError>)
        ensures
            forall|n: Seq<u8>, c: Seq<u8>|
                #![trigger b64_nopad_of(n), b64_nopad_of(c)]
                b64_nopad_of(n) == self.nonce@ && b64_nopad_of(c) == self.ciphertext@
                    ==> (r is Ok && r->Ok_0.0@ == n && r->Ok_0.1@ == c),
            r is Err ==> r->Err_0 is Internal,
    {
        let nonce = match b64_nopad_decode(self.nonce.as_str()) {
            Some(n) => n,
            None => { return Err(CryptoError::Internal(String::from_str("failed to decode nonce"))); },
        };
        let ciphertext = match b64_nopad_decode(self.ciphertext.as_str()) {
            Some(c) => c,
            None => { return Err(CryptoError::Internal(String::from_str("failed to decode ciphertext"))); },
        };
        Ok((nonce, ciphertext))
    }
}

/// Little-endian bytes of a 64-bit length.
pub open spec fn le_bytes_of(n: u64) -> Seq<u8> {
    Seq::new(8, |i: int| ((n >> (8 * i) as u64) & 0xff) as u8)
}

fn le_bytes(n: u64) -> (r: Vec<u8>)
    ensures
        r@ == le_bytes_of(n),
{
    let mut out: Vec<u8> = Vec::new();
    let mut i: u64 = 0;
    while i < 8
        invariant
            0 <= i <= 8,
            out@.len() == i,
            forall|j: int| 0 <= j < i ==> out@[j] == ((n >> (8 * j) as u64) & 0xff) as u8,
        decreases 8 - i,
    {
        out.push(((n >> (8 * i)) & 0xff) as u8);
        i = i + 1;
    }
    assert(out@ =~= le_bytes_of(n));
    out
}

/// The keystream seed for a fingerprint and a payload length.
pub open spec fn stream_seed_of(fingerprint: Seq<u8>, len: nat) -> Seq<u8> {
    sha256_of(fingerprint + le_bytes_of(len as u64))
}

/// Each byte combined with the low byte of the matching keystream word.
pub open spec fn xor_stream(data: Seq<u8>, words: Seq<u32>) -> Seq<u8> {
    Seq::new(data.len(), |i: int| data[i] ^ ((words[i] & 0xff) as u8))
}

/// The ciphertext bytes of a plaintext under a fingerprint.
pub open spec fn cipher_bytes(fingerprint: Seq<u8>, plaintext: Seq<u8>) -> Seq<u8> {
    xor_stream(plaintext, chacha_words_of(stream_seed_of(fingerprint, plaintext.len()), plaintext.len()))
}

fn apply_stream(data: &mut Vec<u8>, words: &Vec<u32>)
    requires
        old(data)@.len() == words@.len(),
    ensures
        final(data)@ == xor_stream(old(data)@, words@),
{
    let mut i: usize = 0;
    while i < data.len()
        invariant
            data@.len() == old(data)@.len() == words@.len(),
            0 <= i <= data@.len(),
            forall|j: int| 0 <= j < i ==> data@[j] == old(data)@[j] ^ ((words@[j] & 0xff) as u8),
            forall|j: int| i <= j < data@.len() ==> data@[j] == old(data)@[j],
        decreases data@.len() - i,
    {
        let b = data[i] ^ ((words[i] & 0xff) as u8);
        data.set(i, b);
        i = i + 1;
    }
    assert(data@ =~= xor_stream(old(data)@, words@));
}

fn stream_seed(fingerprint: &[u8], len: usize) -> (r: [u8; 32])
    ensures
        r@ == stream_seed_of(fingerprint@, len as nat),
{
    let len_bytes = le_bytes(len as u64);
    let data = concat_bytes(fingerprint, len_bytes.as_slice());
    let digest = sha256(data.as_slice());
    let mut seed = [0u8; 32];
    let mut i: usize = 0;
    while i < 32
        invariant
            0 <= i <= 32,
            digest@.len() == 32,
            forall|j: int| 0 <= j < i ==> seed[j] == digest@[j],
        decreases 32 - i,
    {
        seed[i] = digest[i];
        i = i + 1;
    }
    assert(seed@ =~= digest@);
    seed
}

/// The bytes of the fingerprint text of a key pair.
pub open spec fn fingerprint_bytes(key_pair: &KeyPair) -> Seq<u8> {
    vstd::utf8::encode_utf8(key_pair.fingerprint_view())
}

/// Encrypts a message with the keystream that the key pair's fingerprint and
/// the message length determine; the nonce is the first 24 seed bytes.
pub fn encrypt_message(key_pair: &KeyPair, plaintext: &[u8]) -> (r: Result<EncryptedPayload, CryptoError>)
    ensures
        r is Ok,
        stream_seed_of(fingerprint_bytes(key_pair), plaintext@.len()).len() == 32,
        r->Ok_0.nonce@ == b64_nopad_of(stream_seed_of(fingerprint_bytes(key_pair), plaintext@.len()).subrange(0, 24)),
        r->Ok_0.ciphertext@ == b64_nopad_of(cipher_bytes(fingerprint_bytes(key_pair), plaintext@)),
{
    let fp = key_pair.fingerprint().as_str().as_bytes();
    let seed = stream_seed(fp, plaintext.len());
    let mut nonce: Vec<u8> = Vec::new();
    let mut i: usize = 0;
    while i < 24
        invariant
            0 <= i <= 24,
            seed@.len() == 32,
            nonce@ == seed@.subrange(0, i as int),
        decreases 24 - i,
    {
        nonce.push(seed[i]);
        i = i + 1;
        assert(nonce@ =~= seed@.subrange(0, i as int));
    }
    let words = chacha_words(&seed, plaintext.len());
    let mut ciphertext = copy_bytes(plaintext);
    apply_stream(&mut ciphertext, &words);
    Ok(EncryptedPayload::new(nonce.as_slice(), ciphertext.as_slice()))
}

/// Decrypts a payload made by [`encrypt_message`].
pub fn decrypt_message(key_pair: &KeyPair, payload: &EncryptedPayload) -> (r: Result<Vec<u8>, CryptoError>)
    ensures
        forall|n: Seq<u8>, c: Seq<u8>|
            #![trigger b64_nopad_of(n), b64_nopad_of(c)]
            b64_nopad_of(n) == payload.nonce@ && b64_nopad_of(c) == payload.ciphertext@ ==> {
                &&& (n.len() == 24 ==> r is Ok && r->Ok_0@ == cipher_bytes(fingerprint_bytes(key_pair), c))
                &&& (n.len() != 24 ==> r is Err && r->Err_0 is InvalidCiphertext)
            },
{
    let (nonce, mut ciphertext) = match payload.decode() {
        Ok(parts) => parts,
        Err(e) => { return Err(e); },
    };
    if nonce.len() != 24 {
        return Err(CryptoError::InvalidCiphertext);
    }
    let fp = key_pair.fingerprint().as_str().as_bytes();
    let seed = stream_seed(fp, ciphertext.len());
    let words = chacha_words(&seed, ciphertext.len());
    apply_stream(&mut ciphertext, &words);
    Ok(ciphertext)
}

/// Applying the same keystream twice gives the data back.
pub proof fn lemma_xor_stream_twice(data: Seq<u8>, words: Seq<u32>)
    ensures
        xor_stream(xor_stream(data, words), words) == data,
{
    assert forall|i: int| 0 <= i < data.len() implies #[trigger] xor_stream(xor_stream(data, words), words)[i] == data[i] by {
        let b = data[i];
        let k = ((words[i] & 0xff) as u8);
        assert((b ^ k) ^ k == b) by (bit_vector);
    }
    assert(xor_stream(xor_stream(data, words), words) =~= data);
}

/// Decrypting what [`encrypt_message`] produced under the same key pair
/// gives the plaintext back: the ciphertext has the plaintext's length, so
/// the same keystream is applied twice.
pub proof fn lemma_cipher_round_trip(fingerprint: Seq<u8>, plaintext: Seq<u8>)
    ensures
        cipher_bytes(fingerprint, cipher_bytes(fingerprint, plaintext)) == plaintext,
{
    let words = chacha_words_of(stream_seed_of(fingerprint, plaintext.len()), plaintext.len());
    assert(cipher_bytes(fingerprint, plaintext).len() == plaintext.len());
    lemma_xor_stream_twice(plaintext, words);
}

} // verus!
