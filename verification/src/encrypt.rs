//! Symmetric authenticated encryption with a 32-byte key: the nonce
//! sequence, the algorithms, and the framing of encrypted data. Sealing and
//! opening are done by `ring`.

use std::marker::PhantomData;

use vstd::prelude::*;

use ring::error::Unspecified;

verus! {

#[verifier::external_type_specification]
#[verifier::external_body]
pub struct ExUnspecified(Unspecified);

#[verifier::external_type_specification]
#[verifier::external_body]
pub struct ExPostcardError(postcard::Error);

/// The AEAD algorithms that encrypted data can name.
#[derive(Debug, Clone, Copy, PartialEq, Eq, Structural)]
pub enum EncryptionAlgorithm {
    Chacha20Poly1305,
    Aes256Gcm,
}

/// The algorithm used for new encryptions.
pub open spec fn default_alg() -> EncryptionAlgorithm {
    EncryptionAlgorithm::Chacha20Poly1305
}

/// Length of an AEAD nonce for both algorithms (`ring::aead::NONCE_LEN`).
pub open spec fn nonce_len() -> nat {
    12
}

/// The last `n` bytes of the big-endian encoding of `x`.
pub open spec fn be_bytes(x: nat, n: nat) -> Seq<u8>
    decreases n,
{
    if n == 0 {
        seq![]
    } else {
        be_bytes(x / 256, (n - 1) as nat).push((x % 256) as u8)
    }
}

/// The nonce for counter value `counter`: its eight big-endian bytes
/// followed by four zero bytes.
pub open spec fn spec_nonce(counter: u64) -> Seq<u8> {
    be_bytes(counter as nat, 8) + seq![0u8, 0, 0, 0]
}

/// 256 to the `n`.
pub open spec fn pow256(n: nat) -> nat
    decreases n,
{
    if n == 0 {
        1
    } else {
        256 * pow256((n - 1) as nat)
    }
}

proof fn lemma_be_bytes_len(x: nat, n: nat)
    ensures
        be_bytes(x, n).len() == n,
    decreases n,
{
    if n > 0 {
        lemma_be_bytes_len(x / 256, (n - 1) as nat);
    }
}

proof fn lemma_be_bytes_injective(x: nat, y: nat, n: nat)
    requires
        x < pow256(n),
        y < pow256(n),
        be_bytes(x, n) == be_bytes(y, n),
    ensures
        x == y,
    decreases n,
{
    if n > 0 {
        let m = (n - 1) as nat;
        lemma_be_bytes_len(x / 256, m);
        lemma_be_bytes_len(y / 256, m);
        let bx = be_bytes(x / 256, m);
        let by = be_bytes(y / 256, m);
        assert(be_bytes(x, n) == bx.push((x % 256) as u8));
        assert(be_bytes(y, n) == by.push((y % 256) as u8));
        assert(bx == be_bytes(x, n).drop_last());
        assert(by == be_bytes(y, n).drop_last());
        assert(be_bytes(x, n).last() == (x % 256) as u8);
        assert(be_bytes(y, n).last() == (y % 256) as u8);
        assert((x % 256) as u8 == (y % 256) as u8);
        assert(x % 256 == y % 256);
        let p = pow256(m);
        assert(x / 256 < p) by (nonlinear_arith)
            requires
                x < 256 * p,
        ;
        assert(y / 256 < p) by (nonlinear_arith)
            requires
                y < 256 * p,
        ;
        lemma_be_bytes_injective(x / 256, y / 256, m);
        assert(x == 256 * (x / 256) + x % 256);
        assert(y == 256 * (y / 256) + y % 256);
    }
}

/// Distinct counter values give distinct nonces: a nonce sequence never
/// repeats a nonce.
pub proof fn lemma_nonces_distinct(a: u64, b: u64)
    requires
        a != b,
    ensures
        spec_nonce(a) != spec_nonce(b),
{
    assert(pow256(8) == 0x1_0000_0000_0000_0000) by {
        reveal_with_fuel(pow256, 9);
    }
    lemma_be_bytes_len(a as nat, 8);
    lemma_be_bytes_len(b as nat, 8);
    if spec_nonce(a) == spec_nonce(b) {
        assert(be_bytes(a as nat, 8) == spec_nonce(a).subrange(0, 8));
        assert(be_bytes(b as nat, 8) == spec_nonce(b).subrange(0, 8));
        lemma_be_bytes_injective(a as nat, b as nat, 8);
    }
}

/// What sealing `plaintext` with `alg`, `key`, `nonce` and empty associated
/// data gives (`None` when ring refuses).
pub uninterp spec fn aead_seal(alg: EncryptionAlgorithm, key: Seq<u8>, nonce: Seq<u8>, plaintext: Seq<u8>) -> Option<Seq<u8>>;

/// What opening `ciphertext` with `alg`, `key`, `nonce` and empty associated
/// data gives (`None` when authentication fails).
pub uninterp spec fn aead_open(alg: EncryptionAlgorithm, key: Seq<u8>, nonce: Seq<u8>, ciphertext: Seq<u8>) -> Option<Seq<u8>>;

/// The longest message ring seals with `alg` under one nonce: its block
/// counter has 32 bits (ChaCha20-Poly1305: 64-byte blocks, one spent on the
/// Poly1305 key; AES-256-GCM: 16-byte blocks, two spent per nonce).
pub open spec fn max_seal_len(alg: EncryptionAlgorithm) -> nat {
    match alg {
        EncryptionAlgorithm::Chacha20Poly1305 => 274877906880,
        EncryptionAlgorithm::Aes256Gcm => 68719476704,
    }
}

/// Seals `data` with ring: `UnboundKey::new` for the algorithm and key,
/// `LessSafeKey::new`, then `seal_in_place_append_tag` with the nonce and empty
/// associated data. Trusted: the outcome is a function of the four inputs,
/// named `aead_seal`. Both algorithms take a 32-byte key, so `UnboundKey::new`
/// accepts it; sealing fails only for a message longer than
/// `max_input_len` (`chacha20_poly1305::MAX_IN_OUT_LEN`,
/// `aes_gcm::MAX_IN_OUT_LEN`), and appends the 16-byte tag to the
/// message-sized ciphertext.
#[verifier::external_body]
fn ring_seal(alg: EncryptionAlgorithm, key: &[u8; 32], nonce: [u8; 12], data: &[u8]) -> (r: Result<Vec<u8>, Unspecified>)
    ensures
        data@.len() <= max_seal_len(alg) ==> r is Ok,
        r is Ok ==> r->Ok_0@.len() == data@.len() + 16,
        match aead_seal(alg, key@, nonce@, data@) {
            Some(c) => r is Ok && r->Ok_0@ == c,
            None => r is Err,
        },
{
    let ring_alg = match alg {
        EncryptionAlgorithm::Chacha20Poly1305 => &ring::aead::CHACHA20_POLY1305,
        EncryptionAlgorithm::Aes256Gcm => &ring::aead::AES_256_GCM,
    };
    let key = ring::aead::LessSafeKey::new(ring::aead::UnboundKey::new(ring_alg, key)?);
    let mut out = data.to_vec();
    key.seal_in_place_append_tag(ring::aead::Nonce::assume_unique_for_key(nonce), ring::aead::Aad::empty(), &mut out)?;
    Ok(out)
}

/// Opens `ciphertext` with ring: `UnboundKey::new` for the algorithm and key,
/// `LessSafeKey::new`, then `open_in_place` with the nonce and empty associated
/// data, keeping the plaintext part. Trusted: the outcome is a function of the
/// four inputs, named `aead_open`; and, as ring documents for its AEADs,
/// opening what sealing produced with the same algorithm, key and nonce gives
/// back the sealed plaintext.
#[verifier::external_body]
fn ring_open(alg: EncryptionAlgorithm, key: &[u8; 32], nonce: [u8; 12], ciphertext: &[u8]) -> (r: Result<Vec<u8>, Unspecified>)
    ensures
        match aead_open(alg, key@, nonce@, ciphertext@) {
            Some(p) => r is Ok && r->Ok_0@ == p,
            None => r is Err,
        },
        forall|p: Seq<u8>| aead_seal(alg, key@, nonce@, p) == Some(ciphertext@) ==> r is Ok && r->Ok_0@ == p,
{
    let ring_alg = match alg {
        EncryptionAlgorithm::Chacha20Poly1305 => &ring::aead::CHACHA20_POLY1305,
        EncryptionAlgorithm::Aes256Gcm => &ring::aead::AES_256_GCM,
    };
    let key = ring::aead::LessSafeKey::new(ring::aead::UnboundKey::new(ring_alg, key)?);
    let mut buf = ciphertext.to_vec();
    let len = key.open_in_place(ring::aead::Nonce::assume_unique_for_key(nonce), ring::aead::Aad::empty(), &mut buf)?.len();
    buf.truncate(len);
    Ok(buf)
}

/// Fills 32 bytes from `ring::rand::SystemRandom`. Nothing is promised of
/// the bytes: they are random.
#[verifier::external_body]
fn system_random_32() -> (r: Result<[u8; 32], Unspecified>)
{
    let mut msg = [0u8; 32];
    ring::rand::SecureRandom::fill(&ring::rand::SystemRandom::new(), &mut msg)?;
    Ok(msg)
}

/// Failure to obtain random bytes.
#[derive(Debug)]
pub enum GenerateKeyError {
    UnspecifiedError(Unspecified),
}

/// Generates a random 32-byte key.
pub fn generate_key() -> (r: Result<[u8; 32], GenerateKeyError>)
{
    match system_random_32() {
        Ok(k) => Ok(k),
        Err(e) => Err(GenerateKeyError::UnspecifiedError(e)),
    }
}

/// A 32-byte symmetric key.
pub struct EncryptionKey([u8; 32]);

impl View for EncryptionKey {
    type V = Seq<u8>;

    closed spec fn view(&self) -> Seq<u8> {
        self.0@
    }
}

impl EncryptionKey {
    /// Uses `key` as a symmetric key.
    pub fn dangerous_from_bytes(key: [u8; 32]) -> (r: EncryptionKey)
        ensures
            r@ == key@,
    {
        EncryptionKey(key)
    }

    /// The key bytes.
    pub fn as_bytes(&self) -> (r: &[u8; 32])
        ensures
            r@ == self@,
    {
        &self.0
    }
}

/// The nonce sequence of one sealing or opening key: counts up from 1.
pub struct NonceCounter {
    counter: u64,
}

fn be_bytes_of(x: u64, n: usize) -> (r: Vec<u8>)
    requires
        n <= 8,
    ensures
        r@ == be_bytes(x as nat, n as nat),
        r@.len() == n,
    decreases n,
{
    if n == 0 {
        Vec::new()
    } else {
        let mut v = be_bytes_of(x / 256, n - 1);
        v.push((x % 256) as u8);
        v
    }
}

impl NonceCounter {
    pub closed spec fn value(&self) -> u64 {
        self.counter
    }

    /// A fresh sequence.
    pub fn new() -> (r: NonceCounter)
        ensures
            r.value() == 1,
    {
        NonceCounter { counter: 1 }
    }

    /// The next nonce: the counter in big-endian in the first eight bytes,
    /// zeros after; the counter then moves on by one.
    pub fn advance(&mut self) -> (r: [u8; 12])
        requires
            old(self).value() < u64::MAX,
        ensures
            r@ == spec_nonce(old(self).value()),
            final(self).value() == old(self).value() + 1,
    {
        let bytes = be_bytes_of(self.counter, 8);
        self.counter = self.counter + 1;
        let mut nonce_bytes = [0u8; 12];
        let mut i: usize = 0;
        while i < 8
            invariant
                i <= 8,
                bytes@.len() == 8,
                nonce_bytes@.len() == 12,
                forall|j: int| 0 <= j < i ==> nonce_bytes@[j] == bytes@[j],
                forall|j: int| 8 <= j < 12 ==> nonce_bytes@[j] == 0,
            decreases 8 - i,
        {
            nonce_bytes[i] = bytes[i];
            i = i + 1;
        }
        assert(nonce_bytes@ =~= bytes@ + seq![0u8, 0, 0, 0]);
        nonce_bytes
    }
}

/// Why encryption failed.
#[derive(Debug)]
pub enum EncryptError {
    MarshalError(postcard::Error),
    CreateUnboundError(Unspecified),
    SealError(Unspecified),
}

/// Why decryption failed.
#[derive(Debug)]
pub enum DecryptError {
    UnmarshalError(postcard::Error),
    MissingHashParameters,
    CreateUnboundError(Unspecified),
    UnsealError(Unspecified),
}

/// Encrypted data as the library reads it.
pub struct EncryptedDataView {
    pub ciphertext: Seq<u8>,
    pub alg: EncryptionAlgorithm,
}

/// A ciphertext and the algorithm that produced it.
#[derive(Debug)]
pub struct EncryptedData {
    ciphertext: Vec<u8>,
    alg: EncryptionAlgorithm,
}

impl View for EncryptedData {
    type V = EncryptedDataView;

    closed spec fn view(&self) -> EncryptedDataView {
        EncryptedDataView { ciphertext: self.ciphertext@, alg: self.alg }
    }
}

/// The nonce every encryption and decryption of `EncryptedData` uses: the
/// first one of a fresh nonce sequence.
pub open spec fn first_nonce() -> Seq<u8> {
    spec_nonce(1)
}

impl EncryptedData {
    /// Encrypts `data` under `encryption_key` with the default algorithm.
    pub fn encrypt(data: &[u8], encryption_key: &EncryptionKey) -> (r: Result<EncryptedData, EncryptError>)
        ensures
            aead_seal(default_alg(), encryption_key@, first_nonce(), data@) is Some <==> r is Ok,
            r is Ok ==> r->Ok_0@ == (EncryptedDataView {
                ciphertext: aead_seal(default_alg(), encryption_key@, first_nonce(), data@)->0,
                alg: default_alg(),
            }),
            r is Err ==> r->Err_0 is SealError,
            data@.len() <= max_seal_len(default_alg()) ==> r is Ok,
            r is Ok ==> r->Ok_0@.ciphertext.len() == data@.len() + 16,
    {
        Self::encrypt_with_alg(data, encryption_key, EncryptionAlgorithm::Chacha20Poly1305)
    }

    /// Encrypts `data` under `encryption_key` with `alg`.
    pub fn encrypt_with_alg(data: &[u8], encryption_key: &EncryptionKey, alg: EncryptionAlgorithm) -> (r: Result<EncryptedData, EncryptError>)
        ensures
            aead_seal(alg, encryption_key@, first_nonce(), data@) is Some <==> r is Ok,
            r is Ok ==> r->Ok_0@ == (EncryptedDataView {
                ciphertext: aead_seal(alg, encryption_key@, first_nonce(), data@)->0,
                alg,
            }),
            r is Err ==> r->Err_0 is SealError,
            data@.len() <= max_seal_len(alg) ==> r is Ok,
            r is Ok ==> r->Ok_0@.ciphertext.len() == data@.len() + 16,
    {
        let mut sequence = NonceCounter::new();
        let nonce = sequence.advance();
        match ring_seal(alg, encryption_key.as_bytes(), nonce, data) {
            Ok(ciphertext) => Ok(EncryptedData { ciphertext, alg }),
            Err(e) => Err(EncryptError::SealError(e)),
        }
    }

    /// Decrypts with `encryption_key`. Data that `encrypt` produced from
    /// `d` under the same key decrypts to `d`.
    pub fn decrypt(self, encryption_key: &EncryptionKey) -> (r: Result<Vec<u8>, DecryptError>)
        ensures
            aead_open(self@.alg, encryption_key@, first_nonce(), self@.ciphertext) is Some <==> r is Ok,
            r is Ok ==> r->Ok_0@ == aead_open(self@.alg, encryption_key@, first_nonce(), self@.ciphertext)->0,
            r is Err ==> r->Err_0 is UnsealError,
            forall|d: Seq<u8>| aead_seal(self@.alg, encryption_key@, first_nonce(), d) == Some(self@.ciphertext)
                ==> r is Ok && r->Ok_0@ == d,
    {
        let mut sequence = NonceCounter::new();
        let nonce = sequence.advance();
        match ring_open(self.alg, encryption_key.as_bytes(), nonce, self.ciphertext.as_slice()) {
            Ok(plaintext) => Ok(plaintext),
            Err(e) => Err(DecryptError::UnsealError(e)),
        }
    }

    /// The algorithm named in the data.
    pub fn alg(&self) -> (r: EncryptionAlgorithm)
        ensures
            r == self@.alg,
    {
        self.alg
    }

    /// The ciphertext (with its authentication tag).
    pub fn ciphertext(&self) -> (r: &[u8])
        ensures
            r@ == self@.ciphertext,
    {
        self.ciphertext.as_slice()
    }

    /// Rebuilds encrypted data from its parts.
    pub fn from_parts(ciphertext: Vec<u8>, alg: EncryptionAlgorithm) -> (r: EncryptedData)
        ensures
            r@ == (EncryptedDataView { ciphertext: ciphertext@, alg }),
    {
        EncryptedData { ciphertext, alg }
    }

    /// A copy of the encrypted data.
    pub fn duplicate(&self) -> (r: EncryptedData)
        ensures
            r@ == self@,
    {
        let ciphertext = self.ciphertext.clone();
        assert(ciphertext@ =~= self.ciphertext@);
        EncryptedData { ciphertext, alg: self.alg }
    }
}

/// Encrypted data that decrypts to the serialized form of a `T`.
#[derive(Debug)]
pub struct EncryptedObject<T> {
    phantom: PhantomData<T>,
    ciphertext: EncryptedData,
}

impl<T> EncryptedObject<T> {
    pub closed spec fn data(&self) -> EncryptedDataView {
        self.ciphertext@
    }

    /// Encrypts the serialized form of an object.
    pub fn encrypt_serialized(serialized: &[u8], encryption_key: &EncryptionKey) -> (r: Result<EncryptedObject<T>, EncryptError>)
        ensures
            aead_seal(default_alg(), encryption_key@, first_nonce(), serialized@) is Some <==> r is Ok,
            r is Ok ==> r->Ok_0.data() == (EncryptedDataView {
                ciphertext: aead_seal(default_alg(), encryption_key@, first_nonce(), serialized@)->0,
                alg: default_alg(),
            }),
            serialized@.len() <= max_seal_len(default_alg()) ==> r is Ok,
            r is Ok ==> r->Ok_0.data().ciphertext.len() == serialized@.len() + 16,
    {
        match EncryptedData::encrypt(serialized, encryption_key) {
            Ok(ciphertext) => Ok(EncryptedObject { phantom: PhantomData, ciphertext }),
            Err(e) => Err(e),
        }
    }

    /// Decrypts to the serialized form of the object.
    pub fn decrypt_serialized(self, encryption_key: &EncryptionKey) -> (r: Result<Vec<u8>, DecryptError>)
        ensures
            aead_open(self.data().alg, encryption_key@, first_nonce(), self.data().ciphertext) is Some <==> r is Ok,
            r is Ok ==> r->Ok_0@ == aead_open(self.data().alg, encryption_key@, first_nonce(), self.data().ciphertext)->0,
            forall|d: Seq<u8>| aead_seal(self.data().alg, encryption_key@, first_nonce(), d) == Some(self.data().ciphertext)
                ==> r is Ok && r->Ok_0@ == d,
    {
        self.ciphertext.decrypt(encryption_key)
    }

    /// The encrypted data.
    pub fn encrypted_data(&self) -> (r: &EncryptedData)
        ensures
            r@ == self.data(),
    {
        &self.ciphertext
    }

    /// Wraps encrypted data.
    pub fn from_encrypted_data(ciphertext: EncryptedData) -> (r: EncryptedObject<T>)
        ensures
            r.data() == ciphertext@,
    {
        EncryptedObject { phantom: PhantomData, ciphertext }
    }

    /// A copy of the encrypted object.
    pub fn duplicate(&self) -> (r: EncryptedObject<T>)
        ensures
            r.data() == self.data(),
    {
        EncryptedObject { phantom: PhantomData, ciphertext: self.ciphertext.duplicate() }
    }
}

} // verus!
