//! Hybrid encryption of an object for several receivers: the object is
//! encrypted once under a fresh symmetric key, and that key is sealed with
//! HPKE to each receiver's key (the receiver's Ed25519 certificate key,
//! converted to X25519). Receivers are found again by the lower-case hex of
//! their certificate's SPKI hash.

use vstd::prelude::*;

use hpke::{Deserializable, HpkeError, Serializable};

use crate::certificate::Certificate;
use crate::credential::Credential;
use crate::encrypt::{
    aead_open, aead_seal, default_alg, first_nonce, generate_key, DecryptError, EncryptError,
    EncryptedObject, EncryptionKey, GenerateKeyError,
};
use crate::hex::{encode_lower, hex_lower, lemma_hex_lower_injective};
use crate::spki_hash::SpkiHash;
use crate::text::prefixed;

verus! {

#[verifier::external_type_specification]
#[verifier::external_body]
pub struct ExHpkeError(HpkeError);

/// The X25519 public key for the Ed25519 public key `raw` (32 bytes):
/// `VerifyingKey::from_bytes(raw)?.to_montgomery().to_bytes()`.
pub uninterp spec fn ed25519_public_to_x25519(raw: Seq<u8>) -> Option<Seq<u8>>;

/// The X25519 private scalar for the PKCS#8 DER Ed25519 private key `der`:
/// `SigningKey::from_pkcs8_der(der)?.to_scalar_bytes()`.
pub uninterp spec fn ed25519_pkcs8_to_x25519(der: Seq<u8>) -> Option<Seq<u8>>;

/// What opening an HPKE (base mode, X25519-HKDF-SHA256, HKDF-SHA512,
/// ChaCha20Poly1305) ciphertext gives, with empty associated data.
pub uninterp spec fn hpke_open(private_key: Seq<u8>, encapsulated_key: Seq<u8>, info: Seq<u8>, ciphertext: Seq<u8>) -> Option<Seq<u8>>;

/// The raw 32-byte Ed25519 public key of the PKCS#8 DER private key `der`:
/// `SigningKey::from_pkcs8_der(der)?.verifying_key().to_bytes()`.
pub uninterp spec fn ed25519_pkcs8_public(der: Seq<u8>) -> Option<Seq<u8>>;

type Kem = hpke::kem::X25519HkdfSha256;

type Aead = hpke::aead::ChaCha20Poly1305;

type Kdf = hpke::kdf::HkdfSha512;

/// Converts with `ed25519_dalek`: `VerifyingKey::from_bytes`, then
/// `to_montgomery().to_bytes()`; on failure, the characters of the error's
/// message. Trusted: success and the key are a function of `raw`, named
/// `ed25519_public_to_x25519`.
#[verifier::external_body]
fn x25519_public_from_ed25519(raw: &[u8; 32]) -> (r: Result<[u8; 32], Vec<char>>)
    ensures
        match ed25519_public_to_x25519(raw@) {
            Some(k) => r is Ok && r->Ok_0@ == k,
            None => r is Err,
        },
{
    ed25519_dalek::VerifyingKey::from_bytes(raw)
        .map(|key| key.to_montgomery().to_bytes())
        .map_err(|e| e.to_string().chars().collect())
}

/// Reads a PKCS#8 DER Ed25519 private key with `ed25519_dalek`
/// (`SigningKey::from_pkcs8_der`) and returns its X25519 scalar
/// (`to_scalar_bytes()`) and its public key (`verifying_key().to_bytes()`).
/// On failure, the characters of the error's message. Trusted: success, the
/// scalar and the key are functions of `der`, named `ed25519_pkcs8_to_x25519`
/// and `ed25519_pkcs8_public`.
#[verifier::external_body]
fn x25519_private_from_ed25519_der(der: &[u8]) -> (r: Result<([u8; 32], [u8; 32]), Vec<char>>)
    ensures
        r is Err ==> ed25519_pkcs8_to_x25519(der@) is None && ed25519_pkcs8_public(der@) is None,
        match (ed25519_pkcs8_to_x25519(der@), ed25519_pkcs8_public(der@)) {
            (Some(k), Some(p)) => r is Ok && r->Ok_0.0@ == k && r->Ok_0.1@ == p,
            _ => r is Err,
        },
{
    <ed25519_dalek::SigningKey as ed25519_dalek::pkcs8::DecodePrivateKey>::from_pkcs8_der(der)
        .map(|key| (key.to_scalar_bytes(), key.verifying_key().to_bytes()))
        .map_err(|e| e.to_string().chars().collect())
}

/// Seals `plaintext` to the X25519 public key `public_key` with
/// `hpke::single_shot_seal` (base mode, empty associated data), after
/// `from_bytes` on the key, and returns the encapsulated key's bytes and the
/// ciphertext. Sealing draws fresh randomness, so the bytes themselves are
/// left unsaid. Trusted: as HPKE promises, opening them with the private key
/// of `public_key` gives back `plaintext`. For a key converted from Ed25519
/// that private key is the X25519 scalar of the Ed25519 signing key:
/// `to_montgomery` documents that the converted public key is the X25519
/// public key of `to_scalar_bytes()` of any signing key for it.
#[verifier::external_body]
fn hpke_seal(public_key: &[u8; 32], info: &[u8; 32], plaintext: &[u8; 32]) -> (r: Result<(Vec<u8>, Vec<u8>), HpkeError>)
    ensures
        r is Ok ==> forall|der: Seq<u8>|
            #![trigger ed25519_pkcs8_public(der), ed25519_pkcs8_to_x25519(der)]
            ed25519_pkcs8_public(der) is Some && ed25519_public_to_x25519(ed25519_pkcs8_public(der)->Some_0) == Some(public_key@)
                && ed25519_pkcs8_to_x25519(der) is Some ==> hpke_open(
                ed25519_pkcs8_to_x25519(der)->Some_0,
                r->Ok_0.0@,
                info@,
                r->Ok_0.1@,
            ) == Some(plaintext@),
{
    let pk = <<Kem as hpke::kem::Kem>::PublicKey as Deserializable>::from_bytes(public_key)?;
    let (encapped, ciphertext) = hpke::single_shot_seal::<Aead, Kdf, Kem>(&hpke::OpModeS::Base, &pk, info, plaintext, &[])?;
    Ok((encapped.to_bytes().to_vec(), ciphertext))
}

/// Opens with `hpke::single_shot_open` (base mode, empty associated data),
/// after `from_bytes` on the private and encapsulated keys. Trusted: the
/// outcome is a function of the four inputs, named `hpke_open`.
#[verifier::external_body]
fn hpke_open_with(private_key: &[u8; 32], encapsulated_key: &[u8], info: &[u8; 32], ciphertext: &[u8]) -> (r: Result<Vec<u8>, HpkeError>)
    ensures
        match hpke_open(private_key@, encapsulated_key@, info@, ciphertext@) {
            Some(p) => r is Ok && r->Ok_0@ == p,
            None => r is Err,
        },
{
    let sk = <<Kem as hpke::kem::Kem>::PrivateKey as Deserializable>::from_bytes(private_key)?;
    let encapped = <<Kem as hpke::kem::Kem>::EncappedKey as Deserializable>::from_bytes(encapsulated_key)?;
    hpke::single_shot_open::<Aead, Kdf, Kem>(&hpke::OpModeR::Base, &sk, &encapped, info, ciphertext, &[])
}

/// Why hybrid encryption or decryption failed.
#[derive(Debug)]
pub enum HybridEncryptedObjectError {
    GenerateKey(GenerateKeyError),
    Unspecified(ring::error::Unspecified),
    EncryptError(EncryptError),
    NotIntendedForMe,
    HpkeError(HpkeError),
    InvalidKeyLength,
    DecryptError(DecryptError),
    KeyConversionError(String),
}

/// The sealed symmetric key for one receiver.
#[derive(Debug)]
pub struct HybridEncryptionKeyData {
    pub shared_info_value: [u8; 32],
    pub encrypted_symmetric_key: Vec<u8>,
    pub encapsulated_key: Vec<u8>,
}

impl HybridEncryptionKeyData {
    /// A copy of the key data.
    pub fn duplicate(&self) -> (r: HybridEncryptionKeyData)
        ensures
            key_data_view(r) == key_data_view(*self),
    {
        let encrypted_symmetric_key = self.encrypted_symmetric_key.clone();
        let encapsulated_key = self.encapsulated_key.clone();
        assert(encrypted_symmetric_key@ =~= self.encrypted_symmetric_key@);
        assert(encapsulated_key@ =~= self.encapsulated_key@);
        HybridEncryptionKeyData { shared_info_value: self.shared_info_value, encrypted_symmetric_key, encapsulated_key }
    }
}

/// The contents of key data: shared info, sealed key, encapsulated key.
pub open spec fn key_data_view(d: HybridEncryptionKeyData) -> (Seq<u8>, Seq<u8>, Seq<u8>) {
    (d.shared_info_value@, d.encrypted_symmetric_key@, d.encapsulated_key@)
}

/// The key data of the last entry named `k`.
pub open spec fn lookup_key_data(entries: Seq<(String, HybridEncryptionKeyData)>, k: Seq<char>) -> (Seq<u8>, Seq<u8>, Seq<u8>)
    decreases entries.len(),
{
    if entries.len() == 0 {
        (seq![], seq![], seq![])
    } else if entries.last().0@ == k {
        key_data_view(entries.last().1)
    } else {
        lookup_key_data(entries.drop_last(), k)
    }
}

proof fn lemma_lookup_same(a: Seq<(String, HybridEncryptionKeyData)>, b: Seq<(String, HybridEncryptionKeyData)>, k: Seq<char>)
    requires
        a.len() == b.len(),
        forall|j: int| 0 <= j < a.len() ==> (#[trigger] a[j]).0@ == b[j].0@ && key_data_view(a[j].1) == key_data_view(b[j].1),
    ensures
        lookup_key_data(a, k) == lookup_key_data(b, k),
    decreases a.len(),
{
    if a.len() > 0 {
        let n = a.len() - 1;
        assert(a[n].0@ == b[n].0@);
        let (a2, b2) = (a.drop_last(), b.drop_last());
        assert forall|j: int| 0 <= j < a2.len() implies (#[trigger] a2[j]).0@ == b2[j].0@ && key_data_view(a2[j].1) == key_data_view(b2[j].1) by {
            assert(a2[j] == a[j]);
            assert(b2[j] == b[j]);
        }
        lemma_lookup_same(a2, b2, k);
    }
}

proof fn lemma_lookup_at(entries: Seq<(String, HybridEncryptionKeyData)>, i: int)
    requires
        entry_names(entries).no_duplicates(),
        0 <= i < entries.len(),
    ensures
        lookup_key_data(entries, entries[i].0@) == key_data_view(entries[i].1),
    decreases entries.len(),
{
    let n = entries.len() - 1;
    if i < n {
        let names = entry_names(entries);
        assert(names[i] == entries[i].0@);
        assert(names[n] == entries[n].0@);
        assert(names[i] != names[n]);
        let init = entries.drop_last();
        assert(entry_names(init) =~= names.drop_last());
        assert(init[i] == entries[i]);
        lemma_lookup_at(init, i);
    }
}

/// The text that names a receiver: the lower-case hex of its 32-byte fingerprint.
pub open spec fn receiver_name(fingerprint: Seq<u8>) -> Seq<char> {
    hex_lower(fingerprint)
}

/// Lower-case hex text of a 32-byte certificate fingerprint.
pub fn fingerprint_to_hex(fingerprint: &[u8; 32]) -> (r: String)
    ensures
        r@ == receiver_name(fingerprint@),
{
    encode_lower(fingerprint.as_slice())
}

/// The raw Ed25519 key at the end of a DER public key.
pub open spec fn raw_public(public_der: Seq<u8>) -> Seq<u8> {
    public_der.subrange(public_der.len() - 32, public_der.len() as int)
}

/// Every holder of a PKCS#8 Ed25519 private key for the public key
/// `public_der` opens the key data `d` to the symmetric key `k`.
pub open spec fn opens_to(d: (Seq<u8>, Seq<u8>, Seq<u8>), public_der: Seq<u8>, k: Seq<u8>) -> bool {
    &&& public_der.len() >= 32
    &&& forall|der: Seq<u8>|
        #![trigger ed25519_pkcs8_public(der), ed25519_pkcs8_to_x25519(der)]
        ed25519_pkcs8_public(der) == Some(raw_public(public_der)) && ed25519_pkcs8_to_x25519(der) is Some
            ==> hpke_open(ed25519_pkcs8_to_x25519(der)->Some_0, d.2, d.0, d.1) == Some(k)
}

/// The X25519 public key derived from a DER (SubjectPublicKeyInfo or raw)
/// Ed25519 public key, whose last 32 bytes are the raw key.
pub open spec fn spec_x25519_of_public(der: Seq<u8>) -> Option<Seq<u8>> {
    if der.len() < 32 {
        None
    } else {
        ed25519_public_to_x25519(der.subrange(der.len() - 32, der.len() as int))
    }
}

/// Whether the text `s` begins with `p`.
pub open spec fn starts_with(s: Seq<char>, p: Seq<char>) -> bool {
    p.len() <= s.len() && s.subrange(0, p.len() as int) == p
}

/// Converts an Ed25519 public key (DER, raw key at the end) to X25519.
pub fn ed25519_to_x25519_public(ed25519_public_der: &[u8]) -> (r: Result<[u8; 32], String>)
    ensures
        match spec_x25519_of_public(ed25519_public_der@) {
            Some(k) => r is Ok && r->Ok_0@ == k,
            None => r is Err,
        },
        ed25519_public_der@.len() < 32 ==> r is Err && r->Err_0@ == "Ed25519 public key too short"@,
        ed25519_public_der@.len() >= 32 && r is Err ==> starts_with(r->Err_0@, "Invalid Ed25519 public key: "@),
{
    let n = ed25519_public_der.len();
    if n < 32 {
        return Err("Ed25519 public key too short".to_owned());
    }
    let mut raw = [0u8; 32];
    let mut i: usize = 0;
    while i < 32
        invariant
            n == ed25519_public_der@.len(),
            n >= 32,
            i <= 32,
            raw@.len() == 32,
            forall|j: int| 0 <= j < i ==> raw@[j] == ed25519_public_der@[n - 32 + j],
        decreases 32 - i,
    {
        raw[i] = ed25519_public_der[n - 32 + i];
        i = i + 1;
    }
    assert(raw@ =~= ed25519_public_der@.subrange(n - 32, n as int));
    match x25519_public_from_ed25519(&raw) {
        Ok(k) => Ok(k),
        Err(message) => {
            let text = prefixed("Invalid Ed25519 public key: ", message.as_slice());
            assert(text@.subrange(0, "Invalid Ed25519 public key: "@.len() as int) =~= "Invalid Ed25519 public key: "@);
            Err(text)
        },
    }
}

/// Converts a PKCS#8 DER Ed25519 private key to an X25519 private scalar.
pub fn ed25519_to_x25519_private(ed25519_private_der: &[u8]) -> (r: Result<[u8; 32], String>)
    ensures
        match ed25519_pkcs8_to_x25519(ed25519_private_der@) {
            Some(k) => r is Ok && r->Ok_0@ == k,
            None => r is Err,
        },
        r is Err ==> starts_with(r->Err_0@, "Failed to parse Ed25519 private key: "@),
{
    match x25519_private_from_ed25519_der(ed25519_private_der) {
        Ok((scalar, _)) => Ok(scalar),
        Err(message) => {
            let text = prefixed("Failed to parse Ed25519 private key: ", message.as_slice());
            assert(text@.subrange(0, "Failed to parse Ed25519 private key: "@.len() as int)
                =~= "Failed to parse Ed25519 private key: "@);
            Err(text)
        },
    }
}

/// An object encrypted for a set of receivers.
#[derive(Debug)]
pub struct HybridEncryptedObject<T> {
    encrypted_object: EncryptedObject<T>,
    shared_keys: Vec<(String, HybridEncryptionKeyData)>,
}

/// The receiver names of a list of entries.
pub open spec fn entry_names(entries: Seq<(String, HybridEncryptionKeyData)>) -> Seq<Seq<char>> {
    entries.map_values(|e: (String, HybridEncryptionKeyData)| e.0@)
}

/// The receiver names of a list of certificates.
pub open spec fn receiver_names(receivers: Seq<Certificate>) -> Set<Seq<char>> {
    Set::new(|k: Seq<char>| exists|i: int| 0 <= i < receivers.len() && k == receiver_name(#[trigger] receivers[i]@.spki_hash))
}

/// Whether every receiver's key converts to X25519.
pub open spec fn receivers_convertible(receivers: Seq<Certificate>) -> bool {
    forall|i: int| 0 <= i < receivers.len() ==> (#[trigger] spec_x25519_of_public(receivers[i]@.public_key)) is Some
}

/// What decrypting with the key data `d` and the receiver's private key gives.
pub enum HybridOpen {
    KeyConversionFailed,
    HpkeFailed,
    InvalidKeyLength,
    Key(Seq<u8>),
}

pub open spec fn spec_open_key(d: (Seq<u8>, Seq<u8>, Seq<u8>), private_der: Seq<u8>) -> HybridOpen {
    match ed25519_pkcs8_to_x25519(private_der) {
        None => HybridOpen::KeyConversionFailed,
        Some(sk) => match hpke_open(sk, d.2, d.0, d.1) {
            None => HybridOpen::HpkeFailed,
            Some(k) => if k.len() != 32 {
                HybridOpen::InvalidKeyLength
            } else {
                HybridOpen::Key(k)
            },
        },
    }
}

impl<T> HybridEncryptedObject<T> {
    /// The names of the receivers that can open the object.
    pub closed spec fn names(&self) -> Set<Seq<char>> {
        entry_names(self.shared_keys@).to_set()
    }

    pub closed spec fn wf(&self) -> bool {
        entry_names(self.shared_keys@).no_duplicates()
    }

    /// The key data stored for receiver name `k`: shared info, sealed key,
    /// encapsulated key.
    pub closed spec fn key_data(&self, k: Seq<char>) -> (Seq<u8>, Seq<u8>, Seq<u8>) {
        lookup_key_data(self.shared_keys@, k)
    }

    /// The encrypted object.
    pub closed spec fn object(&self) -> crate::encrypt::EncryptedDataView {
        self.encrypted_object.data()
    }

    /// The number of receivers.
    pub fn receiver_count(&self) -> (r: usize)
        requires
            self.wf(),
        ensures
            r == self.names().len(),
    {
        proof {
            entry_names(self.shared_keys@).unique_seq_to_set();
        }
        self.shared_keys.len()
    }

    fn find(&self, name: &String) -> (r: Option<usize>)
        ensures
            r is None <==> !entry_names(self.shared_keys@).contains(name@),
            r is Some ==> r->0 < self.shared_keys@.len() && self.shared_keys@[r->0 as int].0@ == name@,
    {
        let mut i: usize = 0;
        while i < self.shared_keys.len()
            invariant
                i <= self.shared_keys@.len(),
                forall|j: int| 0 <= j < i ==> self.shared_keys@[j].0@ != name@,
            decreases self.shared_keys@.len() - i,
        {
            if self.shared_keys[i].0 == *name {
                assert(entry_names(self.shared_keys@)[i as int] == name@);
                return Some(i);
            }
            i = i + 1;
        }
        assert forall|j: int| 0 <= j < entry_names(self.shared_keys@).len() implies entry_names(self.shared_keys@)[j] != name@ by {
            assert(self.shared_keys@[j].0@ == entry_names(self.shared_keys@)[j]);
        }
        None
    }

    /// Encrypts the serialized object for `receivers`. On success the object
    /// can be opened by exactly the receivers' names (one entry per distinct
    /// receiver), and the symmetric ciphertext is the AEAD sealing of the
    /// serialized object under the key that each entry seals.
    pub fn encrypt_with_receivers(serialized: &[u8], receivers: Vec<Certificate>) -> (r: Result<HybridEncryptedObject<T>, HybridEncryptedObjectError>)
        ensures
            r is Ok ==> encrypted_for(r->Ok_0, serialized@, receivers@),
            r is Ok ==> receivers_convertible(receivers@),
            r matches Err(HybridEncryptedObjectError::KeyConversionError(_)) ==> !receivers_convertible(receivers@),
    {
        let symmetric_key = match generate_key() {
            Ok(k) => k,
            Err(e) => return Err(HybridEncryptedObjectError::GenerateKey(e)),
        };
        let key = EncryptionKey::dangerous_from_bytes(symmetric_key);
        let encrypted_object = match EncryptedObject::<T>::encrypt_serialized(serialized, &key) {
            Ok(o) => o,
            Err(e) => return Err(HybridEncryptedObjectError::EncryptError(e)),
        };
        let mut result = HybridEncryptedObject { encrypted_object, shared_keys: Vec::new() };
        let n = receivers.len();
        let mut i: usize = 0;
        while i < n
            invariant
                n == receivers@.len(),
                i <= n,
                result.wf(),
                result.names() == Set::new(|k: Seq<char>| exists|j: int| 0 <= j < i && k == receiver_name(#[trigger] receivers@[j]@.spki_hash)),
                forall|j: int| 0 <= j < i ==> (#[trigger] spec_x25519_of_public(receivers@[j]@.public_key)) is Some,
                result.object() == encrypted_object_view(serialized@, symmetric_key@),
                aead_seal(default_alg(), symmetric_key@, first_nonce(), serialized@) is Some,
                symmetric_key@.len() == 32,
                forall|nm: Seq<char>| #[trigger] result.names().contains(nm) ==> exists|j: int| 0 <= j < i && nm == receiver_name(
                    #[trigger] receivers@[j]@.spki_hash,
                ) && opens_to(result.key_data(nm), receivers@[j]@.public_key, symmetric_key@),
            decreases n - i,
        {
            let receiver = &receivers[i];
            let shared_info_value = match generate_key() {
                Ok(k) => k,
                Err(e) => return Err(HybridEncryptedObjectError::GenerateKey(e)),
            };
            let x25519_public_key = match ed25519_to_x25519_public(receiver.public_key()) {
                Ok(k) => k,
                Err(e) => return Err(HybridEncryptedObjectError::KeyConversionError(e)),
            };
            let (encapsulated_key, encrypted_symmetric_key) = match hpke_seal(&x25519_public_key, &shared_info_value, &symmetric_key) {
                Ok(v) => v,
                Err(e) => return Err(HybridEncryptedObjectError::HpkeError(e)),
            };
            let data = HybridEncryptionKeyData { shared_info_value, encrypted_symmetric_key, encapsulated_key };
            let name = fingerprint_to_hex(&receiver.spki_hash().0);
            let ghost old_names = result.names();
            let ghost before = result;
            assert(opens_to(key_data_view(data), receivers@[i as int]@.public_key, symmetric_key@));
            result.insert(name, data);
            assert forall|nm: Seq<char>| #[trigger] result.names().contains(nm) implies exists|j: int| 0 <= j < i + 1 && nm == receiver_name(
                #[trigger] receivers@[j]@.spki_hash,
            ) && opens_to(result.key_data(nm), receivers@[j]@.public_key, symmetric_key@) by {
                if nm == name@ {
                    assert(nm == receiver_name(receivers@[i as int]@.spki_hash));
                } else {
                    assert(before.names().contains(nm));
                    let j = choose|j: int| 0 <= j < i && nm == receiver_name(#[trigger] receivers@[j]@.spki_hash) && opens_to(
                        before.key_data(nm),
                        receivers@[j]@.public_key,
                        symmetric_key@,
                    );
                    assert(result.key_data(nm) == before.key_data(nm));
                    assert(nm == receiver_name(receivers@[j]@.spki_hash));
                }
            }
            assert(result.names() =~= Set::new(|k: Seq<char>| exists|j: int| 0 <= j < i + 1 && k == receiver_name(#[trigger] receivers@[j]@.spki_hash))) by {
                assert forall|k: Seq<char>| result.names().contains(k) <==> (exists|j: int| 0 <= j < i + 1 && k == receiver_name(#[trigger] receivers@[j]@.spki_hash)) by {
                    if k == receiver_name(receivers@[i as int]@.spki_hash) {
                    } else if result.names().contains(k) {
                        assert(old_names.contains(k));
                    } else {
                        if exists|j: int| 0 <= j < i + 1 && k == receiver_name(#[trigger] receivers@[j]@.spki_hash) {
                            let j = choose|j: int| 0 <= j < i + 1 && k == receiver_name(#[trigger] receivers@[j]@.spki_hash);
                            assert(j < i);
                            assert(old_names.contains(k));
                        }
                    }
                }
            }
            i = i + 1;
        }
        assert(result.names() =~= receiver_names(receivers@));
        assert(aead_seal(default_alg(), symmetric_key@, first_nonce(), serialized@) == Some(result.object().ciphertext));
        Ok(result)
    }

    /// The key data of the entry at index `i` is what `key_data` gives for its name.
    proof fn lemma_key_data_at(self, i: int)
        requires
            self.wf(),
            0 <= i < self.shared_keys@.len(),
        ensures
            self.key_data(self.shared_keys@[i].0@) == key_data_view(self.shared_keys@[i].1),
    {
        lemma_lookup_at(self.shared_keys@, i);
    }

    /// A copy of the object, with the same receivers and key data.
    pub fn duplicate(&self) -> (r: HybridEncryptedObject<T>)
        ensures
            r.wf() == self.wf(),
            r.names() == self.names(),
            r.object() == self.object(),
            forall|k: Seq<char>| #[trigger] r.key_data(k) == self.key_data(k),
    {
        let mut shared_keys: Vec<(String, HybridEncryptionKeyData)> = Vec::new();
        let n = self.shared_keys.len();
        let mut i: usize = 0;
        while i < n
            invariant
                n == self.shared_keys@.len(),
                i <= n,
                shared_keys@.len() == i,
                forall|j: int| 0 <= j < i ==> (#[trigger] shared_keys@[j]).0@ == self.shared_keys@[j].0@
                    && key_data_view(shared_keys@[j].1) == key_data_view(self.shared_keys@[j].1),
            decreases n - i,
        {
            let entry = &self.shared_keys[i];
            let ghost before = shared_keys@;
            let copy = (entry.0.clone(), entry.1.duplicate());
            shared_keys.push(copy);
            assert forall|j: int| 0 <= j < i + 1 implies (#[trigger] shared_keys@[j]).0@ == self.shared_keys@[j].0@
                && key_data_view(shared_keys@[j].1) == key_data_view(self.shared_keys@[j].1) by {
                if j < i {
                    assert(shared_keys@[j] == before[j]);
                }
            }
            i = i + 1;
        }
        let r = HybridEncryptedObject { encrypted_object: self.encrypted_object.duplicate(), shared_keys };
        assert forall|j: int| 0 <= j < r.shared_keys@.len() implies entry_names(r.shared_keys@)[j] == entry_names(self.shared_keys@)[j] by {
            assert(r.shared_keys@[j].0@ == self.shared_keys@[j].0@);
        }
        assert(entry_names(r.shared_keys@) =~= entry_names(self.shared_keys@));
        assert forall|k: Seq<char>| #[trigger] r.key_data(k) == self.key_data(k) by {
            lemma_lookup_same(r.shared_keys@, self.shared_keys@, k);
        }
        r
    }

    /// The encrypted object and the entries, one per receiver name, as the
    /// object is saved.
    pub fn into_parts(self) -> (r: (EncryptedObject<T>, Vec<(String, HybridEncryptionKeyData)>))
        requires
            self.wf(),
        ensures
            r.0.data() == self.object(),
            entry_names(r.1@).no_duplicates(),
            entry_names(r.1@).to_set() == self.names(),
            forall|k: Seq<char>| #[trigger] lookup_key_data(r.1@, k) == self.key_data(k),
    {
        (self.encrypted_object, self.shared_keys)
    }

    /// Rebuilds a saved object from its encrypted object and entries; a later
    /// entry replaces an earlier one with the same receiver name.
    pub fn from_parts(encrypted_object: EncryptedObject<T>, shared_keys: Vec<(String, HybridEncryptionKeyData)>) -> (r: HybridEncryptedObject<T>)
        ensures
            r.wf(),
            r.object() == encrypted_object.data(),
            r.names() == entry_names(shared_keys@).to_set(),
            forall|k: Seq<char>| #[trigger] r.names().contains(k) ==> r.key_data(k) == lookup_key_data(shared_keys@, k),
    {
        let ghost input = shared_keys@;
        let mut result = HybridEncryptedObject { encrypted_object, shared_keys: Vec::new() };
        assert(entry_names(result.shared_keys@) =~= Seq::<Seq<char>>::empty());
        assert(entry_names(input.subrange(0, 0)) =~= Seq::<Seq<char>>::empty());
        let mut entries = shared_keys;
        let n = entries.len();
        let mut i: usize = 0;
        while i < n
            invariant
                n == input.len(),
                entries@ == input.subrange(i as int, n as int),
                i <= n,
                result.wf(),
                result.object() == encrypted_object.data(),
                result.names() == entry_names(input.subrange(0, i as int)).to_set(),
                forall|k: Seq<char>| #[trigger] result.names().contains(k) ==> result.key_data(k) == lookup_key_data(
                    input.subrange(0, i as int),
                    k,
                ),
            decreases n - i,
        {
            let ghost before = result;
            let (name, data) = entries.remove(0);
            let ghost entry = input[i as int];
            let ghost prefix = input.subrange(0, i as int);
            let ghost next = input.subrange(0, i + 1);
            assert(next.drop_last() =~= prefix);
            assert(next.last() == entry);
            assert(entry_names(next) =~= entry_names(prefix).push(entry.0@));
            assert(entry_names(next).to_set() =~= entry_names(prefix).to_set().insert(entry.0@)) by {
                assert forall|x: Seq<char>| entry_names(next).to_set().contains(x) <==> entry_names(prefix).to_set().insert(entry.0@).contains(x) by {
                    if entry_names(next).contains(x) {
                        let j = choose|j: int| 0 <= j < entry_names(next).len() && entry_names(next)[j] == x;
                        if j < prefix.len() {
                            assert(entry_names(prefix)[j] == x);
                        }
                    }
                    if entry_names(prefix).contains(x) {
                        let j = choose|j: int| 0 <= j < entry_names(prefix).len() && entry_names(prefix)[j] == x;
                        assert(entry_names(next)[j] == x);
                    }
                    if x == entry.0@ {
                        assert(entry_names(next)[i as int] == x);
                    }
                }
            }
            result.insert(name, data);
            assert(entries@ =~= input.subrange(i + 1, n as int));
            i = i + 1;
        }
        assert(input.subrange(0, n as int) =~= input);
        result
    }

    /// A receiver name of the object is the name of one of its entries.
    proof fn lemma_name_index(self, k: Seq<char>) -> (i: int)
        requires
            self.names().contains(k),
        ensures
            0 <= i < self.shared_keys@.len(),
            self.shared_keys@[i].0@ == k,
    {
        let names = entry_names(self.shared_keys@);
        let i = choose|i: int| 0 <= i < names.len() && names[i] == k;
        i
    }

    /// Adds (or replaces) the entry for receiver `name`.
    fn insert(&mut self, name: String, data: HybridEncryptionKeyData)
        requires
            old(self).wf(),
        ensures
            final(self).wf(),
            final(self).names() == old(self).names().insert(name@),
            final(self).object() == old(self).object(),
            final(self).key_data(name@) == key_data_view(data),
            forall|k: Seq<char>| k != name@ && #[trigger] old(self).names().contains(k) ==> final(self).key_data(k)
                == old(self).key_data(k),
    {
        let ghost before = *self;
        let ghost names_before = entry_names(self.shared_keys@);
        let ghost data_view = key_data_view(data);
        let ghost idx: int;
        match self.find(&name) {
            Some(k) => {
                self.shared_keys.set(k, (name, data));
                proof {
                    idx = k as int;
                    assert(entry_names(self.shared_keys@) =~= names_before);
                    assert(name@ == names_before[k as int]);
                    assert(names_before.to_set().insert(name@) =~= names_before.to_set());
                }
            },
            None => {
                self.shared_keys.push((name, data));
                proof {
                    idx = names_before.len() as int;
                    let after = entry_names(self.shared_keys@);
                    assert(after =~= names_before.push(name@));
                    assert forall|a: int, b: int| 0 <= a < b < after.len() implies after[a] != after[b] by {
                        if b == names_before.len() {
                            assert(names_before[a] != name@);
                        }
                    }
                    assert forall|x: Seq<char>| after.to_set().contains(x) <==> names_before.to_set().insert(name@).contains(x) by {
                        if after.contains(x) {
                            let j = choose|j: int| 0 <= j < after.len() && after[j] == x;
                            if j < names_before.len() {
                                assert(names_before[j] == x);
                            }
                        }
                        if names_before.contains(x) {
                            let j = choose|j: int| 0 <= j < names_before.len() && names_before[j] == x;
                            assert(after[j] == x);
                        }
                        if x == name@ {
                            assert(after[names_before.len() as int] == x);
                        }
                    }
                    assert(after.to_set() =~= names_before.to_set().insert(name@));
                }
            },
        }
        proof {
            assert(self.shared_keys@[idx].0@ == name@);
            self.lemma_key_data_at(idx);
            assert forall|k: Seq<char>| k != name@ && #[trigger] before.names().contains(k) implies self.key_data(k)
                == before.key_data(k) by {
                let i = before.lemma_name_index(k);
                before.lemma_key_data_at(i);
                assert(i != idx);
                assert(self.shared_keys@[i] == before.shared_keys@[i]);
                self.lemma_key_data_at(i);
            }
        }
    }

    /// Opens the object with `credentials`: the receiver named by the SPKI
    /// hash of their certificate, with the PKCS#8 DER Ed25519 private key of
    /// their key pair. Gives the serialized object.
    pub fn decrypt(self, credentials: Credential) -> (r: Result<Vec<u8>, HybridEncryptedObjectError>)
        requires
            self.wf(),
        ensures
            ({
                let fingerprint = credentials.certificate_view().spki_hash;
                let private_key_der = credentials.key_der();
                &&& !self.names().contains(receiver_name(fingerprint)) ==> (r matches Err(HybridEncryptedObjectError::NotIntendedForMe))
                &&& self.names().contains(receiver_name(fingerprint)) ==> match spec_open_key(self.key_data(receiver_name(fingerprint)), private_key_der) {
                    HybridOpen::KeyConversionFailed => (r matches Err(HybridEncryptedObjectError::KeyConversionError(_))),
                    HybridOpen::HpkeFailed => (r matches Err(HybridEncryptedObjectError::HpkeError(_))),
                    HybridOpen::InvalidKeyLength => (r matches Err(HybridEncryptedObjectError::InvalidKeyLength)),
                    HybridOpen::Key(k) => match aead_open(self.object().alg, k, first_nonce(), self.object().ciphertext) {
                        Some(p) => r is Ok && r->Ok_0@ == p,
                        None => (r matches Err(HybridEncryptedObjectError::DecryptError(_))),
                    },
                }
                &&& forall|p: Seq<u8>| opens_object(self, receiver_name(fingerprint), private_key_der, p) ==> r is Ok && r->Ok_0@ == p
            }),
    {
        let certificate = credentials.get_certificate();
        let keypair = credentials.keypair();
        self.open_with(certificate.spki_hash(), keypair.der_bytes())
    }

    /// Opens the object as the receiver named by `fingerprint`, with the
    /// PKCS#8 DER Ed25519 private key `private_key_der`.
    fn open_with(self, fingerprint: &SpkiHash, private_key_der: &[u8]) -> (r: Result<Vec<u8>, HybridEncryptedObjectError>)
        requires
            self.wf(),
        ensures
            !self.names().contains(receiver_name(fingerprint@)) ==> r matches Err(HybridEncryptedObjectError::NotIntendedForMe),
            self.names().contains(receiver_name(fingerprint@)) ==> match spec_open_key(self.key_data(receiver_name(fingerprint@)), private_key_der@) {
                HybridOpen::KeyConversionFailed => r matches Err(HybridEncryptedObjectError::KeyConversionError(_)),
                HybridOpen::HpkeFailed => r matches Err(HybridEncryptedObjectError::HpkeError(_)),
                HybridOpen::InvalidKeyLength => r matches Err(HybridEncryptedObjectError::InvalidKeyLength),
                HybridOpen::Key(k) => match aead_open(self.object().alg, k, first_nonce(), self.object().ciphertext) {
                    Some(p) => r is Ok && r->Ok_0@ == p,
                    None => r matches Err(HybridEncryptedObjectError::DecryptError(_)),
                },
            },
            forall|p: Seq<u8>| opens_object(self, receiver_name(fingerprint@), private_key_der@, p) ==> r is Ok && r->Ok_0@ == p,
    {
        let name = fingerprint_to_hex(&fingerprint.0);
        let k = match self.find(&name) {
            None => {
                assert(!self.names().contains(name@));
                return Err(HybridEncryptedObjectError::NotIntendedForMe);
            },
            Some(k) => k,
        };
        proof {
            self.lemma_key_data_at(k as int);
        }
        let data = &self.shared_keys[k].1;
        let x25519_private_key = match ed25519_to_x25519_private(private_key_der) {
            Ok(sk) => sk,
            Err(e) => return Err(HybridEncryptedObjectError::KeyConversionError(e)),
        };
        let symmetric_key = match hpke_open_with(
            &x25519_private_key,
            data.encapsulated_key.as_slice(),
            &data.shared_info_value,
            data.encrypted_symmetric_key.as_slice(),
        ) {
            Ok(key) => key,
            Err(e) => return Err(HybridEncryptedObjectError::HpkeError(e)),
        };
        if symmetric_key.len() != 32 {
            return Err(HybridEncryptedObjectError::InvalidKeyLength);
        }
        let mut key_bytes = [0u8; 32];
        let mut i: usize = 0;
        while i < 32
            invariant
                i <= 32,
                symmetric_key@.len() == 32,
                key_bytes@.len() == 32,
                forall|j: int| 0 <= j < i ==> key_bytes@[j] == symmetric_key@[j],
            decreases 32 - i,
        {
            key_bytes[i] = symmetric_key[i];
            i = i + 1;
        }
        assert(key_bytes@ =~= symmetric_key@);
        let key = EncryptionKey::dangerous_from_bytes(key_bytes);
        match self.encrypted_object.decrypt_serialized(&key) {
            Ok(p) => Ok(p),
            Err(e) => Err(HybridEncryptedObjectError::DecryptError(e)),
        }
    }
}

/// `obj` is what encrypting `serialized` for `receivers` gives: its receiver
/// names are the receivers', and for a 32-byte key `k` under which its
/// ciphertext seals `serialized`, each entry opens to `k` for the holders of
/// the private key of a receiver with that name.
pub open spec fn encrypted_for<T>(obj: HybridEncryptedObject<T>, serialized: Seq<u8>, receivers: Seq<Certificate>) -> bool {
    &&& obj.wf()
    &&& obj.names() == receiver_names(receivers)
    &&& obj.object().alg == default_alg()
    &&& exists|k: Seq<u8>| k.len() == 32 && aead_seal(default_alg(), k, first_nonce(), serialized) == Some(obj.object().ciphertext)
        && forall|n: Seq<char>| #[trigger] obj.names().contains(n) ==> exists|j: int| 0 <= j < receivers.len() && n == receiver_name(
        #[trigger] receivers[j]@.spki_hash,
    ) && opens_to(obj.key_data(n), receivers[j]@.public_key, k)
}

/// Opening `obj` as the receiver named `n` with the private key `private_der`
/// gives `p`: the entry for `n` opens to a key under which the object's
/// ciphertext seals `p`.
pub open spec fn opens_object<T>(obj: HybridEncryptedObject<T>, n: Seq<char>, private_der: Seq<u8>, p: Seq<u8>) -> bool {
    &&& obj.names().contains(n)
    &&& exists|k: Seq<u8>| spec_open_key(obj.key_data(n), private_der) == HybridOpen::Key(k) && aead_seal(
        obj.object().alg,
        k,
        first_nonce(),
        p,
    ) == Some(obj.object().ciphertext)
}

/// A receiver that an object was encrypted for, holding the private key of
/// its certificate, opens the object to what was encrypted; provided no two
/// receivers' certificates share an SPKI hash but differ in their keys.
pub proof fn lemma_receiver_opens_object<T>(
    obj: HybridEncryptedObject<T>,
    serialized: Seq<u8>,
    receivers: Seq<Certificate>,
    i: int,
    private_der: Seq<u8>,
)
    requires
        encrypted_for(obj, serialized, receivers),
        0 <= i < receivers.len(),
        forall|a: int, b: int|
            0 <= a < receivers.len() && 0 <= b < receivers.len() && #[trigger] receivers[a]@.spki_hash
                == #[trigger] receivers[b]@.spki_hash ==> receivers[a]@.public_key == receivers[b]@.public_key,
        ed25519_pkcs8_public(private_der) == Some(raw_public(receivers[i]@.public_key)),
        ed25519_pkcs8_to_x25519(private_der) is Some,
    ensures
        opens_object(obj, receiver_name(receivers[i]@.spki_hash), private_der, serialized),
{
    let n = receiver_name(receivers[i]@.spki_hash);
    assert(receiver_names(receivers).contains(n));
    let k = choose|k: Seq<u8>| k.len() == 32 && aead_seal(default_alg(), k, first_nonce(), serialized) == Some(obj.object().ciphertext)
        && forall|n: Seq<char>| #[trigger] obj.names().contains(n) ==> exists|j: int| 0 <= j < receivers.len() && n == receiver_name(
        #[trigger] receivers[j]@.spki_hash,
    ) && opens_to(obj.key_data(n), receivers[j]@.public_key, k);
    assert(obj.names().contains(n));
    let j = choose|j: int| 0 <= j < receivers.len() && n == receiver_name(#[trigger] receivers[j]@.spki_hash) && opens_to(
        obj.key_data(n),
        receivers[j]@.public_key,
        k,
    );
    lemma_hex_lower_injective(receivers[i]@.spki_hash, receivers[j]@.spki_hash);
    assert(receivers[j]@.public_key == receivers[i]@.public_key);
    assert(ed25519_pkcs8_public(private_der) == Some(raw_public(receivers[j]@.public_key)));
    assert(spec_open_key(obj.key_data(n), private_der) == HybridOpen::Key(k));
}

/// A credential whose key matches its certificate, where that certificate is
/// one of the receivers an object was encrypted for, opens the object to what
/// was encrypted (and `decrypt` then returns it); provided no two receivers'
/// certificates share an SPKI hash but differ in their keys. Credentials from
/// `Credential::generate_root` have matching keys.
pub proof fn lemma_credential_opens_object<T>(
    obj: HybridEncryptedObject<T>,
    serialized: Seq<u8>,
    receivers: Seq<Certificate>,
    i: int,
    credentials: Credential,
)
    requires
        encrypted_for(obj, serialized, receivers),
        0 <= i < receivers.len(),
        forall|a: int, b: int|
            0 <= a < receivers.len() && 0 <= b < receivers.len() && #[trigger] receivers[a]@.spki_hash
                == #[trigger] receivers[b]@.spki_hash ==> receivers[a]@.public_key == receivers[b]@.public_key,
        receivers[i]@.spki_hash == credentials.certificate_view().spki_hash,
        receivers[i]@.public_key == credentials.certificate_view().public_key,
        credentials.key_matches_certificate(),
    ensures
        opens_object(obj, receiver_name(credentials.certificate_view().spki_hash), credentials.key_der(), serialized),
{
    lemma_receiver_opens_object(obj, serialized, receivers, i, credentials.key_der());
}

/// The encrypted object that sealing `serialized` under `key` gives.
pub open spec fn encrypted_object_view(serialized: Seq<u8>, key: Seq<u8>) -> crate::encrypt::EncryptedDataView {
    crate::encrypt::EncryptedDataView { ciphertext: aead_seal(default_alg(), key, first_nonce(), serialized)->0, alg: default_alg() }
}

/// Only the listed receivers can open a hybrid object: one whose name is
/// not among the receivers' names is refused as not intended for it.
pub proof fn lemma_only_receivers(receivers: Seq<Certificate>, names: Set<Seq<char>>, fingerprint: Seq<u8>)
    requires
        names == receiver_names(receivers),
        forall|i: int| 0 <= i < receivers.len() ==> #[trigger] receivers[i]@.spki_hash != fingerprint,
    ensures
        !names.contains(receiver_name(fingerprint)),
{
    if names.contains(receiver_name(fingerprint)) {
        let i = choose|i: int| 0 <= i < receivers.len() && receiver_name(fingerprint) == receiver_name(#[trigger] receivers[i]@.spki_hash);
        lemma_hex_lower_injective(fingerprint, receivers[i]@.spki_hash);
    }
}

} // verus!
