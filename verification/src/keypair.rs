//! Ed25519 key pairs, held as their PKCS#8 DER encoding, and the saved form
//! of a key pair: the PKCS#8 bytes and the algorithm as postcard writes them
//! (a LEB128 length, the bytes, the algorithm's variant index), encrypted
//! under a symmetric key.

use vstd::prelude::*;

use crate::encrypt::{
    aead_open, aead_seal, first_nonce, DecryptError, EncryptError, EncryptedObject, EncryptionKey,
};
use crate::hybrid::{ed25519_pkcs8_public, ed25519_pkcs8_to_x25519};
use crate::keys::{Algorithm, ExportedPublicKey, SavedKeypair};

verus! {

#[verifier::external_type_specification]
#[verifier::external_body]
pub struct ExRcgenError(rcgen::Error);

/// Whether `rustls_pki_types::PrivateKeyDer::try_from` recognises the
/// encoding of the private key `der` (PKCS#8, PKCS#1 or SEC1).
pub uninterp spec fn key_encoding_detected(der: Seq<u8>) -> bool;

/// The raw public key and the DER SubjectPublicKeyInfo of the Ed25519 private
/// key `der`, as `rcgen::KeyPair::from_der_and_sign_algo(.., &PKCS_ED25519)`
/// reads it (`public_key_raw()`, `subject_public_key_info()`).
pub uninterp spec fn rcgen_ed25519_key(der: Seq<u8>) -> Option<(Seq<u8>, Seq<u8>)>;

/// Why private key bytes could not be read as a key pair.
#[derive(Debug)]
pub enum KeyReadError {
    UnknownEncoding,
    Rejected(rcgen::Error),
}

/// Reads an Ed25519 private key with rcgen: `PrivateKeyDer::try_from`, then
/// `KeyPair::from_der_and_sign_algo` with `PKCS_ED25519`, and returns the raw
/// public key and the SubjectPublicKeyInfo. Trusted: the outcome is a function
/// of `der`, named `key_encoding_detected` and `rcgen_ed25519_key`. The raw
/// key is ring's 32-byte Ed25519 public key, which ring computes from the
/// private seed (`from_seed_unchecked`, and a key written in the document
/// must equal it); ed25519-dalek, where it reads the same document
/// (`SigningKey::from_pkcs8_der`), derives its verifying key from the same
/// seed, so the two agree. Documents that only one of them accepts (such as
/// ring's legacy public key tag) are left aside.
#[verifier::external_body]
fn rcgen_read_key(der: &[u8]) -> (r: Result<(Vec<u8>, Vec<u8>), KeyReadError>)
    ensures
        r is Ok ==> r->Ok_0.0@.len() == 32,
        r is Ok && ed25519_pkcs8_public(der@) is Some ==> ed25519_pkcs8_public(der@) == Some(r->Ok_0.0@),
        !key_encoding_detected(der@) ==> r matches Err(KeyReadError::UnknownEncoding),
        key_encoding_detected(der@) ==> match rcgen_ed25519_key(der@) {
            Some((public_key, spki)) => r is Ok && r->Ok_0.0@ == public_key && r->Ok_0.1@ == spki,
            None => r matches Err(KeyReadError::Rejected(_)),
        },
{
    let key = der.try_into().map_err(|_| KeyReadError::UnknownEncoding)?;
    let pair = rcgen::KeyPair::from_der_and_sign_algo(&key, &rcgen::PKCS_ED25519).map_err(KeyReadError::Rejected)?;
    Ok((pair.public_key_raw().to_vec(), rcgen::PublicKeyData::subject_public_key_info(&pair)))
}

/// Generates a fresh Ed25519 key pair with rcgen
/// (`KeyPair::generate_for(&PKCS_ED25519)`) and returns its PKCS#8 DER
/// encoding (`serialize_der`). Trusted: rcgen reads back what it generates.
/// The bytes are ring's PKCS#8 v2 document (`Ed25519KeyPair::generate_pkcs8`),
/// which starts with a SEQUENCE, the version and an AlgorithmIdentifier, so
/// `PrivateKeyDer::try_from` detects PKCS#8, and which
/// `from_pkcs8_maybe_unchecked` accepts (`generate_for` itself parses it with
/// the stricter `from_pkcs8`). ed25519-dalek reads it too
/// (`SigningKey::from_pkcs8_der`: the Ed25519 algorithm identifier without
/// parameters, the seed in an OCTET STRING and the public key as the
/// context-specific [1] BIT STRING that ring writes, consistent with the
/// seed). Which bytes come out is left unsaid: they are random, and
/// generation fails where the system's random source does.
#[verifier::external_body]
fn rcgen_generate_ed25519() -> (r: Result<Vec<u8>, rcgen::Error>)
    ensures
        r is Ok ==> key_encoding_detected(r->Ok_0@) && rcgen_ed25519_key(r->Ok_0@) is Some,
        r is Ok ==> ed25519_pkcs8_public(r->Ok_0@) is Some && ed25519_pkcs8_to_x25519(r->Ok_0@) is Some,
{
    rcgen::KeyPair::generate_for(&rcgen::PKCS_ED25519).map(|pair| pair.serialize_der())
}

/// The LEB128 varint of `n`, as postcard writes integers: seven bits per
/// byte, least significant first, the high bit set on every byte but the last.
pub open spec fn varint(n: nat) -> Seq<u8>
    decreases n,
{
    if n < 128 {
        seq![n as u8]
    } else {
        seq![(n % 128 + 128) as u8] + varint(n / 128)
    }
}

/// The bytes postcard writes for a saved Ed25519 key pair with PKCS#8 bytes
/// `der`: the length as a varint, the bytes, and the algorithm's variant
/// index (0) as a varint.
pub open spec fn saved_keypair_bytes(der: Seq<u8>) -> Seq<u8> {
    varint(der.len()) + der + varint(0)
}

/// What `postcard::from_bytes::<(Vec<u8>, u32)>` reads from `bytes`: the
/// PKCS#8 bytes and the algorithm's variant index of a saved key pair.
pub uninterp spec fn postcard_saved_keypair(bytes: Seq<u8>) -> Option<(Seq<u8>, u32)>;

/// Writes a saved key pair with postcard (`postcard::to_stdvec` of the bytes
/// and the variant index 0, as a `SavedKeypair` of `der` and the Ed25519
/// algorithm is written). Trusted: postcard's wire format writes a byte
/// sequence as its length in a varint followed by the bytes, and a `u32` as a
/// varint; writing to a vector fails only for a sequence of unknown length or
/// an error of the value's own, neither of which arises here.
#[verifier::external_body]
fn postcard_write_saved_keypair(der: &[u8]) -> (r: Result<Vec<u8>, postcard::Error>)
    ensures
        r is Ok && r->Ok_0@ == saved_keypair_bytes(der@),
{
    postcard::to_stdvec(&(der, 0u32))
}

/// Reads a saved key pair with postcard (`postcard::from_bytes` into the
/// bytes and the variant index). Trusted: the outcome is a function of
/// `bytes`, named `postcard_saved_keypair`; and postcard reads back what it
/// writes.
#[verifier::external_body]
fn postcard_read_saved_keypair(bytes: &[u8]) -> (r: Result<(Vec<u8>, u32), postcard::Error>)
    ensures
        match postcard_saved_keypair(bytes@) {
            Some((der, tag)) => r is Ok && r->Ok_0.0@ == der && r->Ok_0.1 == tag,
            None => r is Err,
        },
        forall|der: Seq<u8>| #[trigger] saved_keypair_bytes(der) == bytes@ ==> r is Ok && r->Ok_0.0@ == der && r->Ok_0.1 == 0,
{
    postcard::from_bytes::<(Vec<u8>, u32)>(bytes)
}

/// Why saved key-pair bytes could not be read.
#[derive(Debug)]
pub enum SavedKeypairError {
    Postcard(postcard::Error),
    UnknownAlgorithm,
}

/// The saved form of a key pair with PKCS#8 bytes `der`.
pub fn encode_saved_keypair(der: &[u8]) -> (r: Result<Vec<u8>, postcard::Error>)
    ensures
        r is Ok && r->Ok_0@ == saved_keypair_bytes(der@),
{
    postcard_write_saved_keypair(der)
}

/// Reads the saved form of a key pair, giving its PKCS#8 bytes; the
/// algorithm must be Ed25519 (variant 0).
pub fn decode_saved_keypair(bytes: &[u8]) -> (r: Result<Vec<u8>, SavedKeypairError>)
    ensures
        match postcard_saved_keypair(bytes@) {
            None => r matches Err(SavedKeypairError::Postcard(_)),
            Some((der, tag)) => if tag == 0 {
                r is Ok && r->Ok_0@ == der
            } else {
                r matches Err(SavedKeypairError::UnknownAlgorithm)
            },
        },
        forall|der: Seq<u8>| #[trigger] saved_keypair_bytes(der) == bytes@ ==> r is Ok && r->Ok_0@ == der,
{
    match postcard_read_saved_keypair(bytes) {
        Err(e) => Err(SavedKeypairError::Postcard(e)),
        Ok((der, tag)) => {
            if tag != 0 {
                Err(SavedKeypairError::UnknownAlgorithm)
            } else {
                Ok(der)
            }
        },
    }
}

/// The PKCS#8 bytes that decrypting a saved key pair gives, where it gives a
/// key pair: the ciphertext opens, postcard reads an Ed25519 key pair from
/// the plaintext, and rcgen reads the key.
pub open spec fn saved_key_der(alg: crate::encrypt::EncryptionAlgorithm, key: Seq<u8>, ciphertext: Seq<u8>) -> Option<Seq<u8>> {
    match aead_open(alg, key, first_nonce(), ciphertext) {
        Some(bytes) => match postcard_saved_keypair(bytes) {
            Some((der, tag)) => if tag == 0 && key_encoding_detected(der) && rcgen_ed25519_key(der) is Some {
                Some(der)
            } else {
                None
            },
            None => None,
        },
        None => None,
    }
}

/// An Ed25519 key pair: its PKCS#8 DER encoding, with the raw public key and
/// SubjectPublicKeyInfo that rcgen reads from it.
#[derive(Debug)]
pub struct KeyPair {
    der: Vec<u8>,
    public_key: Vec<u8>,
    spki: Vec<u8>,
}

/// Why a saved key pair could not be restored.
#[derive(Debug)]
pub enum DecodeKeypairError {
    DecryptError(DecryptError),
    DecodeError(SavedKeypairError),
    DetectEncodingError,
    ParseKeypairError(rcgen::Error),
}

impl KeyPair {
    /// The key pair is what rcgen reads from its PKCS#8 bytes.
    #[verifier::type_invariant]
    closed spec fn inv(self) -> bool {
        &&& key_encoding_detected(self.der@)
        &&& rcgen_ed25519_key(self.der@) == Some((self.public_key@, self.spki@))
    }

    pub closed spec fn der(&self) -> Seq<u8> {
        self.der@
    }

    pub closed spec fn public_key(&self) -> Seq<u8> {
        self.public_key@
    }

    pub closed spec fn spki(&self) -> Seq<u8> {
        self.spki@
    }

    /// Reads a key pair from its PKCS#8 bytes.
    pub fn from_der(der: Vec<u8>) -> (r: Result<KeyPair, KeyReadError>)
        ensures
            !key_encoding_detected(der@) ==> r matches Err(KeyReadError::UnknownEncoding),
            key_encoding_detected(der@) ==> match rcgen_ed25519_key(der@) {
                Some((public_key, spki)) => r is Ok && r->Ok_0.der() == der@ && r->Ok_0.public_key() == public_key
                    && r->Ok_0.spki() == spki,
                None => r matches Err(KeyReadError::Rejected(_)),
            },
            r is Ok ==> r->Ok_0.public_key().len() == 32,
            r is Ok && ed25519_pkcs8_public(der@) is Some ==> ed25519_pkcs8_public(der@) == Some(r->Ok_0.public_key()),
    {
        match rcgen_read_key(der.as_slice()) {
            Ok((public_key, spki)) => Ok(KeyPair { der, public_key, spki }),
            Err(e) => Err(e),
        }
    }

    /// A fresh Ed25519 key pair.
    /// It fails only where rcgen cannot generate a key (its random source
    /// failed): what rcgen generates is always read back.
    pub fn generate() -> (r: Result<KeyPair, KeyReadError>)
        ensures
            r is Ok ==> key_encoding_detected(r->Ok_0.der())
                && rcgen_ed25519_key(r->Ok_0.der()) == Some((r->Ok_0.public_key(), r->Ok_0.spki())),
            r is Ok ==> r->Ok_0.public_key().len() == 32 && ed25519_pkcs8_public(r->Ok_0.der()) == Some(r->Ok_0.public_key())
                && ed25519_pkcs8_to_x25519(r->Ok_0.der()) is Some,
            r is Err ==> r matches Err(KeyReadError::Rejected(_)),
    {
        let der = match rcgen_generate_ed25519() {
            Ok(der) => der,
            Err(e) => return Err(KeyReadError::Rejected(e)),
        };
        Self::from_der(der)
    }

    /// The PKCS#8 DER bytes of the private key; rcgen reads them as this key pair.
    pub fn der_bytes(&self) -> (r: &[u8])
        ensures
            r@ == self.der(),
            key_encoding_detected(r@),
            rcgen_ed25519_key(r@) == Some((self.public_key(), self.spki())),
    {
        proof {
            use_type_invariant(self);
        }
        self.der.as_slice()
    }

    /// The DER SubjectPublicKeyInfo of the public key.
    pub fn subject_public_key_info(&self) -> (r: &[u8])
        ensures
            r@ == self.spki(),
    {
        self.spki.as_slice()
    }

    /// The public key as handed to a certificate authority.
    pub fn export_public_key(&self) -> (r: ExportedPublicKey)
        ensures
            r.der() == self.public_key(),
            r.alg() == Algorithm::PkcsEd25519,
    {
        let der = self.public_key.clone();
        assert(der@ =~= self.public_key@);
        ExportedPublicKey::new(der, Algorithm::PkcsEd25519)
    }

    /// The key pair together with its certificate.
    pub fn upgrade(self, certificate: crate::certificate::Certificate) -> (r: Result<crate::credential::Credential, crate::credential::CreateCredentialsError>)
        ensures
            r is Ok && r->Ok_0.key_der() == self.der() && r->Ok_0.certificate_view() == certificate@,
    {
        crate::credential::Credential::new(self, certificate)
    }

    /// A copy of the key pair.
    pub fn duplicate(&self) -> (r: KeyPair)
        ensures
            r.der() == self.der(),
            r.public_key() == self.public_key(),
            r.spki() == self.spki(),
    {
        proof {
            use_type_invariant(self);
        }
        let der = self.der.clone();
        let public_key = self.public_key.clone();
        let spki = self.spki.clone();
        assert(der@ =~= self.der@);
        assert(public_key@ =~= self.public_key@);
        assert(spki@ =~= self.spki@);
        KeyPair { der, public_key, spki }
    }

    /// Encrypts the saved form of the key pair under `encryption_key`.
    pub fn encrypt(&self, encryption_key: &EncryptionKey) -> (r: Result<EncryptedObject<SavedKeypair>, EncryptError>)
        ensures
            aead_seal(crate::encrypt::default_alg(), encryption_key@, first_nonce(), saved_keypair_bytes(self.der())) is Some <==> r is Ok,
            r is Ok ==> r->Ok_0.data() == (crate::encrypt::EncryptedDataView {
                ciphertext: aead_seal(crate::encrypt::default_alg(), encryption_key@, first_nonce(), saved_keypair_bytes(self.der()))->0,
                alg: crate::encrypt::default_alg(),
            }),
    {
        let bytes = match encode_saved_keypair(self.der.as_slice()) {
            Ok(b) => b,
            Err(e) => return Err(EncryptError::MarshalError(e)),
        };
        EncryptedObject::encrypt_serialized(bytes.as_slice(), encryption_key)
    }

    /// Restores a key pair from its encrypted saved form.
    pub fn decrypt(ciphertext: EncryptedObject<SavedKeypair>, encryption_key: &EncryptionKey) -> (r: Result<KeyPair, DecodeKeypairError>)
        ensures
            match aead_open(ciphertext.data().alg, encryption_key@, first_nonce(), ciphertext.data().ciphertext) {
                None => r matches Err(DecodeKeypairError::DecryptError(_)),
                Some(bytes) => match postcard_saved_keypair(bytes) {
                    None => (r matches Err(DecodeKeypairError::DecodeError(SavedKeypairError::Postcard(_)))),
                    Some((_, tag)) if tag != 0 => (r matches Err(DecodeKeypairError::DecodeError(SavedKeypairError::UnknownAlgorithm))),
                    Some((der, _)) => if !key_encoding_detected(der) {
                        r matches Err(DecodeKeypairError::DetectEncodingError)
                    } else {
                        match rcgen_ed25519_key(der) {
                            None => r matches Err(DecodeKeypairError::ParseKeypairError(_)),
                            Some((public_key, spki)) => r is Ok && r->Ok_0.der() == der && r->Ok_0.public_key()
                                == public_key && r->Ok_0.spki() == spki,
                        }
                    },
                },
            },
            forall|d: Seq<u8>|
                #![trigger saved_keypair_bytes(d)]
                aead_seal(ciphertext.data().alg, encryption_key@, first_nonce(), saved_keypair_bytes(d)) == Some(
                    ciphertext.data().ciphertext,
                ) && key_encoding_detected(d) && rcgen_ed25519_key(d) is Some ==> r is Ok && r->Ok_0.der() == d,
            r is Ok <==> saved_key_der(ciphertext.data().alg, encryption_key@, ciphertext.data().ciphertext) is Some,
            r is Ok ==> saved_key_der(ciphertext.data().alg, encryption_key@, ciphertext.data().ciphertext) == Some(
                r->Ok_0.der(),
            ),
    {
        let bytes = match ciphertext.decrypt_serialized(encryption_key) {
            Ok(b) => b,
            Err(e) => return Err(DecodeKeypairError::DecryptError(e)),
        };
        let der = match decode_saved_keypair(bytes.as_slice()) {
            Ok(der) => der,
            Err(e) => return Err(DecodeKeypairError::DecodeError(e)),
        };
        match Self::from_der(der) {
            Ok(k) => Ok(k),
            Err(KeyReadError::UnknownEncoding) => Err(DecodeKeypairError::DetectEncodingError),
            Err(KeyReadError::Rejected(e)) => Err(DecodeKeypairError::ParseKeypairError(e)),
        }
    }
}

} // verus!
