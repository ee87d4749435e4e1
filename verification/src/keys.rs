//! Stored and exported key material: public keys as exchanged between
//! parties, the saved form of a key pair, encrypted credentials, sealed
//! objects and exported MLS stores.

use std::marker::PhantomData;

use vstd::prelude::*;

use crate::encrypt::EncryptedObject;

verus! {

/// The signature algorithms a key pair can use.
#[derive(Debug, Clone, Copy, PartialEq, Eq, Structural)]
pub enum Algorithm {
    PkcsEd25519,
}

impl Default for Algorithm {
    fn default() -> (r: Algorithm)
        ensures
            r == Algorithm::PkcsEd25519,
    {
        Algorithm::PkcsEd25519
    }
}

/// A public key as handed to a certificate authority: its DER bytes and algorithm.
#[derive(Debug)]
pub struct ExportedPublicKey {
    der: Vec<u8>,
    alg: Algorithm,
}

impl ExportedPublicKey {
    pub closed spec fn der(&self) -> Seq<u8> {
        self.der@
    }

    pub closed spec fn alg(&self) -> Algorithm {
        self.alg
    }

    pub fn new(der: Vec<u8>, alg: Algorithm) -> (r: ExportedPublicKey)
        ensures
            r.der() == der@,
            r.alg() == alg,
    {
        ExportedPublicKey { der, alg }
    }

    /// The DER bytes of the key.
    pub fn der_bytes(&self) -> (r: &[u8])
        ensures
            r@ == self.der(),
    {
        self.der.as_slice()
    }

    /// The key's algorithm.
    pub fn algorithm(&self) -> (r: Algorithm)
        ensures
            r == self.alg(),
    {
        self.alg
    }

    /// Whether two exported keys are equal.
    pub fn same_as(&self, other: &ExportedPublicKey) -> (r: bool)
        ensures
            r == (self.der() == other.der() && self.alg() == other.alg()),
    {
        crate::certificate::bytes_eq(self.der.as_slice(), other.der.as_slice()) && self.alg == other.alg
    }
}

/// The saved form of a key pair: its PKCS#8 DER bytes and algorithm.
#[derive(Debug)]
pub struct SavedKeypair {
    pub der: Vec<u8>,
    pub alg: Algorithm,
}

/// Raw public key bytes.
#[derive(Debug)]
pub struct PublicKey {
    raw: Vec<u8>,
}

impl PublicKey {
    pub closed spec fn raw(&self) -> Seq<u8> {
        self.raw@
    }

    /// Takes the bytes as a public key.
    pub fn from_bytes(bytes: Vec<u8>) -> (r: Result<PublicKey, ()>)
        ensures
            r is Ok && r->Ok_0.raw() == bytes@,
    {
        Ok(PublicKey { raw: bytes })
    }

    /// The key bytes.
    pub fn to_bytes(&self) -> (r: &[u8])
        ensures
            r@ == self.raw(),
    {
        self.raw.as_slice()
    }
}

/// A key pair encrypted with a password-derived key, together with its certificate.
#[derive(Debug)]
pub struct EncryptedCredentials {
    pub encrypted_keypair: EncryptedObject<SavedKeypair>,
    pub raw_cert: Vec<u8>,
}

/// A serializable object, hybrid encrypted and signed: for each receiver
/// (by SPKI hash) the encrypted main key, and the signed data.
#[derive(Debug)]
pub struct SealedObject<T> {
    pub phantom: PhantomData<T>,
    pub receiver_keys: Vec<(String, [u8; 32])>,
    pub signed_data: Vec<u8>,
}

/// The key-value contents of an in-memory MLS store, as serialized.
#[derive(Debug)]
pub struct MlsStoreValues;

/// An MLS store exported under a password.
#[derive(Debug)]
pub struct ExportedMlsStore {
    pub data: EncryptedObject<MlsStoreValues>,
}

} // verus!
