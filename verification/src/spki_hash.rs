//! The identifier of a key: the SHA-512/256 digest of its DER-encoded
//! SubjectPublicKeyInfo.

use vstd::prelude::*;

use crate::certificate_type::ascii_bytes;
use crate::digest::{sha512_256, sha512_256_digest};
use crate::hex::{decode, decode_hex, encode_upper, encode_upper_bytes, hex_upper};

verus! {

/// A 32-byte key identifier.
#[derive(Debug, Clone, Copy, Hash, PartialOrd, Ord)]
pub struct SpkiHash(pub [u8; 32]);

impl PartialEq for SpkiHash {
    fn eq(&self, other: &Self) -> (r: bool) {
        let mut i: usize = 0;
        while i < 32
            invariant
                i <= 32,
                self.0@.len() == 32,
                other.0@.len() == 32,
                forall|j: int| 0 <= j < i ==> self.0@[j] == other.0@[j],
            decreases 32 - i,
        {
            if self.0[i] != other.0[i] {
                return false;
            }
            i = i + 1;
        }
        assert(self.0@ =~= other.0@);
        true
    }
}

impl vstd::std_specs::cmp::PartialEqSpecImpl for SpkiHash {
    open spec fn obeys_eq_spec() -> bool {
        true
    }

    open spec fn eq_spec(&self, other: &Self) -> bool {
        self.0@ == other.0@
    }
}

impl Eq for SpkiHash {}

impl View for SpkiHash {
    type V = Seq<u8>;

    open spec fn view(&self) -> Seq<u8> {
        self.0@
    }
}

/// The SPKI hash that identifies the key with DER-encoded SubjectPublicKeyInfo `spki_der`.
pub open spec fn spec_spki_hash(spki_der: Seq<u8>) -> Seq<u8> {
    sha512_256(spki_der)
}

impl SpkiHash {
    /// The 32 bytes of the hash.
    pub fn as_slice(&self) -> (r: &[u8])
        ensures
            r@ == self@,
    {
        self.0.as_slice()
    }

    /// Builds a hash from exactly 32 bytes.
    pub fn from_slice(bytes: &[u8]) -> (r: Option<SpkiHash>)
        ensures
            bytes@.len() == 32 <==> r is Some,
            r is Some ==> r->0@ == bytes@,
    {
        if bytes.len() != 32 {
            return None;
        }
        let mut a = [0u8; 32];
        let mut i: usize = 0;
        while i < 32
            invariant
                i <= 32,
                bytes@.len() == 32,
                a@.len() == 32,
                forall|j: int| 0 <= j < i ==> a@[j] == bytes@[j],
            decreases 32 - i,
        {
            a[i] = bytes[i];
            i = i + 1;
        }
        assert(a@ =~= bytes@);
        Some(SpkiHash(a))
    }

    /// Upper-case hex text of the hash (its display form).
    pub fn to_hex(&self) -> (r: String)
        ensures
            r@ == hex_upper(self@),
    {
        encode_upper(self.0.as_slice())
    }

    /// ASCII bytes of the upper-case hex text of the hash.
    pub fn to_hex_bytes(&self) -> (r: Vec<u8>)
        ensures
            r@ == ascii_bytes(hex_upper(self@)),
    {
        encode_upper_bytes(self.0.as_slice())
    }

    /// Reads a hash back from 64 hex digits (either case).
    pub fn from_hex(text: &[u8]) -> (r: Option<SpkiHash>)
        ensures
            match decode_hex(text@) {
                Some(v) => if v.len() == 32 {
                    r is Some && r->0@ == v
                } else {
                    r is None
                },
                None => r is None,
            },
    {
        match decode(text) {
            Some(v) => SpkiHash::from_slice(v.as_slice()),
            None => None,
        }
    }

    /// The SPKI hash of the key with DER-encoded SubjectPublicKeyInfo `spki_der`.
    pub fn compute(spki_der: &[u8]) -> (r: SpkiHash)
        ensures
            r@ == spec_spki_hash(spki_der@),
    {
        let digest = sha512_256_digest(spki_der);
        match SpkiHash::from_slice(digest.as_slice()) {
            Some(h) => h,
            None => {
                assert(false);
                SpkiHash([0u8; 32])
            },
        }
    }
}

} // verus!
